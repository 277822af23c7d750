//! Per-server log capture: a bounded buffer of recent output lines per
//! server, for a live tail view.

use vstd::prelude::*;

use crate::ids::now_wall;
use crate::mcp::ring::{last_n, ring_push, RingMap};
use crate::session::types::WallTime;

verus! {

#[derive(Clone, Copy, Debug, PartialEq, Eq, Structural)]
pub enum LogStream {
    Stdout,
    Stderr,
}

/// One captured output line.
pub struct LogEntry {
    pub server_id: String,
    pub stream: LogStream,
    pub message: String,
    pub timestamp: WallTime,
}

/// The model of a [`LogEntry`].
pub struct LogEntryView {
    pub server_id: Seq<char>,
    pub stream: LogStream,
    pub message: Seq<char>,
    pub timestamp: WallTime,
}

impl View for LogEntry {
    type V = LogEntryView;

    open spec fn view(&self) -> LogEntryView {
        LogEntryView {
            server_id: self.server_id@,
            stream: self.stream,
            message: self.message@,
            timestamp: self.timestamp,
        }
    }
}

impl Clone for LogEntry {
    fn clone(&self) -> (out: Self)
        ensures
            out@ == self@,
    {
        LogEntry {
            server_id: self.server_id.clone(),
            stream: self.stream,
            message: self.message.clone(),
            timestamp: self.timestamp,
        }
    }
}

impl LogEntry {
    /// An entry stamped with the current time.
    pub fn new(server_id: String, stream: LogStream, message: String) -> (e: Self)
        ensures
            e.server_id == server_id,
            e.stream == stream,
            e.message == message,
    {
        LogEntry { server_id, stream, message, timestamp: now_wall() }
    }
}

pub open spec fn entry_views(q: Seq<LogEntry>) -> Seq<LogEntryView> {
    q.map_values(|e: LogEntry| e@)
}

/// Bounded per-server log buffer. Drops oldest entries when full.
pub struct LogSink {
    buffers: RingMap<LogEntry>,
}

impl LogSink {
    pub closed spec fn wf(&self) -> bool {
        self.buffers.wf()
    }

    /// How many entries a server's buffer keeps.
    pub closed spec fn capacity(&self) -> int {
        self.buffers.cap()
    }

    /// The buffered entries of a server, oldest first.
    pub closed spec fn entries(&self, server_id: Seq<char>) -> Seq<LogEntryView> {
        entry_views(self.buffers.entries(server_id))
    }

    pub fn new(capacity_per_server: usize) -> (r: Self)
        ensures
            r.wf(),
            r.capacity() == capacity_per_server,
            forall|k: Seq<char>| #[trigger] r.entries(k) == Seq::<LogEntryView>::empty(),
    {
        let r = LogSink { buffers: RingMap::new(capacity_per_server) };
        assert forall|k: Seq<char>| #[trigger] r.entries(k) == Seq::<LogEntryView>::empty() by {
            assert(entry_views(r.buffers.entries(k)) =~= Seq::<LogEntryView>::empty());
        }
        r
    }

    /// Appends a copy of `entry` to its server's buffer, dropping the oldest
    /// entry when the buffer is full.
    pub fn push(&mut self, entry: &LogEntry)
        requires
            old(self).wf(),
        ensures
            final(self).wf(),
            final(self).capacity() == old(self).capacity(),
            final(self).entries(entry.server_id@) == ring_push(
                old(self).entries(entry.server_id@),
                entry@,
                old(self).capacity(),
            ),
            forall|k: Seq<char>| k != entry.server_id@ ==> #[trigger] final(self).entries(k) == old(self).entries(k),
    {
        let c = entry.clone();
        let ghost q = self.buffers.entries(entry.server_id@);
        self.buffers.push(entry.server_id.as_str(), c);
        assert(entry_views(ring_push(q, c, self.buffers.cap())) =~= ring_push(
            entry_views(q),
            entry@,
            self.buffers.cap(),
        ));
    }

    /// The last `limit` entries of a server, oldest first.
    pub fn snapshot(&self, server_id: &str, limit: usize) -> (r: Vec<LogEntry>)
        requires
            self.wf(),
        ensures
            entry_views(r@) == last_n(self.entries(server_id@), limit as int),
    {
        let mut out: Vec<LogEntry> = Vec::new();
        match self.buffers.get(server_id) {
            Some(q) => {
                let ghost qv = entry_views(q@);
                let start = if limit >= q.len() { 0 } else { q.len() - limit };
                let mut i: usize = start;
                while i < q.len()
                    invariant
                        start <= i <= q@.len(),
                        qv == entry_views(q@),
                        entry_views(out@) == qv.subrange(start as int, i as int),
                    decreases q.len() - i,
                {
                    let c = q[i].clone();
                    assert(c@ == qv[i as int]);
                    let ghost prev = out@;
                    out.push(c);
                    assert(entry_views(out@) =~= entry_views(prev).push(c@));
                    i = i + 1;
                    assert(entry_views(out@) =~= qv.subrange(start as int, i as int));
                }
                assert(qv.subrange(start as int, qv.len() as int) =~= last_n(qv, limit as int));
            },
            None => {
                assert(entry_views(out@) =~= last_n(Seq::<LogEntryView>::empty(), limit as int));
            },
        }
        out
    }

    /// Drops every buffered entry of a server.
    pub fn clear(&mut self, server_id: &str)
        requires
            old(self).wf(),
        ensures
            final(self).wf(),
            final(self).capacity() == old(self).capacity(),
            final(self).entries(server_id@) == Seq::<LogEntryView>::empty(),
            forall|k: Seq<char>| k != server_id@ ==> #[trigger] final(self).entries(k) == old(self).entries(k),
    {
        self.buffers.remove_key(server_id);
        assert(entry_views(Seq::<LogEntry>::empty()) =~= Seq::<LogEntryView>::empty());
    }
}

} // verus!
