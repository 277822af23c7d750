//! The bookkeeping of an append-only session writer: when to flush and
//! fsync, and refusing to append once the session is finalized.
//!
//! Every `batch_size` action records the writer flushes its buffer and
//! fsyncs the file, so that a crash loses at most a batch of trailing
//! actions. The caller does the writing and syncing and reports each step.

use vstd::prelude::*;

use crate::error::AppError;
use crate::text::owned;

verus! {

/// Default number of action records between fsyncs.
pub const FSYNC_BATCH_SIZE: usize = 16;

pub struct WriterState {
    pending: usize,
    batch_size: usize,
    finalized: bool,
}

impl WriterState {
    /// Records written since the last sync.
    pub closed spec fn unsynced(&self) -> nat {
        self.pending as nat
    }

    pub closed spec fn batch(&self) -> nat {
        self.batch_size as nat
    }

    pub closed spec fn is_finalized(&self) -> bool {
        self.finalized
    }

    /// A writer whose `meta` record has just been written and synced.
    pub fn new() -> (w: Self)
        ensures
            w.unsynced() == 0,
            w.batch() == FSYNC_BATCH_SIZE,
            !w.is_finalized(),
    {
        WriterState { pending: 0, batch_size: FSYNC_BATCH_SIZE, finalized: false }
    }

    /// Sets the batch size; 0 counts as 1 (sync after every record).
    pub fn with_fsync_batch(self, batch_size: usize) -> (w: Self)
        ensures
            w.batch() == if batch_size == 0 { 1 } else { batch_size as nat },
            w.unsynced() == self.unsynced(),
            w.is_finalized() == self.is_finalized(),
    {
        let mut w = self;
        w.batch_size = if batch_size == 0 { 1 } else { batch_size };
        w
    }

    /// Whether an action may be appended: not after the session was
    /// finalized.
    pub fn check_append(&self) -> (r: Result<(), AppError>)
        ensures
            self.is_finalized() ==> (r matches Err(AppError::Internal(m)) && m@
                == "session writer used after finalize()"@),
            !self.is_finalized() ==> r is Ok,
    {
        if self.finalized {
            Err(AppError::Internal(owned("session writer used after finalize()")))
        } else {
            Ok(())
        }
    }

    /// Counts a record written; returns whether the batch is full, in which
    /// case the caller flushes and fsyncs (and reports it with `synced`).
    pub fn record_written(&mut self) -> (sync: bool)
        requires
            old(self).unsynced() < usize::MAX,
        ensures
            final(self).unsynced() == old(self).unsynced() + 1,
            final(self).batch() == old(self).batch(),
            final(self).is_finalized() == old(self).is_finalized(),
            sync == (final(self).unsynced() >= final(self).batch()),
    {
        self.pending = self.pending + 1;
        self.pending >= self.batch_size
    }

    /// The buffer was flushed and the file synced.
    pub fn synced(&mut self)
        ensures
            final(self).unsynced() == 0,
            final(self).batch() == old(self).batch(),
            final(self).is_finalized() == old(self).is_finalized(),
    {
        self.pending = 0;
    }

    /// The `end` record was written and synced.
    pub fn finalized(&mut self)
        ensures
            final(self).is_finalized(),
            final(self).unsynced() == old(self).unsynced(),
            final(self).batch() == old(self).batch(),
    {
        self.finalized = true;
    }

    /// Whether the session was finalized.
    pub fn was_finalized(&self) -> (b: bool)
        ensures
            b == self.is_finalized(),
    {
        self.finalized
    }

    /// A caller that syncs whenever `record_written` asks it to never holds
    /// more than a batch of unsynced records: counting one more record on a
    /// writer below its batch leaves it at most at the batch, and below it
    /// unless a sync was asked for.
    pub proof fn lemma_at_most_a_batch_unsynced(before: WriterState, after: WriterState, sync: bool)
        requires
            before.unsynced() < before.batch(),
            after.unsynced() == before.unsynced() + 1,
            after.batch() == before.batch(),
            sync == (after.unsynced() >= after.batch()),
        ensures
            after.unsynced() <= after.batch(),
            !sync ==> after.unsynced() < after.batch(),
    {
    }

    /// Records written since the last sync.
    pub fn unsynced_count(&self) -> (n: usize)
        ensures
            n == self.unsynced(),
    {
        self.pending
    }
}

} // verus!
