//! Sandbox launch commands and the macOS `sandbox-exec` profile.
//!
//! The profile is a permissive baseline with explicit denies: everything is
//! allowed, then file writes are denied everywhere except runtime scratch
//! areas, package-manager caches under the home directory and the paths the
//! user granted with `fs.write`; network access is denied unless an
//! `internet` / `net.outbound` scope is granted.

use vstd::prelude::*;

use crate::db::models::McpServer;
use crate::db::permissions::PersistedPermission;
use crate::text::{
    chars_of, chars_starts_with, clone_strings, owned, push_all, slice_chars, starts_with, str_eq,
    string_of, trim, trim_chars,
};

verus! {

/// A prepared command, possibly wrapped by a sandbox launcher.
pub struct SandboxedCommand {
    pub program: String,
    pub args: Vec<String>,
    /// Label for logs and the UI (`sandbox-exec`, `noop`).
    pub enforcement: &'static str,
}

// ---------------------------------------------------------------------------
// Text helpers
// ---------------------------------------------------------------------------

/// `path` with backslashes and double quotes escaped for an SBPL string.
pub open spec fn sanitize_path_spec(path: Seq<char>) -> Seq<char>
    decreases path.len(),
{
    if path.len() == 0 {
        Seq::empty()
    } else {
        sanitize_path_spec(path.drop_last()) + if path.last() == '\\' {
            seq!['\\', '\\']
        } else if path.last() == '"' {
            seq!['\\', '"']
        } else {
            seq![path.last()]
        }
    }
}

/// `s` with line breaks turned into spaces, so that it stays in a comment.
pub open spec fn sanitize_comment_spec(s: Seq<char>) -> Seq<char> {
    s.map_values(|c: char| if c == '\n' || c == '\r' { ' ' } else { c })
}

/// Escapes backslashes and double quotes so the SBPL parser reads `path` as
/// one string.
pub fn sanitize_path(path: &str) -> (r: String)
    ensures
        r@ == sanitize_path_spec(path@),
{
    let cs = chars_of(path);
    let mut out = String::new();
    let mut i: usize = 0;
    while i < cs.len()
        invariant
            i <= cs.len(),
            cs@ == path@,
            out@ == sanitize_path_spec(cs@.take(i as int)),
        decreases cs.len() - i,
    {
        let c = cs[i];
        if c == '\\' {
            out.push('\\');
            out.push('\\');
        } else if c == '"' {
            out.push('\\');
            out.push('"');
        } else {
            out.push(c);
        }
        assert(cs@.take(i + 1).drop_last() == cs@.take(i as int));
        i = i + 1;
        assert(out@ =~= sanitize_path_spec(cs@.take(i as int)));
    }
    assert(cs@.take(cs.len() as int) == cs@);
    out
}

/// Replaces line breaks with spaces.
pub fn sanitize_for_comment(s: &str) -> (r: String)
    ensures
        r@ == sanitize_comment_spec(s@),
{
    let cs = chars_of(s);
    let mut out: Vec<char> = Vec::new();
    let mut i: usize = 0;
    while i < cs.len()
        invariant
            i <= cs.len(),
            cs@ == s@,
            out@ == sanitize_comment_spec(cs@.take(i as int)),
        decreases cs.len() - i,
    {
        let c = cs[i];
        if c == '\n' || c == '\r' {
            out.push(' ');
        } else {
            out.push(c);
        }
        i = i + 1;
        assert(out@ =~= sanitize_comment_spec(cs@.take(i as int)));
    }
    assert(cs@.take(cs.len() as int) == cs@);
    string_of(&out)
}

/// The rule that re-allows writes under `path`.
pub open spec fn subpath_rule(path: Seq<char>) -> Seq<char> {
    "(allow file-write* (subpath \""@ + sanitize_path_spec(path) + "\"))\n"@
}

/// Appends the rule that re-allows writes under `path`.
pub fn write_subpath_write(p: &mut String, path: &str)
    ensures
        final(p)@ == old(p)@ + subpath_rule(path@),
{
    let ghost start = p@;
    push_all(p, "(allow file-write* (subpath \"");
    let s = sanitize_path(path);
    push_all(p, s.as_str());
    push_all(p, "\"))\n");
    assert(p@ =~= start + subpath_rule(path@));
}

/// `s` without trailing `/` characters.
pub open spec fn trim_end_slashes(s: Seq<char>) -> Seq<char>
    decreases s.len(),
{
    if s.len() > 0 && s.last() == '/' {
        trim_end_slashes(s.drop_last())
    } else {
        s
    }
}

fn trim_end_slashes_exec(s: &str) -> (r: String)
    ensures
        r@ == trim_end_slashes(s@),
{
    let cs = chars_of(s);
    let mut k: usize = cs.len();
    assert(cs@.take(k as int) == cs@);
    while k > 0 && cs[k - 1] == '/'
        invariant
            k <= cs.len(),
            trim_end_slashes(cs@) == trim_end_slashes(cs@.take(k as int)),
        decreases k,
    {
        assert(cs@.take(k as int).drop_last() == cs@.take(k - 1));
        k = k - 1;
    }
    assert(cs@.take(cs.len() as int) == cs@);
    let t = slice_chars(&cs, 0, k);
    assert(t@ == cs@.take(k as int));
    string_of(&t)
}

// ---------------------------------------------------------------------------
// Granted scopes
// ---------------------------------------------------------------------------

/// A granted target resolved against the home directory: `*`, `~` and
/// `$HOME` become the home directory, `~/x` and `$HOME/x` become
/// `<home>/x`, `${HOME}x` becomes `<home>x`, anything else stays as it is.
/// Absent or blank targets, and any target when the home directory is
/// unknown, resolve to nothing.
pub open spec fn expand_target_spec(raw: Option<Seq<char>>, home: Option<Seq<char>>) -> Option<Seq<char>> {
    match raw {
        None => None,
        Some(r) => {
            let s = trim(r);
            if s.len() == 0 {
                None
            } else {
                match home {
                    None => None,
                    Some(h) => Some(
                        if s == "*"@ || s == "~"@ || s == "$HOME"@ {
                            h
                        } else if starts_with(s, "~/"@) {
                            h + "/"@ + s.skip(2)
                        } else if starts_with(s, "$HOME/"@) {
                            h + "/"@ + s.skip(6)
                        } else if starts_with(s, "${HOME}"@) {
                            h + s.skip(7)
                        } else {
                            s
                        },
                    ),
                }
            }
        },
    }
}

/// Resolves a granted `fs.write` target against the home directory (see
/// [`expand_target_spec`]).
pub fn expand_target(raw: Option<&str>, home: Option<&str>) -> (r: Option<String>)
    ensures
        match r {
            Some(x) => expand_target_spec(
                match raw { Some(s) => Some(s@), None => None },
                match home { Some(h) => Some(h@), None => None },
            ) == Some(x@),
            None => expand_target_spec(
                match raw { Some(s) => Some(s@), None => None },
                match home { Some(h) => Some(h@), None => None },
            ) is None,
        },
{
    let raw = match raw {
        Some(r) => r,
        None => return None,
    };
    let s = trim_chars(&chars_of(raw));
    if s.len() == 0 {
        return None;
    }
    let home = match home {
        Some(h) => h,
        None => return None,
    };
    let st = string_of(&s);
    let sv = st.as_str();
    if str_eq(sv, "*") || str_eq(sv, "~") || str_eq(sv, "$HOME") {
        return Some(owned(home));
    }
    if chars_starts_with(&s, &chars_of("~/")) {
        proof { reveal_strlit("~/"); }
        let mut out = owned(home);
        out.push('/');
        let rest = slice_chars(&s, 2, s.len());
        push_all(&mut out, string_of(&rest).as_str());
        assert(out@ =~= home@ + "/"@ + s@.skip(2)) by { reveal_strlit("/"); }
        return Some(out);
    }
    if chars_starts_with(&s, &chars_of("$HOME/")) {
        proof { reveal_strlit("$HOME/"); }
        let mut out = owned(home);
        out.push('/');
        let rest = slice_chars(&s, 6, s.len());
        push_all(&mut out, string_of(&rest).as_str());
        assert(out@ =~= home@ + "/"@ + s@.skip(6)) by { reveal_strlit("/"); }
        return Some(out);
    }
    if chars_starts_with(&s, &chars_of("${HOME}")) {
        proof { reveal_strlit("${HOME}"); }
        let mut out = owned(home);
        let rest = slice_chars(&s, 7, s.len());
        push_all(&mut out, string_of(&rest).as_str());
        assert(out@ =~= home@ + s@.skip(7));
        return Some(out);
    }
    Some(st)
}

pub open spec fn opt_view(s: Option<String>) -> Option<Seq<char>> {
    match s {
        Some(x) => Some(x@),
        None => None,
    }
}

pub open spec fn is_net_scope(scope: Seq<char>) -> bool {
    scope == "internet"@ || scope == "net.outbound"@
}

/// The resolved targets of the granted `fs.write` permissions, in order.
pub open spec fn fs_write_paths(perms: Seq<PersistedPermission>, home: Option<Seq<char>>) -> Seq<Seq<char>>
    decreases perms.len(),
{
    if perms.len() == 0 {
        Seq::empty()
    } else {
        let rest = fs_write_paths(perms.drop_last(), home);
        let p = perms.last();
        if p.granted && p.scope@ == "fs.write"@ && expand_target_spec(opt_view(p.target), home) is Some {
            rest.push(expand_target_spec(opt_view(p.target), home)->0)
        } else {
            rest
        }
    }
}

/// Whether some granted permission opens the network.
pub open spec fn net_granted(perms: Seq<PersistedPermission>) -> bool {
    exists|i: int| 0 <= i < perms.len() && #[trigger] perms[i].granted && is_net_scope(perms[i].scope@)
}

/// The hosts named by granted network permissions (not empty, not `*`).
pub open spec fn net_hosts(perms: Seq<PersistedPermission>) -> Seq<Seq<char>>
    decreases perms.len(),
{
    if perms.len() == 0 {
        Seq::empty()
    } else {
        let rest = net_hosts(perms.drop_last());
        let p = perms.last();
        if p.granted && is_net_scope(p.scope@) && p.target is Some && p.target->0@.len() > 0
            && p.target->0@ != "*"@ {
            rest.push(p.target->0@)
        } else {
            rest
        }
    }
}

// ---------------------------------------------------------------------------
// Profile text
// ---------------------------------------------------------------------------

/// `f` applied to every element of `ps`, concatenated.
pub open spec fn concat_map(ps: Seq<Seq<char>>, f: spec_fn(Seq<char>) -> Seq<char>) -> Seq<char>
    decreases ps.len(),
{
    if ps.len() == 0 {
        Seq::empty()
    } else {
        concat_map(ps.drop_last(), f) + f(ps.last())
    }
}

pub open spec fn granted_write_block(p: Seq<char>) -> Seq<char> {
    ";;   granted fs.write scope: "@ + sanitize_comment_spec(p) + "\n"@ + subpath_rule(p)
}

pub open spec fn host_comment(h: Seq<char>) -> Seq<char> {
    ";;   granted host: "@ + sanitize_comment_spec(h) + "\n"@
}

/// The write-allowed runtime areas: system temp directories, `$TMPDIR`
/// (without trailing slashes) and package-manager caches under home.
pub open spec fn scratch_paths(home: Option<Seq<char>>, tmpdir: Option<Seq<char>>) -> Seq<Seq<char>> {
    seq!["/private/tmp"@, "/tmp"@, "/private/var/folders"@] + match tmpdir {
        Some(t) => seq![trim_end_slashes(t)],
        None => Seq::empty(),
    } + match home {
        Some(h) => seq![
            h + "/.npm"@,
            h + "/.cache"@,
            h + "/.nvm"@,
            h + "/.volta"@,
            h + "/.bun"@,
            h + "/.config"@,
        ],
        None => Seq::empty(),
    }
}

pub open spec fn profile_header() -> Seq<char> {
    "(version 1)\n"@ + ";; Generated by MCP Hub. Permissive baseline + explicit denies.\n"@
        + ";; Reorder/strip rules at your own risk \u{2014} they encode the\n"@
        + ";; trust contract from the install dialog.\n\n"@ + "(allow default)\n\n"@
        + ";; File-write policy: deny everywhere, then re-allow the\n"@
        + ";; paths the user granted plus the runtime scratch areas.\n"@ + "(deny file-write*)\n"@
}

pub open spec fn network_section(perms: Seq<PersistedPermission>) -> Seq<char> {
    "\n;; Network policy.\n"@ + if net_granted(perms) {
        concat_map(net_hosts(perms), |h: Seq<char>| host_comment(h)) + "(allow network*)\n"@
    } else {
        "(deny network*)\n"@
    }
}

/// The whole `sandbox-exec` profile for a server with these permissions.
pub open spec fn profile_spec(
    perms: Seq<PersistedPermission>,
    home: Option<Seq<char>>,
    tmpdir: Option<Seq<char>>,
) -> Seq<char> {
    profile_header() + concat_map(scratch_paths(home, tmpdir), |p: Seq<char>| subpath_rule(p))
        + concat_map(fs_write_paths(perms, home), |p: Seq<char>| granted_write_block(p))
        + network_section(perms)
}

proof fn lemma_concat_map_step(ps: Seq<Seq<char>>, i: int, f: spec_fn(Seq<char>) -> Seq<char>)
    requires
        0 <= i < ps.len(),
    ensures
        concat_map(ps.take(i + 1), f) == concat_map(ps.take(i), f) + f(ps[i]),
{
    assert(ps.take(i + 1).drop_last() == ps.take(i));
}

pub open spec fn string_views(v: Seq<String>) -> Seq<Seq<char>> {
    v.map_values(|s: String| s@)
}

/// Appends the subpath rule of every path in `paths`.
fn write_rules(p: &mut String, paths: &Vec<String>)
    ensures
        final(p)@ == old(p)@ + concat_map(string_views(paths@), |x: Seq<char>| subpath_rule(x)),
{
    let ghost start = p@;
    let ghost ps = string_views(paths@);
    let ghost f = |x: Seq<char>| subpath_rule(x);
    let mut i: usize = 0;
    while i < paths.len()
        invariant
            i <= paths.len(),
            ps == string_views(paths@),
            f == (|x: Seq<char>| subpath_rule(x)),
            p@ == start + concat_map(ps.take(i as int), f),
        decreases paths.len() - i,
    {
        proof {
            lemma_concat_map_step(ps, i as int, f);
        }
        write_subpath_write(p, paths[i].as_str());
        i = i + 1;
        assert(p@ =~= start + concat_map(ps.take(i as int), f));
    }
    assert(ps.take(paths.len() as int) == ps);
}

/// Appends the comment and subpath rule of every granted write path.
fn write_granted_blocks(p: &mut String, paths: &Vec<String>)
    ensures
        final(p)@ == old(p)@ + concat_map(string_views(paths@), |x: Seq<char>| granted_write_block(x)),
{
    let ghost start = p@;
    let ghost ps = string_views(paths@);
    let ghost f = |x: Seq<char>| granted_write_block(x);
    let mut i: usize = 0;
    while i < paths.len()
        invariant
            i <= paths.len(),
            ps == string_views(paths@),
            f == (|x: Seq<char>| granted_write_block(x)),
            p@ == start + concat_map(ps.take(i as int), f),
        decreases paths.len() - i,
    {
        proof {
            lemma_concat_map_step(ps, i as int, f);
        }
        let ghost before = p@;
        push_all(p, ";;   granted fs.write scope: ");
        let c = sanitize_for_comment(paths[i].as_str());
        push_all(p, c.as_str());
        push_all(p, "\n");
        write_subpath_write(p, paths[i].as_str());
        assert(p@ =~= before + granted_write_block(ps[i as int]));
        i = i + 1;
        assert(p@ =~= start + concat_map(ps.take(i as int), f));
    }
    assert(ps.take(paths.len() as int) == ps);
}

/// Appends a comment naming every granted host.
fn write_host_comments(p: &mut String, hosts: &Vec<String>)
    ensures
        final(p)@ == old(p)@ + concat_map(string_views(hosts@), |x: Seq<char>| host_comment(x)),
{
    let ghost start = p@;
    let ghost ps = string_views(hosts@);
    let ghost f = |x: Seq<char>| host_comment(x);
    let mut i: usize = 0;
    while i < hosts.len()
        invariant
            i <= hosts.len(),
            ps == string_views(hosts@),
            f == (|x: Seq<char>| host_comment(x)),
            p@ == start + concat_map(ps.take(i as int), f),
        decreases hosts.len() - i,
    {
        proof {
            lemma_concat_map_step(ps, i as int, f);
        }
        let ghost before = p@;
        push_all(p, ";;   granted host: ");
        let c = sanitize_for_comment(hosts[i].as_str());
        push_all(p, c.as_str());
        push_all(p, "\n");
        assert(p@ =~= before + host_comment(ps[i as int]));
        i = i + 1;
        assert(p@ =~= start + concat_map(ps.take(i as int), f));
    }
    assert(ps.take(hosts.len() as int) == ps);
}

fn opt_as_str(s: &Option<String>) -> (r: Option<&str>)
    ensures
        match r { Some(x) => Some(x@), None => None } == opt_view(*s),
{
    match s {
        Some(x) => Some(x.as_str()),
        None => None,
    }
}

fn concat_str(a: &str, b: &str) -> (r: String)
    ensures
        r@ == a@ + b@,
{
    let mut r = owned(a);
    push_all(&mut r, b);
    r
}

/// Builds the `sandbox-exec` profile for a server with these permissions.
/// `home` is the user's home directory and `tmpdir` the value of `$TMPDIR`,
/// when known. Permissions that are not granted are ignored.
pub fn build_macos_profile(permissions: &Vec<PersistedPermission>, home: Option<&str>, tmpdir: Option<&str>) -> (p: String)
    ensures
        p@ == profile_spec(
            permissions@,
            match home { Some(h) => Some(h@), None => None },
            match tmpdir { Some(t) => Some(t@), None => None },
        ),
{
    let ghost gh: Option<Seq<char>> = match home { Some(h) => Some(h@), None => None };
    let ghost gt: Option<Seq<char>> = match tmpdir { Some(t) => Some(t@), None => None };
    let ghost perms = permissions@;

    // Gather granted scopes.
    let mut allow_network = false;
    let mut hosts: Vec<String> = Vec::new();
    let mut fs_paths: Vec<String> = Vec::new();
    let mut i: usize = 0;
    while i < permissions.len()
        invariant
            i <= permissions.len(),
            perms == permissions@,
            gh == match home { Some(h) => Some(h@), None => None },
            string_views(fs_paths@) == fs_write_paths(perms.take(i as int), gh),
            string_views(hosts@) == net_hosts(perms.take(i as int)),
            allow_network == net_granted(perms.take(i as int)),
        decreases permissions.len() - i,
    {
        let perm = &permissions[i];
        let ghost pre = perms.take(i as int);
        assert(perms.take(i + 1).drop_last() == pre);
        assert(perms.take(i + 1).last() == *perm);
        proof {
            reveal_strlit("fs.write");
            reveal_strlit("internet");
            reveal_strlit("net.outbound");
            assert("fs.write"@[0] != "internet"@[0]);
            assert("fs.write"@.len() != "net.outbound"@.len());
            assert(!is_net_scope("fs.write"@));
        }
        if perm.granted {
            if str_eq(perm.scope.as_str(), "fs.write") {
                match expand_target(opt_as_str(&perm.target), home) {
                    Some(t) => {
                        fs_paths.push(t);
                    },
                    None => {},
                }
            } else if str_eq(perm.scope.as_str(), "internet") || str_eq(perm.scope.as_str(), "net.outbound") {
                allow_network = true;
                match &perm.target {
                    Some(h) => {
                        if chars_of(h.as_str()).len() > 0 && !str_eq(h.as_str(), "*") {
                            hosts.push(h.clone());
                        }
                    },
                    None => {},
                }
            }
        }
        proof {
            let post = perms.take(i + 1);
            assert(string_views(fs_paths@) =~= fs_write_paths(post, gh));
            assert(string_views(hosts@) =~= net_hosts(post));
            if allow_network {
                if net_granted(pre) {
                    let k = choose|k: int| 0 <= k < pre.len() && #[trigger] pre[k].granted && is_net_scope(pre[k].scope@);
                    assert(post[k] == pre[k]);
                } else {
                    assert(post[i as int].granted && is_net_scope(post[i as int].scope@));
                }
            } else {
                assert forall|k: int| 0 <= k < post.len() && #[trigger] post[k].granted implies !is_net_scope(post[k].scope@) by {
                    if k < i {
                        assert(post[k] == pre[k]);
                        assert(pre[k].granted);
                    }
                }
            }
        }
        i = i + 1;
    }
    assert(perms.take(permissions.len() as int) == perms);

    let mut p = String::new();
    push_all(&mut p, "(version 1)\n");
    push_all(&mut p, ";; Generated by MCP Hub. Permissive baseline + explicit denies.\n");
    push_all(&mut p, ";; Reorder/strip rules at your own risk \u{2014} they encode the\n");
    push_all(&mut p, ";; trust contract from the install dialog.\n\n");
    push_all(&mut p, "(allow default)\n\n");
    push_all(&mut p, ";; File-write policy: deny everywhere, then re-allow the\n");
    push_all(&mut p, ";; paths the user granted plus the runtime scratch areas.\n");
    push_all(&mut p, "(deny file-write*)\n");
    assert(p@ =~= profile_header());

    let mut scratch: Vec<String> = Vec::new();
    scratch.push(owned("/private/tmp"));
    scratch.push(owned("/tmp"));
    scratch.push(owned("/private/var/folders"));
    match tmpdir {
        Some(t) => {
            scratch.push(trim_end_slashes_exec(t));
        },
        None => {},
    }
    match home {
        Some(h) => {
            scratch.push(concat_str(h, "/.npm"));
            scratch.push(concat_str(h, "/.cache"));
            scratch.push(concat_str(h, "/.nvm"));
            scratch.push(concat_str(h, "/.volta"));
            scratch.push(concat_str(h, "/.bun"));
            scratch.push(concat_str(h, "/.config"));
        },
        None => {},
    }
    assert(string_views(scratch@) =~= scratch_paths(gh, gt));
    write_rules(&mut p, &scratch);
    write_granted_blocks(&mut p, &fs_paths);
    let ghost before_net = p@;
    push_all(&mut p, "\n;; Network policy.\n");
    if allow_network {
        write_host_comments(&mut p, &hosts);
        push_all(&mut p, "(allow network*)\n");
    } else {
        push_all(&mut p, "(deny network*)\n");
    }
    assert(p@ =~= before_net + network_section(perms));
    p
}

/// The profile for a server with these permissions under the current
/// user's home directory; `tmpdir` is `$TMPDIR` as the caller read it.
/// Whatever the home directory turns out to be, the profile is the one
/// [`build_macos_profile`] builds with it.
pub fn macos_profile(permissions: &Vec<PersistedPermission>, tmpdir: Option<&str>) -> (p: String)
    ensures
        exists|h: Option<Seq<char>>|
            #[trigger] profile_spec(permissions@, h, crate::text::opt_view_str(tmpdir)) == p@,
{
    let home = crate::ids::home_dir();
    match home {
        Some(h) => {
            let p = build_macos_profile(permissions, Some(h.as_str()), tmpdir);
            assert(profile_spec(permissions@, Some(h@), crate::text::opt_view_str(tmpdir)) == p@);
            p
        },
        None => {
            let p = build_macos_profile(permissions, None, tmpdir);
            assert(profile_spec(permissions@, None, crate::text::opt_view_str(tmpdir)) == p@);
            p
        },
    }
}

proof fn lemma_fs_paths_skip_revoked(perms: Seq<PersistedPermission>, i: int, home: Option<Seq<char>>)
    requires
        0 <= i < perms.len(),
        !perms[i].granted,
    ensures
        fs_write_paths(perms, home) == fs_write_paths(perms.remove(i), home),
    decreases perms.len(),
{
    if i == perms.len() - 1 {
        assert(perms.remove(i) == perms.drop_last());
    } else {
        assert(perms.remove(i).drop_last() == perms.drop_last().remove(i));
        assert(perms.remove(i).last() == perms.last());
        lemma_fs_paths_skip_revoked(perms.drop_last(), i, home);
    }
}

proof fn lemma_net_hosts_skip_revoked(perms: Seq<PersistedPermission>, i: int)
    requires
        0 <= i < perms.len(),
        !perms[i].granted,
    ensures
        net_hosts(perms) == net_hosts(perms.remove(i)),
    decreases perms.len(),
{
    if i == perms.len() - 1 {
        assert(perms.remove(i) == perms.drop_last());
    } else {
        assert(perms.remove(i).drop_last() == perms.drop_last().remove(i));
        assert(perms.remove(i).last() == perms.last());
        lemma_net_hosts_skip_revoked(perms.drop_last(), i);
    }
}

/// A permission that is not granted has no effect on the profile: the
/// profile with it is the profile without it.
pub proof fn lemma_revoked_permission_ignored(
    perms: Seq<PersistedPermission>,
    i: int,
    home: Option<Seq<char>>,
    tmpdir: Option<Seq<char>>,
)
    requires
        0 <= i < perms.len(),
        !perms[i].granted,
    ensures
        profile_spec(perms, home, tmpdir) == profile_spec(perms.remove(i), home, tmpdir),
{
    lemma_fs_paths_skip_revoked(perms, i, home);
    lemma_net_hosts_skip_revoked(perms, i);
    let r = perms.remove(i);
    if net_granted(perms) {
        let j = choose|j: int| 0 <= j < perms.len() && #[trigger] perms[j].granted && is_net_scope(perms[j].scope@);
        let k = if j < i { j } else { j - 1 };
        assert(r[k] == perms[j]);
        assert(net_granted(r));
    }
    if net_granted(r) {
        let k = choose|k: int| 0 <= k < r.len() && #[trigger] r[k].granted && is_net_scope(r[k].scope@);
        let j = if k < i { k } else { k + 1 };
        assert(r[k] == perms[j]);
        assert(net_granted(perms));
    }
}

// ---------------------------------------------------------------------------
// Launch commands
// ---------------------------------------------------------------------------

/// The name of a server's profile file: `<id>.sb`.
pub fn profile_file_name(server_id: &str) -> (r: String)
    ensures
        r@ == server_id@ + ".sb"@,
{
    concat_str(server_id, ".sb")
}

/// The server's command wrapped in `sandbox-exec -f <profile>`.
fn macos_command(server: &McpServer, profile_path: &str) -> (c: SandboxedCommand)
    ensures
        c.program@ == "sandbox-exec"@,
        string_views(c.args@) == seq!["-f"@, profile_path@, server.command@] + string_views(server.args@),
        c.enforcement@ == "macos-sandbox-exec"@,
{
    let mut args: Vec<String> = Vec::new();
    args.push(owned("-f"));
    args.push(owned(profile_path));
    args.push(server.command.clone());
    let mut i: usize = 0;
    while i < server.args.len()
        invariant
            i <= server.args.len(),
            string_views(args@) == seq!["-f"@, profile_path@, server.command@] + string_views(server.args@.take(i as int)),
        decreases server.args.len() - i,
    {
        let a = server.args[i].clone();
        let ghost prev = args@;
        args.push(a);
        assert(string_views(args@) =~= string_views(prev).push(server.args@[i as int]@));
        assert(string_views(server.args@.take(i + 1)) =~= string_views(server.args@.take(i as int)).push(server.args@[i as int]@));
        i = i + 1;
        assert(string_views(args@) =~= seq!["-f"@, profile_path@, server.command@] + string_views(server.args@.take(i as int)));
    }
    assert(server.args@.take(server.args.len() as int) == server.args@);
    SandboxedCommand { program: owned("sandbox-exec"), args, enforcement: "macos-sandbox-exec" }
}

/// What a sandbox prepares for a launch: the profile to write first, if
/// the sandbox uses one, and the command to run.
pub struct SandboxLaunch {
    pub profile: Option<String>,
    pub command: SandboxedCommand,
}

/// A way of launching a server's command under some isolation.
pub trait Sandbox {
    /// `r` is what this sandbox prepares for `server` with these
    /// permissions, `tmpdir` (`$TMPDIR` as the caller read it) and the path
    /// the profile is to be written to.
    spec fn prepared(
        &self,
        server: McpServer,
        permissions: Seq<PersistedPermission>,
        tmpdir: Option<Seq<char>>,
        profile_path: Seq<char>,
        r: SandboxLaunch,
    ) -> bool;

    /// Prepares the launch of `server`; the caller writes the profile (when
    /// there is one) to `profile_path` before running the command.
    fn prepare(
        &self,
        server: &McpServer,
        permissions: &Vec<PersistedPermission>,
        tmpdir: Option<&str>,
        profile_path: &str,
    ) -> (r: SandboxLaunch)
        ensures
            self.prepared(*server, permissions@, crate::text::opt_view_str(tmpdir), profile_path@, r),
    ;
}

/// The launcher for platforms without enforcement yet: the server's own
/// command runs as it is, with no profile.
pub struct NoopSandbox;

impl Sandbox for NoopSandbox {
    open spec fn prepared(
        &self,
        server: McpServer,
        permissions: Seq<PersistedPermission>,
        tmpdir: Option<Seq<char>>,
        profile_path: Seq<char>,
        r: SandboxLaunch,
    ) -> bool {
        &&& r.profile is None
        &&& r.command.program == server.command
        &&& string_views(r.command.args@) == string_views(server.args@)
        &&& r.command.enforcement@ == "noop"@
    }

    fn prepare(
        &self,
        server: &McpServer,
        _permissions: &Vec<PersistedPermission>,
        _tmpdir: Option<&str>,
        _profile_path: &str,
    ) -> (r: SandboxLaunch) {
        let args = clone_strings(&server.args);
        assert(string_views(args@) =~= string_views(server.args@));
        SandboxLaunch {
            profile: None,
            command: SandboxedCommand { program: server.command.clone(), args, enforcement: "noop" },
        }
    }
}

/// The macOS launcher: the server runs under `sandbox-exec` with a profile
/// built from its permissions.
pub struct MacosSandbox;

impl Sandbox for MacosSandbox {
    /// The profile for the permissions under the current user's home
    /// directory, whatever that is, and the command
    /// `sandbox-exec -f <profile_path> <command> <args..>`.
    open spec fn prepared(
        &self,
        server: McpServer,
        permissions: Seq<PersistedPermission>,
        tmpdir: Option<Seq<char>>,
        profile_path: Seq<char>,
        r: SandboxLaunch,
    ) -> bool {
        &&& r.profile matches Some(p) && exists|h: Option<Seq<char>>| #[trigger] profile_spec(permissions, h, tmpdir) == p@
        &&& r.command.program@ == "sandbox-exec"@
        &&& string_views(r.command.args@) == seq!["-f"@, profile_path, server.command@] + string_views(server.args@)
        &&& r.command.enforcement@ == "macos-sandbox-exec"@
    }

    fn prepare(
        &self,
        server: &McpServer,
        permissions: &Vec<PersistedPermission>,
        tmpdir: Option<&str>,
        profile_path: &str,
    ) -> (r: SandboxLaunch) {
        let profile = macos_profile(permissions, tmpdir);
        let command = macos_command(server, profile_path);
        SandboxLaunch { profile: Some(profile), command }
    }
}

} // verus!
