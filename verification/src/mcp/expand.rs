//! Shell-style expansion of server arguments and environment values.
//!
//! Server commands are started without a shell, so `~`, `$VAR` and `${VAR}`
//! are resolved here: a small, well-defined subset of shell expansion and
//! nothing more. Unknown variables expand to nothing; a `${` without its `}`
//! is left as it is; a `$` not followed by a name stays a `$`.

use vstd::prelude::*;

use crate::db::models::{distinct_env_names, McpServer};
use crate::ids::home_dir;
use crate::text::{chars_of, is_ascii_alnum, is_ascii_alpha, is_ascii_alphabetic, is_ascii_alphanumeric, starts_with, string_of};

verus! {

/// The value of `name` among `vars` (the first entry with that name), or
/// nothing.
pub open spec fn lookup(vars: Seq<(Seq<char>, Seq<char>)>, name: Seq<char>) -> Seq<char>
    decreases vars.len(),
{
    if vars.len() == 0 {
        Seq::empty()
    } else if vars[0].0 == name {
        vars[0].1
    } else {
        lookup(vars.drop_first(), name)
    }
}

pub open spec fn var_views(vars: Seq<(String, String)>) -> Seq<(Seq<char>, Seq<char>)> {
    vars.map_values(|e: (String, String)| (e.0@, e.1@))
}

pub open spec fn is_name_char(c: char) -> bool {
    is_ascii_alnum(c) || c == '_'
}

/// How many characters at the start of `s` can continue a variable name.
pub open spec fn name_len(s: Seq<char>) -> nat
    decreases s.len(),
{
    if s.len() > 0 && is_name_char(s[0]) {
        1 + name_len(s.drop_first())
    } else {
        0
    }
}

/// Where the first `}` of `s` is, if there is one.
pub open spec fn close_brace(s: Seq<char>) -> Option<int>
    decreases s.len(),
{
    if s.len() == 0 {
        None
    } else if s[0] == '}' {
        Some(0)
    } else {
        match close_brace(s.drop_first()) {
            Some(j) => Some(j + 1),
            None => None,
        }
    }
}

/// `$VAR` and `${VAR}` in `s` replaced by their values.
pub open spec fn expand_vars(s: Seq<char>, vars: Seq<(Seq<char>, Seq<char>)>) -> Seq<char>
    decreases s.len(),
{
    if s.len() == 0 {
        Seq::empty()
    } else if s[0] != '$' {
        seq![s[0]] + expand_vars(s.drop_first(), vars)
    } else if s.len() >= 2 && s[1] == '{' {
        let rest = s.skip(2);
        match close_brace(rest) {
            Some(j) => if 0 <= j < rest.len() {
                lookup(vars, rest.take(j)) + expand_vars(rest.skip(j + 1), vars)
            } else {
                Seq::empty()
            },
            None => "${"@ + rest,
        }
    } else if s.len() >= 2 && (is_ascii_alpha(s[1]) || s[1] == '_') {
        let n = name_len(s.drop_first()) as int;
        if 1 <= n <= s.len() - 1 {
            lookup(vars, s.subrange(1, 1 + n)) + expand_vars(s.skip(1 + n), vars)
        } else {
            Seq::empty()
        }
    } else {
        seq!['$'] + expand_vars(s.drop_first(), vars)
    }
}

/// `input` expanded: `~` alone is the home directory, `~/x` is `<home>/x`
/// (when the home directory is known), then variables are expanded.
pub open spec fn expand_env_spec(input: Seq<char>, home: Option<Seq<char>>, vars: Seq<(Seq<char>, Seq<char>)>) -> Seq<char> {
    match home {
        Some(h) => if input == "~"@ {
            h
        } else if starts_with(input, "~/"@) {
            expand_vars(h + "/"@ + input.skip(2), vars)
        } else {
            expand_vars(input, vars)
        },
        None => expand_vars(input, vars),
    }
}

proof fn lemma_name_len_bound(s: Seq<char>)
    ensures
        name_len(s) <= s.len(),
        forall|k: int| 0 <= k < name_len(s) ==> is_name_char(#[trigger] s[k]),
        name_len(s) < s.len() ==> !is_name_char(s[name_len(s) as int]),
    decreases s.len(),
{
    if s.len() > 0 && is_name_char(s[0]) {
        lemma_name_len_bound(s.drop_first());
        assert forall|k: int| 0 <= k < name_len(s) implies is_name_char(#[trigger] s[k]) by {
            if k > 0 {
                assert(s[k] == s.drop_first()[k - 1]);
            }
        }
    }
}

proof fn lemma_name_len_at(s: Seq<char>, n: int)
    requires
        0 <= n <= s.len(),
        forall|k: int| 0 <= k < n ==> is_name_char(#[trigger] s[k]),
        n == s.len() || !is_name_char(s[n]),
    ensures
        name_len(s) == n,
    decreases n,
{
    if n > 0 {
        assert forall|k: int| 0 <= k < n - 1 implies is_name_char(#[trigger] s.drop_first()[k]) by {
            assert(s.drop_first()[k] == s[k + 1]);
        }
        lemma_name_len_at(s.drop_first(), n - 1);
    }
}

proof fn lemma_close_brace_at(s: Seq<char>, j: int)
    requires
        0 <= j <= s.len(),
        forall|k: int| 0 <= k < j ==> #[trigger] s[k] != '}',
    ensures
        j < s.len() && s[j] == '}' ==> close_brace(s) == Some(j),
        j == s.len() ==> close_brace(s) is None,
    decreases j,
{
    if j > 0 {
        assert forall|k: int| 0 <= k < j - 1 implies #[trigger] s.drop_first()[k] != '}' by {
            assert(s.drop_first()[k] == s[k + 1]);
        }
        lemma_close_brace_at(s.drop_first(), j - 1);
        if j < s.len() {
            assert(s.drop_first()[j - 1] == s[j]);
        }
    }
}

fn lookup_var(vars: &Vec<(String, String)>, name: &Vec<char>) -> (v: Vec<char>)
    ensures
        v@ == lookup(var_views(vars@), name@),
{
    let mut i: usize = 0;
    assert(var_views(vars@).skip(0) == var_views(vars@));
    while i < vars.len()
        invariant
            i <= vars.len(),
            lookup(var_views(vars@), name@) == lookup(var_views(vars@).skip(i as int), name@),
        decreases vars.len() - i,
    {
        let k = chars_of(vars[i].0.as_str());
        let ghost rest = var_views(vars@).skip(i as int);
        assert(rest[0] == (vars@[i as int].0@, vars@[i as int].1@));
        assert(rest.drop_first() == var_views(vars@).skip(i + 1));
        if crate::text::chars_eq(&k, name) {
            return chars_of(vars[i].1.as_str());
        }
        i = i + 1;
    }
    Vec::new()
}

fn append(out: &mut Vec<char>, v: &Vec<char>)
    ensures
        final(out)@ == old(out)@ + v@,
{
    let mut i: usize = 0;
    while i < v.len()
        invariant
            i <= v.len(),
            out@ == old(out)@ + v@.take(i as int),
        decreases v.len() - i,
    {
        out.push(v[i]);
        i = i + 1;
        assert(out@ =~= old(out)@ + v@.take(i as int));
    }
    assert(v@.take(v.len() as int) == v@);
}

/// Expands `$VAR` and `${VAR}` in `s` against `vars`.
fn expand_vars_chars(s: &Vec<char>, vars: &Vec<(String, String)>) -> (out: Vec<char>)
    ensures
        out@ == expand_vars(s@, var_views(vars@)),
{
    let ghost vv = var_views(vars@);
    let n = s.len();
    let mut out: Vec<char> = Vec::new();
    let mut i: usize = 0;
    assert(s@.skip(0) == s@);
    assert(out@ + expand_vars(s@, vv) == expand_vars(s@, vv));
    while i < n
        invariant
            i <= n,
            n == s@.len(),
            vv == var_views(vars@),
            expand_vars(s@, vv) == out@ + expand_vars(s@.skip(i as int), vv),
        decreases n - i,
    {
        let ghost t = s@.skip(i as int);
        let c = s[i];
        assert(t[0] == c);
        if c != '$' {
            out.push(c);
            assert(t.drop_first() == s@.skip(i + 1));
            i = i + 1;
        } else if i + 1 < n && s[i + 1] == '{' {
            assert(t[1] == s@[i + 1]);
            let ghost rest = t.skip(2);
            assert(rest == s@.skip(i + 2));
            let mut j: usize = i + 2;
            while j < n && s[j] != '}'
                invariant
                    i + 2 <= j <= n,
                    n == s@.len(),
                    rest == s@.skip(i + 2),
                    forall|k: int| 0 <= k < j - (i + 2) ==> #[trigger] rest[k] != '}',
                decreases n - j,
            {
                assert(rest[j - (i + 2)] == s@[j as int]);
                j = j + 1;
            }
            proof {
                if j < n {
                    assert(rest[j - (i + 2)] == s@[j as int]);
                }
                lemma_close_brace_at(rest, j - (i + 2));
            }
            if j < n {
                let name = crate::text::slice_chars(s, i + 2, j);
                assert(name@ == rest.take(j - (i + 2)));
                let v = lookup_var(vars, &name);
                append(&mut out, &v);
                assert(rest.skip(j - (i + 2) + 1) == s@.skip(j + 1));
                i = j + 1;
            } else {
                let ghost before = out@;
                out.push('$');
                out.push('{');
                let tail = crate::text::slice_chars(s, i + 2, n);
                append(&mut out, &tail);
                proof {
                    reveal_strlit("${");
                    assert("${"@ == seq!['$', '{']);
                    assert(tail@ == rest);
                    assert(expand_vars(t, vv) == "${"@ + rest);
                    assert(out@ =~= before + ("${"@ + rest));
                    assert(s@.skip(n as int).len() == 0);
                    assert(expand_vars(s@.skip(n as int), vv) == Seq::<char>::empty());
                    assert(out@ + Seq::<char>::empty() == out@);
                }
                i = n;
            }
        } else if i + 1 < n && (is_ascii_alphabetic(s[i + 1]) || s[i + 1] == '_') {
            assert(t[1] == s@[i + 1]);
            let ghost d = t.drop_first();
            assert(d == s@.skip(i + 1));
            let mut j: usize = i + 1;
            while j < n && (is_ascii_alphanumeric(s[j]) || s[j] == '_')
                invariant
                    i + 1 <= j <= n,
                    n == s@.len(),
                    d == s@.skip(i + 1),
                    forall|k: int| 0 <= k < j - (i + 1) ==> is_name_char(#[trigger] d[k]),
                decreases n - j,
            {
                assert(d[j - (i + 1)] == s@[j as int]);
                j = j + 1;
            }
            proof {
                if j < n {
                    assert(d[j - (i + 1)] == s@[j as int]);
                }
                lemma_name_len_at(d, j - (i + 1));
            }
            let name = crate::text::slice_chars(s, i + 1, j);
            assert(name@ == t.subrange(1, 1 + (j - (i + 1))));
            let v = lookup_var(vars, &name);
            append(&mut out, &v);
            assert(t.skip(1 + (j - (i + 1))) == s@.skip(j as int));
            i = j;
        } else {
            proof {
                if i + 1 < n {
                    assert(t[1] == s@[i + 1]);
                }
            }
            out.push('$');
            assert(t.drop_first() == s@.skip(i + 1));
            i = i + 1;
        }
    }
    assert(s@.skip(n as int).len() == 0);
    assert(out@ + Seq::<char>::empty() == out@);
    out
}


proof fn lemma_no_dollar_unchanged(s: Seq<char>, vars: Seq<(Seq<char>, Seq<char>)>)
    requires
        forall|i: int| 0 <= i < s.len() ==> #[trigger] s[i] != '$',
    ensures
        expand_vars(s, vars) == s,
    decreases s.len(),
{
    if s.len() > 0 {
        assert forall|i: int| 0 <= i < s.drop_first().len() implies #[trigger] s.drop_first()[i] != '$' by {
            assert(s.drop_first()[i] == s[i + 1]);
        }
        lemma_no_dollar_unchanged(s.drop_first(), vars);
        assert(s == seq![s[0]] + s.drop_first());
    }
}

/// A `$NAME` reference runs over every ASCII letter, digit and underscore
/// that follows the `$` (the first being a letter or `_`): `$` then such a
/// name, then text that does not go on with one of those characters,
/// expands to the value of the first entry of `vars` with that name, then
/// the rest expanded.
pub proof fn lemma_dollar_name(
    name: Seq<char>,
    rest: Seq<char>,
    vars: Seq<(Seq<char>, Seq<char>)>,
    i: int,
)
    requires
        name.len() >= 1,
        ('a' <= name[0] <= 'z') || ('A' <= name[0] <= 'Z') || name[0] == '_',
        forall|k: int|
            0 <= k < name.len() ==> ('a' <= #[trigger] name[k] <= 'z') || ('A' <= name[k] <= 'Z') || ('0'
                <= name[k] <= '9') || name[k] == '_',
        rest.len() == 0 || !(('a' <= rest[0] <= 'z') || ('A' <= rest[0] <= 'Z') || ('0' <= rest[0] <= '9')
            || rest[0] == '_'),
        0 <= i < vars.len(),
        vars[i].0 == name,
        forall|j: int| 0 <= j < i ==> #[trigger] vars[j].0 != name,
    ensures
        expand_vars(seq!['$'] + name + rest, vars) == vars[i].1 + expand_vars(rest, vars),
{
    let s = seq!['$'] + name + rest;
    let t = s.drop_first();
    assert(t =~= name + rest);
    assert forall|k: int| 0 <= k < name.len() implies is_name_char(#[trigger] t[k]) by {
        assert(t[k] == name[k]);
    }
    if rest.len() > 0 {
        assert(t[name.len() as int] == rest[0]);
    }
    lemma_name_len_at(t, name.len() as int);
    assert(s[1] == name[0]);
    assert(s.subrange(1, 1 + name.len() as int) =~= name);
    assert(s.skip(1 + name.len() as int) =~= rest);
    lemma_lookup_first(vars, name, i);
}

/// `${NAME}` expands to the value of the first entry of `vars` named by
/// the text between the braces (nothing when none is), then the rest; a
/// `${` with no `}` after it stays as it is; a `$` that is followed neither
/// by `{` nor by a letter or `_` stays a `$`.
pub proof fn lemma_dollar_forms(name: Seq<char>, rest: Seq<char>, vars: Seq<(Seq<char>, Seq<char>)>)
    ensures
        (forall|k: int| 0 <= k < name.len() ==> #[trigger] name[k] != '}') ==> expand_vars(
            seq!['$', '{'] + name + seq!['}'] + rest,
            vars,
        ) == lookup(vars, name) + expand_vars(rest, vars),
        (forall|k: int| 0 <= k < name.len() ==> #[trigger] name[k] != '}') ==> expand_vars(
            seq!['$', '{'] + name,
            vars,
        ) == seq!['$', '{'] + name,
        (rest.len() == 0 || !(rest[0] == '{' || ('a' <= rest[0] <= 'z') || ('A' <= rest[0] <= 'Z') || rest[0]
            == '_')) ==> expand_vars(seq!['$'] + rest, vars) == seq!['$'] + expand_vars(rest, vars),
        (forall|j: int| 0 <= j < vars.len() ==> #[trigger] vars[j].0 != name) ==> lookup(vars, name) == Seq::<
            char,
        >::empty(),
{
    reveal_strlit("${");
    if forall|k: int| 0 <= k < name.len() ==> #[trigger] name[k] != '}' {
        let s = seq!['$', '{'] + name + seq!['}'] + rest;
        let r = s.skip(2);
        assert(r =~= name + seq!['}'] + rest);
        assert forall|k: int| 0 <= k < name.len() implies #[trigger] r[k] != '}' by {
            assert(r[k] == name[k]);
        }
        assert(r[name.len() as int] == '}');
        lemma_close_brace_at(r, name.len() as int);
        assert(r.take(name.len() as int) =~= name);
        assert(r.skip(name.len() + 1int) =~= rest);
        let u = seq!['$', '{'] + name;
        let ru = u.skip(2);
        assert(ru =~= name);
        assert forall|k: int| 0 <= k < ru.len() implies #[trigger] ru[k] != '}' by {
            assert(ru[k] == name[k]);
        }
        lemma_close_brace_at(ru, ru.len() as int);
        assert("${"@ =~= seq!['$', '{']);
        assert("${"@ + ru =~= u);
    }
    let t = seq!['$'] + rest;
    assert(t.drop_first() =~= rest);
    if rest.len() > 0 {
        assert(t[1] == rest[0]);
    }
    lemma_lookup_absent(vars, name);
}

proof fn lemma_lookup_absent(vars: Seq<(Seq<char>, Seq<char>)>, name: Seq<char>)
    ensures
        (forall|j: int| 0 <= j < vars.len() ==> #[trigger] vars[j].0 != name) ==> lookup(vars, name) == Seq::<
            char,
        >::empty(),
    decreases vars.len(),
{
    if vars.len() > 0 {
        let d = vars.drop_first();
        if forall|j: int| 0 <= j < vars.len() ==> #[trigger] vars[j].0 != name {
            assert(vars[0].0 != name);
            assert forall|j: int| 0 <= j < d.len() implies #[trigger] d[j].0 != name by {
                assert(d[j] == vars[j + 1]);
            }
        }
        lemma_lookup_absent(d, name);
    }
}

proof fn lemma_lookup_first(vars: Seq<(Seq<char>, Seq<char>)>, name: Seq<char>, i: int)
    requires
        0 <= i < vars.len(),
        vars[i].0 == name,
        forall|j: int| 0 <= j < i ==> #[trigger] vars[j].0 != name,
    ensures
        lookup(vars, name) == vars[i].1,
    decreases i,
{
    if i > 0 {
        let d = vars.drop_first();
        assert(vars[0].0 != name);
        assert forall|j: int| 0 <= j < i - 1 implies #[trigger] d[j].0 != name by {
            assert(d[j] == vars[j + 1]);
        }
        lemma_lookup_first(d, name, i - 1);
    }
}

/// Text without `$` that does not start with `~` expands to itself,
/// whatever the home directory and the environment.
pub proof fn lemma_plain_text_unchanged(s: Seq<char>, home: Option<Seq<char>>, vars: Seq<(Seq<char>, Seq<char>)>)
    requires
        forall|i: int| 0 <= i < s.len() ==> #[trigger] s[i] != '$',
        s.len() == 0 || s[0] != '~',
    ensures
        expand_env_spec(s, home, vars) == s,
{
    reveal_strlit("~");
    reveal_strlit("~/");
    lemma_no_dollar_unchanged(s, vars);
    if s == "~"@ {
        assert(s[0] == '~');
    }
    if starts_with(s, "~/"@) {
        assert(s[0] == "~/"@[0]);
    }
}

/// Expands `input` with `home` as the home directory and `vars` as the
/// environment: `~` alone is the home directory, a leading `~/` is the home
/// directory and a `/`, then `$VAR` and `${VAR}` are replaced by their
/// values (nothing for a variable not in `vars`).
pub fn expand_env_with(input: &str, home: Option<&str>, vars: &Vec<(String, String)>) -> (r: String)
    ensures
        r@ == expand_env_spec(input@, match home { Some(h) => Some(h@), None => None }, var_views(vars@)),
{
    match home {
        Some(h) => {
            if crate::text::str_eq(input, "~") {
                return crate::text::owned(h);
            }
            if crate::text::str_starts_with(input, "~/") {
                proof {
                    reveal_strlit("~/");
                    reveal_strlit("/");
                }
                let cs = chars_of(input);
                let mut t = chars_of(h);
                t.push('/');
                let rest = crate::text::slice_chars(&cs, 2, cs.len());
                append(&mut t, &rest);
                assert(t@ =~= h@ + "/"@ + input@.skip(2));
                let out = expand_vars_chars(&t, vars);
                return string_of(&out);
            }
        },
        None => {},
    }
    let out = expand_vars_chars(&chars_of(input), vars);
    string_of(&out)
}

/// Expands `input` against the current user's home directory and `vars`
/// (the process environment, as the caller read it). The home directory
/// comes from the system; whatever it is, the result is `input` expanded
/// with it.
pub fn expand_env(input: &str, vars: &Vec<(String, String)>) -> (r: String)
    ensures
        exists|h: Option<Seq<char>>| #[trigger] expand_env_spec(input@, h, var_views(vars@)) == r@,
{
    let home = home_dir();
    match home {
        Some(h) => {
            let r = expand_env_with(input, Some(h.as_str()), vars);
            assert(expand_env_spec(input@, Some(h@), var_views(vars@)) == r@);
            r
        },
        None => {
            let r = expand_env_with(input, None, vars);
            assert(expand_env_spec(input@, None, var_views(vars@)) == r@);
            r
        },
    }
}


pub open spec fn string_views(v: Seq<String>) -> Seq<Seq<char>> {
    v.map_values(|s: String| s@)
}

/// `args` and `env` are the server's arguments and environment values
/// expanded with `home` and `vars`; environment names are kept.
pub open spec fn launch_resolved(
    server: McpServer,
    args: Seq<String>,
    env: Seq<(String, String)>,
    home: Option<Seq<char>>,
    vars: Seq<(Seq<char>, Seq<char>)>,
) -> bool {
    &&& args.len() == server.args@.len()
    &&& forall|i: int| 0 <= i < args.len() ==> #[trigger] args[i]@ == expand_env_spec(server.args@[i]@, home, vars)
    &&& env.len() == server.env@.len()
    &&& forall|i: int| 0 <= i < env.len() ==> (#[trigger] env[i]).0@ == server.env@[i].0@
        && env[i].1@ == expand_env_spec(server.env@[i].1@, home, vars)
}

/// The server's arguments and environment as they are launched: `~`,
/// `$VAR` and `${VAR}` expanded against the current user's home directory
/// and `vars` (the process environment, as the caller read it). Whatever
/// the home directory is, both are expanded with that one directory.
pub fn resolve_for_launch(server: &McpServer, vars: &Vec<(String, String)>) -> (r: (Vec<String>, Vec<(String, String)>))
    ensures
        exists|h: Option<Seq<char>>| #[trigger] launch_resolved(*server, r.0@, r.1@, h, var_views(vars@)),
        distinct_env_names(server.env@) ==> distinct_env_names(r.1@),
{
    let home = home_dir();
    let h: Option<&str> = match &home {
        Some(x) => Some(x.as_str()),
        None => None,
    };
    let ghost gh: Option<Seq<char>> = match h { Some(x) => Some(x@), None => None };
    let mut args: Vec<String> = Vec::new();
    let mut i: usize = 0;
    while i < server.args.len()
        invariant
            i <= server.args.len(),
            args@.len() == i,
            gh == match h { Some(x) => Some(x@), None => None },
            forall|k: int| 0 <= k < i ==> #[trigger] args@[k]@ == expand_env_spec(server.args@[k]@, gh, var_views(vars@)),
        decreases server.args.len() - i,
    {
        let a = expand_env_with(server.args[i].as_str(), h, vars);
        args.push(a);
        i = i + 1;
    }
    let mut env: Vec<(String, String)> = Vec::new();
    let mut j: usize = 0;
    while j < server.env.len()
        invariant
            j <= server.env.len(),
            env@.len() == j,
            gh == match h { Some(x) => Some(x@), None => None },
            forall|k: int| 0 <= k < j ==> (#[trigger] env@[k]).0@ == server.env@[k].0@
                && env@[k].1@ == expand_env_spec(server.env@[k].1@, gh, var_views(vars@)),
        decreases server.env.len() - j,
    {
        let v = expand_env_with(server.env[j].1.as_str(), h, vars);
        env.push((server.env[j].0.clone(), v));
        j = j + 1;
    }
    assert(launch_resolved(*server, args@, env@, gh, var_views(vars@)));
    let r = (args, env);
    assert(launch_resolved(*server, r.0@, r.1@, gh, var_views(vars@)));
    r
}

} // verus!
