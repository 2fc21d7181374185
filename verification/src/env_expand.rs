//! Expansion of `${VAR}` references in the environment values of a server,
//! against the variables of the hub's own environment.
use vstd::prelude::*;
use crate::config::{env_map, env_pairs, EnvVars};
use crate::text::{chars_equal, chars_of, string_of};

verus! {

/// The position of the first `}` of `s` at or after `k`, or -1 when there
/// is none.
pub open spec fn close_brace_from(s: Seq<char>, k: int) -> int
    decreases s.len() - k,
{
    if k < 0 || k >= s.len() {
        -1
    } else if s[k] == '}' {
        k
    } else {
        close_brace_from(s, k + 1)
    }
}

/// The closing brace found from `k` on is the first `}` at or after `k`.
pub proof fn close_brace_bounds(s: Seq<char>, k: int)
    requires
        0 <= k,
    ensures
        close_brace_from(s, k) == -1 || (k <= close_brace_from(s, k) < s.len() && s[close_brace_from(s, k)] == '}'),
        close_brace_from(s, k) == -1 ==> forall|j: int| k <= j < s.len() ==> s[j] != '}',
        close_brace_from(s, k) >= 0 ==> forall|j: int| k <= j < close_brace_from(s, k) ==> s[j] != '}',
    decreases s.len() - k,
{
    if k < s.len() && s[k] != '}' {
        close_brace_bounds(s, k + 1);
    }
}

/// The value of variable `name` in `vars` (its last assignment), empty
/// when it is not set.
pub open spec fn var_value(vars: Seq<(Seq<char>, Seq<char>)>, name: Seq<char>) -> Seq<char> {
    if env_map(vars).contains_key(name) {
        env_map(vars)[name]
    } else {
        Seq::empty()
    }
}

/// `s` from position `i` on with each `${NAME}` replaced by the value of
/// `NAME` in `vars`; a `${` without a closing `}` stays as it is.
pub open spec fn expand_from(s: Seq<char>, vars: Seq<(Seq<char>, Seq<char>)>, i: int) -> Seq<char>
    decreases s.len() - i,
{
    if i < 0 || i >= s.len() {
        Seq::empty()
    } else if s[i] == '$' && i + 1 < s.len() && s[i + 1] == '{' && close_brace_from(s, i + 2) >= 0 {
        proof {
            close_brace_bounds(s, i + 2);
        }
        var_value(vars, s.subrange(i + 2, close_brace_from(s, i + 2))) + expand_from(
            s,
            vars,
            close_brace_from(s, i + 2) + 1,
        )
    } else {
        seq![s[i]] + expand_from(s, vars, i + 1)
    }
}

/// `s` with each `${NAME}` replaced by the value of `NAME` in `vars`.
pub open spec fn expand_vars(s: Seq<char>, vars: Seq<(Seq<char>, Seq<char>)>) -> Seq<char> {
    expand_from(s, vars, 0)
}

fn find_close_brace(cs: &Vec<char>, k: usize) -> (r: Option<usize>)
    requires
        k <= cs@.len(),
    ensures
        match r {
            Some(c) => c as int == close_brace_from(cs@, k as int),
            None => close_brace_from(cs@, k as int) == -1,
        },
{
    let mut j = k;
    while j < cs.len()
        invariant
            k <= j <= cs@.len(),
            close_brace_from(cs@, k as int) == close_brace_from(cs@, j as int),
        decreases cs@.len() - j,
    {
        if cs[j] == '}' {
            return Some(j);
        }
        j = j + 1;
    }
    None
}

fn lookup_var(vars: &EnvVars, name: &Vec<char>) -> (r: Vec<char>)
    ensures
        r@ == var_value(env_pairs(vars@), name@),
{
    let ghost pv = env_pairs(vars@);
    let mut i = vars.len();
    assert(pv.take(i as int) =~= pv);
    while i > 0
        invariant
            i <= vars@.len(),
            pv == env_pairs(vars@),
            var_value(pv, name@) == var_value(pv.take(i as int), name@),
        decreases i,
    {
        let ghost t = pv.take(i as int);
        assert(t.drop_last() == pv.take(i - 1));
        assert(t.last() == (vars@[i - 1].0@, vars@[i - 1].1@));
        let key = chars_of(vars[i - 1].0.as_str());
        if chars_equal(&key, name) {
            return chars_of(vars[i - 1].1.as_str());
        }
        i = i - 1;
    }
    assert(pv.take(0) =~= Seq::<(Seq<char>, Seq<char>)>::empty());
    assert(env_map(Seq::<(Seq<char>, Seq<char>)>::empty()) == Map::<Seq<char>, Seq<char>>::empty());
    Vec::new()
}

/// `s` with each `${NAME}` replaced by the value of `NAME` in `vars` (empty
/// when `NAME` is not set); a `${` without a closing `}` is kept.
pub fn expand_vars_in(s: &str, vars: &EnvVars) -> (r: String)
    ensures
        r@ == expand_vars(s@, env_pairs(vars@)),
{
    let cs = chars_of(s);
    let ghost pv = env_pairs(vars@);
    let mut out: Vec<char> = Vec::new();
    let mut i: usize = 0;
    while i < cs.len()
        invariant
            i <= cs@.len(),
            pv == env_pairs(vars@),
            expand_from(cs@, pv, 0) == out@ + expand_from(cs@, pv, i as int),
        decreases cs@.len() - i,
    {
        let mut close: Option<usize> = None;
        if cs[i] == '$' && i + 1 < cs.len() && cs[i + 1] == '{' {
            close = find_close_brace(&cs, i + 2);
        }
        match close {
            Some(c) => {
                proof {
                    close_brace_bounds(cs@, i + 2);
                }
                let mut name: Vec<char> = Vec::new();
                let mut j = i + 2;
                while j < c
                    invariant
                        i + 2 <= j <= c,
                        c < cs@.len(),
                        name@ == cs@.subrange(i + 2, j as int),
                    decreases c - j,
                {
                    name.push(cs[j]);
                    j = j + 1;
                }
                let mut value = lookup_var(vars, &name);
                let ghost before = out@;
                out.append(&mut value);
                assert(out@ + expand_from(cs@, pv, c + 1) =~= before + (var_value(pv, name@) + expand_from(
                    cs@,
                    pv,
                    c + 1,
                )));
                i = c + 1;
            },
            None => {
                let ghost before = out@;
                out.push(cs[i]);
                assert(out@ + expand_from(cs@, pv, i + 1) =~= before + (seq![cs@[i as int]] + expand_from(
                    cs@,
                    pv,
                    i + 1,
                )));
                i = i + 1;
            },
        }
    }
    assert(out@ + expand_from(cs@, pv, i as int) =~= out@);
    string_of(&out)
}

/// The environment `env` with the references in its values expanded
/// against `vars`.
pub fn expand_env_values(env: &EnvVars, vars: &EnvVars) -> (r: EnvVars)
    ensures
        r@.len() == env@.len(),
        forall|k: int|
            0 <= k < env@.len() ==> (#[trigger] r@[k]).0@ == env@[k].0@ && r@[k].1@ == expand_vars(
                env@[k].1@,
                env_pairs(vars@),
            ),
{
    let mut r: EnvVars = Vec::new();
    for i in 0..env.len()
        invariant
            r@.len() == i,
            forall|k: int|
                0 <= k < i ==> (#[trigger] r@[k]).0@ == env@[k].0@ && r@[k].1@ == expand_vars(
                    env@[k].1@,
                    env_pairs(vars@),
                ),
    {
        let value = expand_vars_in(env[i].1.as_str(), vars);
        r.push((env[i].0.clone(), value));
    }
    r
}

/// Text without `$` is left as it is.
pub proof fn text_without_references_is_kept(s: Seq<char>, vars: Seq<(Seq<char>, Seq<char>)>)
    requires
        !s.contains('$'),
    ensures
        expand_vars(s, vars) == s,
{
    kept_from(s, vars, 0);
    assert(s.skip(0) == s);
}

proof fn kept_from(s: Seq<char>, vars: Seq<(Seq<char>, Seq<char>)>, i: int)
    requires
        !s.contains('$'),
        0 <= i <= s.len(),
    ensures
        expand_from(s, vars, i) == s.skip(i),
    decreases s.len() - i,
{
    if i < s.len() {
        assert(s[i] != '$') by {
            if s[i] == '$' {
                assert(s.contains('$'));
            }
        }
        kept_from(s, vars, i + 1);
        assert(s.skip(i) =~= seq![s[i]] + s.skip(i + 1));
    } else {
        assert(s.skip(i) =~= Seq::<char>::empty());
    }
}

/// A reference `${NAME}` is replaced by the value of `NAME` (empty when it
/// is not set).
pub proof fn reference_is_replaced(name: Seq<char>, vars: Seq<(Seq<char>, Seq<char>)>)
    requires
        !name.contains('}'),
    ensures
        expand_vars(seq!['$', '{'] + name + seq!['}'], vars) == var_value(vars, name),
{
    let s = seq!['$', '{'] + name + seq!['}'];
    let c = s.len() - 1;
    close_brace_bounds(s, 2);
    assert forall|j: int| 2 <= j < c implies s[j] != '}' by {
        assert(s[j] == name[j - 2]);
        if s[j] == '}' {
            assert(name.contains('}'));
        }
    }
    assert(s[c] == '}');
    assert(close_brace_from(s, 2) == c);
    assert(s.subrange(2, c) =~= name);
    assert(expand_from(s, vars, c + 1) == Seq::<char>::empty());
    assert(var_value(vars, name) + Seq::<char>::empty() =~= var_value(vars, name));
}

} // verus!
