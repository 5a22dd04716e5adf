//! Command templates: `${monsN}` stands for the N-th matched required
//! monitor, `${&monsN}` for the N-th matched optional one (counting from 1).
use vstd::prelude::*;
use crate::action::ActionMon;
use crate::monitor::Monitor;
use crate::text::{decimal_value, is_digit, lemma_decimal_step, views};

verus! {

/// The number of decimal digits at the start of `s`.
pub open spec fn digit_run(s: Seq<char>) -> nat
    decreases s.len(),
{
    if s.len() > 0 && is_digit(s[0]) {
        1 + digit_run(s.drop_first())
    } else {
        0
    }
}

/// The length of the placeholder `pre`, digits, `}` at the start of `s`, or
/// 0 where `s` does not start with one.
pub open spec fn placeholder_len(s: Seq<char>, pre: Seq<char>) -> nat {
    let d = digit_run(s.skip(pre.len() as int));
    if pre.len() <= s.len() && s.take(pre.len() as int) == pre && d > 0 && pre.len() + d < s.len()
        && s[(pre.len() + d) as int] == '}' {
        pre.len() + d + 1
    } else {
        0
    }
}

/// The number written in the placeholder at the start of `s`.
pub open spec fn placeholder_num(s: Seq<char>, pre: Seq<char>) -> int {
    decimal_value(
        s.subrange(pre.len() as int, (pre.len() + digit_run(s.skip(pre.len() as int))) as int),
    )
}

/// One pass over `s`: every placeholder `pre`N`}` whose N is a position of
/// `names` becomes that name; the others stay as they are.
pub open spec fn subst_pass(s: Seq<char>, pre: Seq<char>, names: Seq<Seq<char>>) -> Seq<char>
    decreases s.len(),
{
    if s.len() == 0 {
        Seq::empty()
    } else {
        let k = placeholder_len(s, pre);
        if 0 < k <= s.len() {
            let n = placeholder_num(s, pre);
            let piece = if 1 <= n <= names.len() {
                names[n - 1]
            } else {
                s.take(k as int)
            };
            piece + subst_pass(s.skip(k as int), pre, names)
        } else {
            seq![s[0]] + subst_pass(s.drop_first(), pre, names)
        }
    }
}

/// Whether every placeholder `pre`N`}` of one pass over `s` names a position
/// of `names`.
pub open spec fn pass_complete(s: Seq<char>, pre: Seq<char>, names: Seq<Seq<char>>) -> bool
    decreases s.len(),
{
    if s.len() == 0 {
        true
    } else {
        let k = placeholder_len(s, pre);
        if 0 < k <= s.len() {
            let n = placeholder_num(s, pre);
            1 <= n <= names.len() && pass_complete(s.skip(k as int), pre, names)
        } else {
            pass_complete(s.drop_first(), pre, names)
        }
    }
}

/// The two passes: required placeholders first, then, on what that gave,
/// optional ones.
pub open spec fn substitute_spec(c: Seq<char>, req: Seq<Seq<char>>, opt: Seq<Seq<char>>) -> Seq<char> {
    subst_pass(subst_pass(c, "${mons"@, req), "${&mons"@, opt)
}

pub open spec fn substitute_complete(c: Seq<char>, req: Seq<Seq<char>>, opt: Seq<Seq<char>>) -> bool {
    pass_complete(c, "${mons"@, req) && pass_complete(subst_pass(c, "${mons"@, req), "${&mons"@, opt)
}

proof fn lemma_digit_run_step(s: Seq<char>, j: int)
    requires
        0 <= j < s.len(),
        is_digit(s[j]),
    ensures
        digit_run(s.skip(j)) == 1 + digit_run(s.skip(j + 1)),
{
    assert(s.skip(j).drop_first() =~= s.skip(j + 1));
}

fn digit_at(s: &str, n: usize, e: usize) -> (r: bool)
    requires
        n == s@.len(),
    ensures
        r == (e < n && is_digit(s@[e as int])),
{
    if e < n {
        let c = s.get_char(e);
        '0' <= c && c <= '9'
    } else {
        false
    }
}

/// Reads the placeholder `pre`N`}` at position `i` of `s`: its length (0 if
/// there is none) and N, or a number above `limit` where N is above it.
fn placeholder_at(s: &str, n: usize, i: usize, pre: &str, limit: usize) -> (r: (usize, u128))
    requires
        n == s@.len(),
        i < n,
    ensures
        r.0 == placeholder_len(s@.skip(i as int), pre@),
        r.0 > 0 ==> (r.1 <= limit ==> r.1 == placeholder_num(s@.skip(i as int), pre@)),
        r.0 > 0 ==> (r.1 > limit ==> placeholder_num(s@.skip(i as int), pre@) > limit),
{
    let ghost t = s@.skip(i as int);
    let pl = pre.unicode_len();
    if pl > n - i {
        return (0, 0);
    }
    let mut j: usize = 0;
    while j < pl
        invariant
            pl == pre@.len(),
            pl <= n - i,
            n == s@.len(),
            t == s@.skip(i as int),
            j <= pl,
            forall|q: int| 0 <= q < j ==> t[q] == pre@[q],
        decreases pl - j,
    {
        if s.get_char(i + j) != pre.get_char(j) {
            proof {
                assert(t.take(pl as int)[j as int] != pre@[j as int]);
            }
            return (0, 0);
        }
        j = j + 1;
    }
    proof {
        assert(t.take(pl as int) =~= pre@);
    }
    let a = i + pl;
    let ghost u = t.skip(pl as int);
    proof {
        assert(u =~= s@.skip(a as int));
    }
    let mut e: usize = a;
    let mut acc: u128 = 0;
    proof {
        assert(s@.subrange(a as int, a as int) =~= Seq::<char>::empty());
    }
    let mut more = digit_at(s, n, e);
    while more
        invariant
            a <= e <= n,
            more == (e < n && is_digit(s@[e as int])),
            n == s@.len(),
            a == i + pl,
            u == s@.skip(a as int),
            digit_run(u) == (e - a) + digit_run(s@.skip(e as int)),
            crate::text::all_digits(s@.subrange(a as int, e as int)),
            acc <= 10 * (limit as int) + 9,
            acc <= limit ==> acc == decimal_value(s@.subrange(a as int, e as int)),
            acc > limit ==> decimal_value(s@.subrange(a as int, e as int)) > limit,
        decreases n - e,
    {
        let c = s.get_char(e);
        let ghost pre_d = s@.subrange(a as int, e as int);
        proof {
            lemma_digit_run_step(s@, e as int);
            lemma_decimal_step(pre_d, c);
            assert(s@.subrange(a as int, e + 1) =~= pre_d.push(c));
            assert(crate::text::all_digits(pre_d.push(c)));
        }
        if acc <= limit as u128 {
            acc = 10 * acc + (c as u128 - '0' as u128);
        }
        e = e + 1;
        more = digit_at(s, n, e);
    }
    proof {
        if e < n {
            assert(!is_digit(s@[e as int]));
            assert(s@.skip(e as int)[0] == s@[e as int]);
        }
        assert(digit_run(s@.skip(e as int)) == 0);
        assert(digit_run(u) == e - a);
    }
    if e == a || e >= n || s.get_char(e) != '}' {
        proof {
            if e < n {
                assert(t[(pl + (e - a)) as int] == s@[e as int]);
            }
        }
        return (0, 0);
    }
    proof {
        assert(t[(pl + (e - a)) as int] == s@[e as int]);
        assert(t.subrange(pl as int, pl + (e - a)) =~= s@.subrange(a as int, e as int));
    }
    (e + 1 - i, acc)
}

/// One pass of substitution over `s` with the placeholder prefix `pre`:
/// the text, and whether every placeholder found a name.
pub fn subst_pass_exec(s: &str, pre: &str, names: &Vec<String>) -> (r: (String, bool))
    ensures
        r.0@ == subst_pass(s@, pre@, views(names@)),
        r.1 == pass_complete(s@, pre@, views(names@)),
{
    let ghost nv = views(names@);
    let n = s.unicode_len();
    let mut out = String::new();
    let mut ok = true;
    let mut i: usize = 0;
    proof {
        assert(s@.skip(0) =~= s@);
        assert(out@ + subst_pass(s@.skip(0), pre@, nv) =~= subst_pass(s@, pre@, nv));
    }
    while i < n
        invariant
            n == s@.len(),
            i <= n,
            nv == views(names@),
            out@ + subst_pass(s@.skip(i as int), pre@, nv) == subst_pass(s@, pre@, nv),
            (ok && pass_complete(s@.skip(i as int), pre@, nv)) == pass_complete(s@, pre@, nv),
        decreases n - i,
    {
        let ghost t = s@.skip(i as int);
        let (k, num) = placeholder_at(s, n, i, pre, names.len());
        if k > 0 {
            proof {
                assert(t.skip(k as int) =~= s@.skip(i + k));
            }
            if 1 <= num && num <= names.len() as u128 {
                let idx = (num - 1) as usize;
                let ghost before = out@;
                out.append(names[idx].as_str());
                proof {
                    assert(nv[idx as int] == names@[idx as int]@);
                    assert(out@ + subst_pass(s@.skip(i + k), pre@, nv) =~= before + subst_pass(t, pre@, nv));
                }
            } else {
                let ghost before = out@;
                out.append(s.substring_char(i, i + k));
                ok = false;
                proof {
                    assert(t.take(k as int) =~= s@.subrange(i as int, i + k));
                    assert(out@ + subst_pass(s@.skip(i + k), pre@, nv) =~= before + subst_pass(t, pre@, nv));
                }
            }
            i = i + k;
        } else {
            let ghost before = out@;
            out.append(s.substring_char(i, i + 1));
            proof {
                assert(t.drop_first() =~= s@.skip(i + 1));
                assert(s@.subrange(i as int, i + 1) =~= seq![t[0]]);
                assert(out@ + subst_pass(s@.skip(i + 1), pre@, nv) =~= before + subst_pass(t, pre@, nv));
            }
            i = i + 1;
        }
    }
    proof {
        assert(s@.skip(n as int) =~= Seq::<char>::empty());
        assert(out@ + Seq::<char>::empty() =~= out@);
    }
    (out, ok)
}

/// The names of a sequence of monitors.
pub open spec fn names_of(ms: Seq<Monitor>) -> Seq<Seq<char>> {
    ms.map_values(|m: Monitor| m.name@)
}

/// The names of `v`, in order.
pub fn monitor_names(v: &Vec<Monitor>) -> (r: Vec<String>)
    ensures
        views(r@) == names_of(v@),
{
    let mut out: Vec<String> = Vec::new();
    let mut i: usize = 0;
    while i < v.len()
        invariant
            0 <= i <= v@.len(),
            views(out@) == names_of(v@.subrange(0, i as int)),
        decreases v@.len() - i,
    {
        let ghost before = out@;
        out.push(v[i].name.clone());
        proof {
            assert(views(out@) =~= views(before).push(v@[i as int].name@));
            assert(names_of(v@.subrange(0, i + 1)) =~= names_of(v@.subrange(0, i as int)).push(
                v@[i as int].name@,
            ));
        }
        i = i + 1;
    }
    proof {
        assert(v@.subrange(0, i as int) =~= v@);
    }
    out
}

/// Fills the monitors' names into the template `c`: first `${monsN}` from
/// the required monitors, then, on the result, `${&monsN}` from the optional
/// ones. A placeholder whose N is out of range is left as written; the flag
/// tells whether every placeholder found a name.
pub fn parse_cmd(c: &str, mons: &ActionMon<Monitor>) -> (r: (String, bool))
    ensures
        r.0@ == substitute_spec(c@, names_of(mons.required@), names_of(mons.optional@)),
        r.1 == substitute_complete(c@, names_of(mons.required@), names_of(mons.optional@)),
{
    let req = monitor_names(&mons.required);
    let opt = monitor_names(&mons.optional);
    let (first, ok1) = subst_pass_exec(c, "${mons", &req);
    let (second, ok2) = subst_pass_exec(first.as_str(), "${&mons", &opt);
    (second, ok1 && ok2)
}

/// Every template of `cmds` with the names filled in, in order, and for each
/// whether all its placeholders found a name.
pub fn substitute_all(cmds: &Vec<String>, mons: &ActionMon<Monitor>) -> (r: (Vec<String>, Vec<bool>))
    ensures
        views(r.0@) == views(cmds@).map_values(
            |c: Seq<char>| substitute_spec(c, names_of(mons.required@), names_of(mons.optional@)),
        ),
        r.1@ == views(cmds@).map_values(
            |c: Seq<char>| substitute_complete(c, names_of(mons.required@), names_of(mons.optional@)),
        ),
{
    let ghost req = names_of(mons.required@);
    let ghost opt = names_of(mons.optional@);
    let mut out: Vec<String> = Vec::new();
    let mut flags: Vec<bool> = Vec::new();
    let mut i: usize = 0;
    while i < cmds.len()
        invariant
            0 <= i <= cmds@.len(),
            req == names_of(mons.required@),
            opt == names_of(mons.optional@),
            views(out@) == views(cmds@.subrange(0, i as int)).map_values(
                |c: Seq<char>| substitute_spec(c, req, opt),
            ),
            flags@ == views(cmds@.subrange(0, i as int)).map_values(
                |c: Seq<char>| substitute_complete(c, req, opt),
            ),
        decreases cmds@.len() - i,
    {
        let (text, ok) = parse_cmd(cmds[i].as_str(), mons);
        let ghost before = out@;
        out.push(text);
        flags.push(ok);
        proof {
            assert(views(out@) =~= views(before).push(text@));
            assert(views(cmds@.subrange(0, i + 1)) =~= views(cmds@.subrange(0, i as int)).push(
                cmds@[i as int]@,
            ));
            assert(views(out@) =~= views(cmds@.subrange(0, i + 1)).map_values(
                |c: Seq<char>| substitute_spec(c, req, opt),
            ));
            assert(flags@ =~= views(cmds@.subrange(0, i + 1)).map_values(
                |c: Seq<char>| substitute_complete(c, req, opt),
            ));
        }
        i = i + 1;
    }
    proof {
        assert(cmds@.subrange(0, i as int) =~= cmds@);
    }
    (out, flags)
}

} // verus!
