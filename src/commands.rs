//! The commands of a profile, and what becomes of them when they run.
use vstd::prelude::*;
use crate::text::views;

verus! {

/// The command lines of a profile, in the order they run.
pub struct Commands {
    pub cmds: Vec<String>,
}

impl Commands {
    pub fn new(cmds: Vec<String>) -> (r: Commands)
        ensures
            r.cmds == cmds,
    {
        Commands { cmds }
    }

    /// The command line `s` with every `~/` written as the home directory
    /// `home` followed by `/`.
    pub fn replace_home(s: &str, home: &str) -> (r: String)
        ensures
            r@ == replace_spec(s@, "~/"@, home@ + "/"@),
    {
        let mut rep = home.to_owned();
        rep.append("/");
        replace_all(s, "~/", rep.as_str())
    }
}

/// A copy of a list of strings.
pub fn copy_strings(v: &Vec<String>) -> (r: Vec<String>)
    ensures
        r@ == v@,
{
    let mut out: Vec<String> = Vec::new();
    let mut i: usize = 0;
    while i < v.len()
        invariant
            0 <= i <= v@.len(),
            out@ == v@.subrange(0, i as int),
        decreases v@.len() - i,
    {
        out.push(v[i].clone());
        proof {
            assert(out@ =~= v@.subrange(0, i + 1));
        }
        i = i + 1;
    }
    proof {
        assert(v@.subrange(0, i as int) =~= v@);
    }
    out
}

/// `s` with every occurrence of `pat`, scanned from the left without
/// overlap, replaced by `rep`.
pub open spec fn replace_spec(s: Seq<char>, pat: Seq<char>, rep: Seq<char>) -> Seq<char>
    decreases s.len(),
{
    if s.len() == 0 {
        Seq::empty()
    } else if 0 < pat.len() <= s.len() && s.take(pat.len() as int) == pat {
        rep + replace_spec(s.skip(pat.len() as int), pat, rep)
    } else {
        seq![s[0]] + replace_spec(s.drop_first(), pat, rep)
    }
}

fn occurs_at(s: &str, n: usize, i: usize, pat: &str) -> (r: bool)
    requires
        n == s@.len(),
        i < n,
    ensures
        r == (0 < pat@.len() <= s@.skip(i as int).len() && s@.skip(i as int).take(
            pat@.len() as int,
        ) == pat@),
{
    let ghost t = s@.skip(i as int);
    let pl = pat.unicode_len();
    if pl == 0 || pl > n - i {
        return false;
    }
    let mut j: usize = 0;
    while j < pl
        invariant
            pl == pat@.len(),
            pl <= n - i,
            n == s@.len(),
            t == s@.skip(i as int),
            j <= pl,
            forall|q: int| 0 <= q < j ==> t[q] == pat@[q],
        decreases pl - j,
    {
        if s.get_char(i + j) != pat.get_char(j) {
            proof {
                assert(t.take(pl as int)[j as int] != pat@[j as int]);
            }
            return false;
        }
        j = j + 1;
    }
    proof {
        assert(t.take(pl as int) =~= pat@);
    }
    true
}

/// Replaces every occurrence of `pat` in `s` by `rep`.
pub fn replace_all(s: &str, pat: &str, rep: &str) -> (r: String)
    ensures
        r@ == replace_spec(s@, pat@, rep@),
{
    let n = s.unicode_len();
    let mut out = String::new();
    let mut i: usize = 0;
    proof {
        assert(s@.skip(0) =~= s@);
        assert(out@ + replace_spec(s@.skip(0), pat@, rep@) =~= replace_spec(s@, pat@, rep@));
    }
    while i < n
        invariant
            n == s@.len(),
            i <= n,
            out@ + replace_spec(s@.skip(i as int), pat@, rep@) == replace_spec(s@, pat@, rep@),
        decreases n - i,
    {
        let ghost t = s@.skip(i as int);
        let ghost before = out@;
        if occurs_at(s, n, i, pat) {
            let k = pat.unicode_len();
            out.append(rep);
            proof {
                assert(t.skip(k as int) =~= s@.skip(i + k));
                assert(out@ + replace_spec(s@.skip(i + k), pat@, rep@) =~= before + replace_spec(
                    t,
                    pat@,
                    rep@,
                ));
            }
            i = i + k;
        } else {
            out.append(s.substring_char(i, i + 1));
            proof {
                assert(t.drop_first() =~= s@.skip(i + 1));
                assert(s@.subrange(i as int, i + 1) =~= seq![t[0]]);
                assert(out@ + replace_spec(s@.skip(i + 1), pat@, rep@) =~= before + replace_spec(
                    t,
                    pat@,
                    rep@,
                ));
            }
            i = i + 1;
        }
    }
    proof {
        assert(s@.skip(n as int) =~= Seq::<char>::empty());
        assert(out@ + Seq::<char>::empty() =~= out@);
    }
    out
}

/// What running one command gave: whether the shell reported success, and
/// what it wrote.
pub struct CommandRun {
    pub success: bool,
    pub stdout: String,
    pub stderr: String,
}

/// Why running a profile's commands is reported as a failure.
#[derive(Debug)]
pub enum CommandsExecError {
    /// Each failed command, with its standard output and error joined.
    CommandsFailed(Vec<(String, String)>),
    UnknownError(String),
}

/// The text reported for a failed run: its output, a marker line, its errors.
pub open spec fn failure_text(run: CommandRun) -> Seq<char> {
    run.stdout@ + "\n***"@ + run.stderr@
}

/// The failed commands of `cmds`, whose runs are `runs`, in order, each with
/// its failure text.
pub open spec fn failures_spec(cmds: Seq<Seq<char>>, runs: Seq<CommandRun>) -> Seq<
    (Seq<char>, Seq<char>),
>
    decreases runs.len(),
{
    if runs.len() == 0 || cmds.len() != runs.len() {
        Seq::empty()
    } else {
        let prev = failures_spec(cmds.drop_last(), runs.drop_last());
        if runs.last().success {
            prev
        } else {
            prev.push((cmds.last(), failure_text(runs.last())))
        }
    }
}

pub open spec fn pair_views(v: Seq<(String, String)>) -> Seq<(Seq<char>, Seq<char>)> {
    v.map_values(|p: (String, String)| (p.0@, p.1@))
}

/// The report on a profile's commands once each has run: success where every
/// run succeeded, else the failed commands with their output, in order.
pub fn report_runs(cmds: &Vec<String>, runs: &Vec<CommandRun>) -> (r: Result<
    bool,
    CommandsExecError,
>)
    requires
        cmds@.len() == runs@.len(),
    ensures
        match r {
            Ok(b) => b && failures_spec(views(cmds@), runs@).len() == 0,
            Err(CommandsExecError::CommandsFailed(f)) => failures_spec(views(cmds@), runs@).len()
                > 0 && pair_views(f@) == failures_spec(views(cmds@), runs@),
            Err(_) => false,
        },
{
    let mut failed: Vec<(String, String)> = Vec::new();
    let mut i: usize = 0;
    proof {
        assert(pair_views(failed@) =~= Seq::<(Seq<char>, Seq<char>)>::empty());
    }
    while i < runs.len()
        invariant
            0 <= i <= runs@.len(),
            cmds@.len() == runs@.len(),
            pair_views(failed@) == failures_spec(
                views(cmds@.subrange(0, i as int)),
                runs@.subrange(0, i as int),
            ),
        decreases runs@.len() - i,
    {
        proof {
            assert(views(cmds@.subrange(0, i + 1)).drop_last() =~= views(
                cmds@.subrange(0, i as int),
            ));
            assert(runs@.subrange(0, i + 1).drop_last() =~= runs@.subrange(0, i as int));
            assert(views(cmds@.subrange(0, i + 1)).last() == cmds@[i as int]@);
        }
        if !runs[i].success {
            let mut text = runs[i].stdout.clone();
            text.append("\n***");
            text.append(runs[i].stderr.as_str());
            let ghost before = failed@;
            failed.push((cmds[i].clone(), text));
            proof {
                assert(pair_views(failed@) =~= pair_views(before).push((cmds@[i as int]@, text@)));
            }
        }
        i = i + 1;
    }
    proof {
        assert(cmds@.subrange(0, i as int) =~= cmds@);
        assert(runs@.subrange(0, i as int) =~= runs@);
    }
    if failed.len() == 0 {
        Ok(true)
    } else {
        Err(CommandsExecError::CommandsFailed(failed))
    }
}

} // verus!
