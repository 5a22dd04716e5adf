//! The resolution cycle: aliases, compiled profiles, the selected profile and
//! its literal commands.
use vstd::prelude::*;
use crate::action::{action_spec, Action, ActionView, Config, ConfigActionView, ConfigView};
use crate::alias::{alias_views, parse_aliases, aliases_spec, AliasErrorView, AliasView, ConfigAliasError};
use crate::monitor::Monitor;
use crate::template::{names_of, substitute_all, substitute_complete, substitute_spec};
use crate::text::views;

verus! {

/// Why a resolution cycle produced no action.
#[derive(Debug)]
pub enum ResolveError {
    /// An alias declaration was refused.
    Alias(ConfigAliasError),
    /// The configuration declares no profile.
    NoProfilesConfigured,
}

pub enum ResolveErrorView {
    Alias(AliasErrorView),
    NoProfilesConfigured,
}

impl View for ResolveError {
    type V = ResolveErrorView;

    open spec fn view(&self) -> ResolveErrorView {
        match self {
            ResolveError::Alias(e) => ResolveErrorView::Alias(e@),
            ResolveError::NoProfilesConfigured => ResolveErrorView::NoProfilesConfigured,
        }
    }
}

/// The selected profile with its commands made literal.
pub struct ResolvedAction {
    /// The position of the selected profile in the configuration.
    pub index: usize,
    /// The selected profile as compiled, its commands still templates.
    pub action: Action,
    /// The commands to run, in order.
    pub cmds: Vec<String>,
    /// For each command, whether every placeholder in it found a monitor.
    pub complete: Vec<bool>,
}

pub struct ResolvedView {
    pub index: int,
    pub action: ActionView,
    pub cmds: Seq<Seq<char>>,
    pub complete: Seq<bool>,
}

impl View for ResolvedAction {
    type V = ResolvedView;

    open spec fn view(&self) -> ResolvedView {
        ResolvedView {
            index: self.index as int,
            action: self.action@,
            cmds: views(self.cmds@),
            complete: self.complete@,
        }
    }
}

pub open spec fn confidences(actions: Seq<ActionView>) -> Seq<nat> {
    actions.map_values(|a: ActionView| a.confidence)
}

/// The position of the first greatest value of `c` (0 for an empty `c`).
pub open spec fn select_spec(c: Seq<nat>) -> int
    decreases c.len(),
{
    if c.len() <= 1 {
        0
    } else {
        let p = select_spec(c.drop_last());
        if c.last() > c[p] {
            c.len() - 1
        } else {
            p
        }
    }
}

/// `i` holds a greatest value of `c`, and every earlier position a smaller one.
pub open spec fn is_first_max(c: Seq<nat>, i: int) -> bool {
    &&& 0 <= i < c.len()
    &&& forall|j: int| 0 <= j < c.len() ==> c[j] <= c[i]
    &&& forall|j: int| 0 <= j < i ==> c[j] < c[i]
}

/// The selected position is the first of the greatest confidence.
pub proof fn lemma_select_first_max(c: Seq<nat>)
    requires
        c.len() > 0,
    ensures
        is_first_max(c, select_spec(c)),
    decreases c.len(),
{
    if c.len() > 1 {
        let d = c.drop_last();
        lemma_select_first_max(d);
        assert forall|j: int| 0 <= j < c.len() - 1 implies c[j] == d[j] by {}
    }
}

/// Among profiles of equal, greatest confidence the one declared first is
/// selected.
pub proof fn lemma_select_tie_break(c: Seq<nat>, i: int, j: int)
    requires
        0 <= i < j < c.len(),
        c[i] == c[j],
        forall|k: int| 0 <= k < c.len() ==> c[k] <= c[i],
    ensures
        0 <= select_spec(c) <= i,
        select_spec(c) != j,
        c[select_spec(c)] == c[i],
{
    lemma_select_first_max(c);
}

/// The position of the profile with the greatest confidence, the first one
/// of them where several share it.
pub fn select_profile(actions: &Vec<Action>) -> (r: Result<usize, ResolveError>)
    ensures
        match r {
            Ok(i) => actions@.len() > 0 && i == select_spec(
                confidences(actions@.map_values(|a: Action| a@)),
            ),
            Err(e) => actions@.len() == 0 && e is NoProfilesConfigured,
        },
{
    if actions.len() == 0 {
        return Err(ResolveError::NoProfilesConfigured);
    }
    let ghost c = confidences(actions@.map_values(|a: Action| a@));
    let mut best: usize = 0;
    let mut i: usize = 1;
    proof {
        assert(c.subrange(0, 1).len() == 1);
    }
    while i < actions.len()
        invariant
            1 <= i <= actions@.len(),
            c == confidences(actions@.map_values(|a: Action| a@)),
            c.len() == actions@.len(),
            best < i,
            best == select_spec(c.subrange(0, i as int)),
        decreases actions@.len() - i,
    {
        let ghost s = c.subrange(0, i + 1);
        proof {
            assert(s.drop_last() =~= c.subrange(0, i as int));
            assert(s.last() == actions@[i as int].confidence);
            assert(s[best as int] == actions@[best as int].confidence);
        }
        if actions[i].confidence > actions[best].confidence {
            best = i;
        }
        i = i + 1;
    }
    proof {
        assert(c.subrange(0, i as int) =~= c);
    }
    Ok(best)
}

/// The literal commands of a compiled profile.
pub open spec fn commands_spec(a: ActionView) -> Seq<Seq<char>> {
    a.cmds.map_values(
        |c: Seq<char>| substitute_spec(c, names_of(a.profile.found_req), names_of(a.profile.found_opt)),
    )
}

pub open spec fn complete_spec(a: ActionView) -> Seq<bool> {
    a.cmds.map_values(
        |c: Seq<char>| substitute_complete(
            c,
            names_of(a.profile.found_req),
            names_of(a.profile.found_opt),
        ),
    )
}

/// What selecting among the compiled profiles `actions` and filling in the
/// selected one's commands gives.
pub open spec fn determine_spec(actions: Seq<ActionView>) -> Option<ResolvedView> {
    if actions.len() == 0 {
        None
    } else {
        let i = select_spec(confidences(actions));
        let a = actions[i];
        Some(ResolvedView { index: i, action: a, cmds: commands_spec(a), complete: complete_spec(a) })
    }
}

/// Selects the best of the compiled profiles and fills the monitors' names
/// into its commands.
pub fn determine_config(actions: Vec<Action>) -> (r: Result<ResolvedAction, ResolveError>)
    ensures
        match r {
            Ok(ra) => determine_spec(actions@.map_values(|a: Action| a@)) == Some(ra@),
            Err(e) => determine_spec(actions@.map_values(|a: Action| a@)) is None
                && e is NoProfilesConfigured,
        },
{
    let ghost av = actions@.map_values(|a: Action| a@);
    let index = match select_profile(&actions) {
        Ok(i) => i,
        Err(e) => {
            return Err(e);
        },
    };
    proof {
        lemma_select_first_max(confidences(av));
    }
    let mut actions = actions;
    let action = actions.swap_remove(index);
    proof {
        assert(action@ == av[index as int]);
    }
    let (cmds, complete) = substitute_all(&action.cmds.cmds, &action.mons.found);
    proof {
        assert(views(cmds@) =~= commands_spec(action@));
        assert(complete@ =~= complete_spec(action@));
    }
    Ok(ResolvedAction { index, action, cmds, complete })
}

/// Compiling every profile of `conf` against the snapshot `ms`, once the
/// aliases are resolved.
pub open spec fn transpose_spec(conf: ConfigView, ms: Seq<Monitor>) -> Result<
    Seq<ActionView>,
    AliasErrorView,
> {
    match aliases_spec(conf.aliases, ms) {
        Err(e) => Err(e),
        Ok(al) => Ok(conf.actions.map_values(|ca: ConfigActionView| action_spec(ca, al, ms))),
    }
}

/// Resolves the aliases of `conf` and compiles each of its profiles against
/// `monitors`, in declaration order.
pub fn transpose_config(conf: &Config, monitors: &[Monitor]) -> (r: Result<
    Vec<Action>,
    ConfigAliasError,
>)
    ensures
        match r {
            Ok(v) => transpose_spec(conf@, monitors@) == Ok::<Seq<ActionView>, AliasErrorView>(
                v@.map_values(|a: Action| a@),
            ),
            Err(e) => transpose_spec(conf@, monitors@) == Err::<Seq<ActionView>, AliasErrorView>(
                e@,
            ),
        },
{
    let aliases = match parse_aliases(&conf.aliases, monitors) {
        Ok(a) => a,
        Err(e) => {
            return Err(e);
        },
    };
    let ghost al = alias_views(aliases@);
    let ghost cv = conf@.actions;
    let mut out: Vec<Action> = Vec::new();
    let mut i: usize = 0;
    while i < conf.actions.len()
        invariant
            0 <= i <= conf.actions@.len(),
            al == alias_views(aliases@),
            cv == conf@.actions,
            cv.len() == conf.actions@.len(),
            out@.map_values(|a: Action| a@) == cv.subrange(0, i as int).map_values(
                |ca: ConfigActionView| action_spec(ca, al, monitors@),
            ),
        decreases conf.actions@.len() - i,
    {
        let a = Action::from_configaction(&conf.actions[i], aliases.as_slice(), monitors);
        let ghost before = out@;
        out.push(a);
        proof {
            assert(cv[i as int] == conf.actions@[i as int]@);
            assert(out@.map_values(|a: Action| a@) =~= before.map_values(|a: Action| a@).push(a@));
            assert(cv.subrange(0, i + 1).map_values(
                |ca: ConfigActionView| action_spec(ca, al, monitors@),
            ) =~= cv.subrange(0, i as int).map_values(
                |ca: ConfigActionView| action_spec(ca, al, monitors@),
            ).push(action_spec(cv[i as int], al, monitors@)));
        }
        i = i + 1;
    }
    proof {
        assert(cv.subrange(0, i as int) =~= cv);
    }
    Ok(out)
}

/// What one resolution cycle gives for the configuration `conf` and the
/// snapshot `ms`.
pub open spec fn resolve_spec(conf: ConfigView, ms: Seq<Monitor>) -> Result<
    ResolvedView,
    ResolveErrorView,
> {
    match transpose_spec(conf, ms) {
        Err(e) => Err(ResolveErrorView::Alias(e)),
        Ok(actions) => match determine_spec(actions) {
            Some(ra) => Ok(ra),
            None => Err(ResolveErrorView::NoProfilesConfigured),
        },
    }
}

pub open spec fn resolve_view(r: Result<ResolvedAction, ResolveError>) -> Result<
    ResolvedView,
    ResolveErrorView,
> {
    match r {
        Ok(ra) => Ok(ra@),
        Err(e) => Err(e@),
    }
}

/// One resolution cycle: resolves the aliases, compiles every profile,
/// selects the best one and makes its commands literal.
pub fn resolve(conf: &Config, monitors: &[Monitor]) -> (r: Result<ResolvedAction, ResolveError>)
    ensures
        resolve_view(r) == resolve_spec(conf@, monitors@),
{
    match transpose_config(conf, monitors) {
        Err(e) => Err(ResolveError::Alias(e)),
        Ok(actions) => determine_config(actions),
    }
}

/// The cycle keeps no state: two cycles on the same configuration and
/// snapshot give the same result.
pub proof fn lemma_resolve_idempotent(
    conf: ConfigView,
    ms: Seq<Monitor>,
    r1: Result<ResolvedAction, ResolveError>,
    r2: Result<ResolvedAction, ResolveError>,
)
    requires
        resolve_view(r1) == resolve_spec(conf, ms),
        resolve_view(r2) == resolve_spec(conf, ms),
    ensures
        resolve_view(r1) == resolve_view(r2),
{
}

} // verus!
