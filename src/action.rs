//! Profiles: compiling a profile's monitor tokens against the snapshot, and
//! scoring how well it fits.
use vstd::prelude::*;
use crate::alias::{alias_views, Alias, AliasView};
use crate::commands::{copy_strings, Commands};
use crate::monitor::{find_by_field, find_first, field_is, Field, Monitor};
use crate::template::{monitor_names, names_of};
use crate::text::{split_on, split_spec, trim_str, trimmed, views};

verus! {

/// A profile as the configuration declares it: comma-separated monitor
/// tokens (a leading `&` marks one optional) and command templates.
pub struct ConfigAction {
    pub mons: String,
    pub cmds: Vec<String>,
}

pub struct ConfigActionView {
    pub mons: Seq<char>,
    pub cmds: Seq<Seq<char>>,
}

impl View for ConfigAction {
    type V = ConfigActionView;

    open spec fn view(&self) -> ConfigActionView {
        ConfigActionView { mons: self.mons@, cmds: views(self.cmds@) }
    }
}

/// The whole configuration: alias declarations and profiles, in order.
pub struct Config {
    pub aliases: Vec<String>,
    pub actions: Vec<ConfigAction>,
}

pub struct ConfigView {
    pub aliases: Seq<Seq<char>>,
    pub actions: Seq<ConfigActionView>,
}

impl View for Config {
    type V = ConfigView;

    open spec fn view(&self) -> ConfigView {
        ConfigView {
            aliases: views(self.aliases@),
            actions: self.actions@.map_values(|a: ConfigAction| a@),
        }
    }
}

/// One monitor token of a profile, with its marker taken off.
pub struct ActionMonitor {
    pub name: String,
    pub optional: bool,
}

impl ActionMonitor {
    /// Classifies a trimmed token: optional when it starts with `&`, named by
    /// what follows the marker.
    pub fn from_trimmed(t: &str) -> (r: ActionMonitor)
        ensures
            r.name@ == name_text(t@),
            r.optional == is_optional_text(t@),
    {
        let len = t.unicode_len();
        let optional = len > 0 && t.get_char(0) == '&';
        let n: &str = if optional {
            t.substring_char(1, len)
        } else {
            t
        };
        proof {
            if optional {
                assert(n@ =~= t@.drop_first());
            }
        }
        ActionMonitor { name: n.to_owned(), optional }
    }

    /// Classifies one token of a profile once trimmed.
    pub fn from_token(tok: &str) -> (r: ActionMonitor)
        ensures
            r.name@ == token_name(tok@),
            r.optional == token_is_optional(tok@),
    {
        ActionMonitor::from_trimmed(trim_str(tok))
    }
}

/// Required and optional entries of a profile, each in token order.
pub struct ActionMon<T> {
    pub required: Vec<T>,
    pub optional: Vec<T>,
}

impl ActionMon<Monitor> {
    pub fn new_mon() -> (r: ActionMon<Monitor>)
        ensures
            r.required@.len() == 0,
            r.optional@.len() == 0,
    {
        ActionMon { required: Vec::new(), optional: Vec::new() }
    }
}

impl ActionMon<String> {
    pub fn new_string() -> (r: ActionMon<String>)
        ensures
            r.required@.len() == 0,
            r.optional@.len() == 0,
    {
        ActionMon { required: Vec::new(), optional: Vec::new() }
    }
}

/// The text of a list of names as diagnostics show it: each name preceded
/// by a space.
pub open spec fn spaced(names: Seq<Seq<char>>) -> Seq<char>
    decreases names.len(),
{
    if names.len() == 0 {
        Seq::empty()
    } else {
        spaced(names.drop_last()) + " "@ + names.last()
    }
}

/// The names of a profile's entries, as diagnostics show them.
pub trait GetMonString {
    spec fn required_names(&self) -> Seq<Seq<char>>;

    spec fn optional_names(&self) -> Seq<Seq<char>>;

    fn required_string(&self) -> (r: String)
        ensures
            r@ == spaced(self.required_names()),
    ;

    fn optional_string(&self) -> (r: String)
        ensures
            r@ == spaced(self.optional_names()),
    ;
}

fn spaced_names(names: &Vec<String>) -> (r: String)
    ensures
        r@ == spaced(views(names@)),
{
    let mut out = String::new();
    let mut i: usize = 0;
    while i < names.len()
        invariant
            0 <= i <= names@.len(),
            out@ == spaced(views(names@.subrange(0, i as int))),
        decreases names@.len() - i,
    {
        proof {
            assert(views(names@.subrange(0, i + 1)).drop_last() =~= views(
                names@.subrange(0, i as int),
            ));
            assert(views(names@.subrange(0, i + 1)).last() == names@[i as int]@);
        }
        out.append(" ");
        out.append(names[i].as_str());
        i = i + 1;
    }
    proof {
        assert(names@.subrange(0, i as int) =~= names@);
    }
    out
}

impl GetMonString for ActionMon<String> {
    open spec fn required_names(&self) -> Seq<Seq<char>> {
        views(self.required@)
    }

    open spec fn optional_names(&self) -> Seq<Seq<char>> {
        views(self.optional@)
    }

    fn required_string(&self) -> (r: String) {
        spaced_names(&self.required)
    }

    fn optional_string(&self) -> (r: String) {
        spaced_names(&self.optional)
    }
}

impl GetMonString for ActionMon<Monitor> {
    open spec fn required_names(&self) -> Seq<Seq<char>> {
        names_of(self.required@)
    }

    open spec fn optional_names(&self) -> Seq<Seq<char>> {
        names_of(self.optional@)
    }

    fn required_string(&self) -> (r: String) {
        spaced_names(&monitor_names(&self.required))
    }

    fn optional_string(&self) -> (r: String) {
        spaced_names(&monitor_names(&self.optional))
    }
}

/// The monitors a profile found in the snapshot, and the tokens it did not.
pub struct Mons {
    pub found: ActionMon<Monitor>,
    pub not_found: ActionMon<String>,
}

/// A compiled profile: its tokens resolved against a snapshot, its commands
/// as declared, and its confidence.
pub struct Action {
    pub mons: Mons,
    pub cmds: Commands,
    pub confidence: usize,
}

/// A compiled profile as a value: what its tokens gave, its commands and its
/// confidence.
pub struct ActionView {
    pub profile: ProfileView,
    pub cmds: Seq<Seq<char>>,
    pub confidence: nat,
}

impl View for Action {
    type V = ActionView;

    open spec fn view(&self) -> ActionView {
        ActionView {
            profile: profile_of(*self),
            cmds: views(self.cmds.cmds@),
            confidence: self.confidence as nat,
        }
    }
}

/// Compiling the profile `ca` against the resolved aliases and the snapshot.
pub open spec fn action_spec(ca: ConfigActionView, aliases: Seq<AliasView>, ms: Seq<Monitor>) -> ActionView {
    let p = compile_spec(ca.mons, aliases, ms);
    ActionView { profile: p, cmds: ca.cmds, confidence: profile_confidence(p) }
}

/// The outcome of compiling a profile's tokens.
pub struct ProfileView {
    pub found_req: Seq<Monitor>,
    pub found_opt: Seq<Monitor>,
    pub missing_req: Seq<Seq<char>>,
    pub missing_opt: Seq<Seq<char>>,
}

pub open spec fn profile_of(a: Action) -> ProfileView {
    ProfileView {
        found_req: a.mons.found.required@,
        found_opt: a.mons.found.optional@,
        missing_req: views(a.mons.not_found.required@),
        missing_opt: views(a.mons.not_found.optional@),
    }
}

/// A trimmed token is optional when it starts with `&`.
pub open spec fn is_optional_text(t: Seq<char>) -> bool {
    t.len() > 0 && t[0] == '&'
}

/// The name in a trimmed token: what follows the `&` marker, if any.
pub open spec fn name_text(t: Seq<char>) -> Seq<char> {
    if is_optional_text(t) {
        t.drop_first()
    } else {
        t
    }
}

pub open spec fn token_is_optional(tok: Seq<char>) -> bool {
    is_optional_text(trimmed(tok))
}

pub open spec fn token_name(tok: Seq<char>) -> Seq<char> {
    name_text(trimmed(tok))
}

/// The name that a token stands for: the monitor name of the first alias of
/// that name that matched a monitor, else the token itself.
pub open spec fn alias_name_for(n: Seq<char>, aliases: Seq<AliasView>) -> Seq<char> {
    match find_first(aliases, alias_named(n)) {
        Some(a) => a.matchedmonitor->0.name@,
        None => n,
    }
}

pub open spec fn alias_named(n: Seq<char>) -> spec_fn(AliasView) -> bool {
    |a: AliasView| a.name == n && a.matchedmonitor is Some
}

/// The monitor a token is matched with: the first of that name in the
/// snapshot, where it is not disabled.
pub open spec fn token_monitor(n: Seq<char>, aliases: Seq<AliasView>, ms: Seq<Monitor>) -> Option<
    Monitor,
> {
    match find_first(ms, field_is(Field::Name, alias_name_for(n, aliases))) {
        Some(m) => if m.disabled {
            None
        } else {
            Some(m)
        },
        None => None,
    }
}

/// Compiling the tokens `toks` in order.
pub open spec fn compile_tokens(toks: Seq<Seq<char>>, aliases: Seq<AliasView>, ms: Seq<Monitor>) -> ProfileView
    decreases toks.len(),
{
    if toks.len() == 0 {
        ProfileView {
            found_req: Seq::empty(),
            found_opt: Seq::empty(),
            missing_req: Seq::empty(),
            missing_opt: Seq::empty(),
        }
    } else {
        let p = compile_tokens(toks.drop_last(), aliases, ms);
        let t = toks.last();
        let n = token_name(t);
        match token_monitor(n, aliases, ms) {
            Some(m) => if token_is_optional(t) {
                ProfileView { found_opt: p.found_opt.push(m), ..p }
            } else {
                ProfileView { found_req: p.found_req.push(m), ..p }
            },
            None => if token_is_optional(t) {
                ProfileView { missing_opt: p.missing_opt.push(n), ..p }
            } else {
                ProfileView { missing_req: p.missing_req.push(n), ..p }
            },
        }
    }
}

/// Compiling a profile whose monitor field reads `mons`.
pub open spec fn compile_spec(mons: Seq<char>, aliases: Seq<AliasView>, ms: Seq<Monitor>) -> ProfileView {
    compile_tokens(split_spec(mons, ','), aliases, ms)
}

/// The number of required (or, with `optional`, optional) tokens.
pub open spec fn token_count(toks: Seq<Seq<char>>, optional: bool) -> nat
    decreases toks.len(),
{
    if toks.len() == 0 {
        0
    } else {
        token_count(toks.drop_last(), optional) + if token_is_optional(toks.last()) == optional {
            1nat
        } else {
            0nat
        }
    }
}

/// The confidence earned by `r` matched and `u` unmatched required monitors
/// and `o` matched optional ones: the required surplus, never below zero,
/// plus the optional matches when every required monitor matched (which a
/// profile with none required does).
pub open spec fn confidence_spec(r: nat, u: nat, o: nat) -> nat {
    let req: nat = if r >= u {
        (r - u) as nat
    } else {
        0
    };
    let opt: nat = if req == r + u && o > 0 {
        o
    } else {
        0
    };
    req + opt
}

pub open spec fn profile_confidence(p: ProfileView) -> nat {
    confidence_spec(p.found_req.len(), p.missing_req.len(), p.found_opt.len())
}

/// The confidence of counts `r`, `u`, `o`, as `confidence_spec` states it.
pub fn confidence(r: usize, u: usize, o: usize) -> (c: usize)
    requires
        r + o <= usize::MAX,
    ensures
        c == confidence_spec(r as nat, u as nat, o as nat),
{
    if u == 0 {
        r + o
    } else if r >= u {
        r - u
    } else {
        0
    }
}

/// The name that `n` stands for among `aliases`.
fn resolve_name(n: &str, aliases: &[Alias]) -> (r: String)
    ensures
        r@ == alias_name_for(n@, alias_views(aliases@)),
{
    let ghost av = alias_views(aliases@);
    let ghost p = alias_named(n@);
    let mut i: usize = 0;
    while i < aliases.len()
        invariant
            0 <= i <= aliases@.len(),
            av == alias_views(aliases@),
            p == alias_named(n@),
            forall|j: int| 0 <= j < i ==> !p(#[trigger] av[j]),
        decreases aliases@.len() - i,
    {
        assert(av[i as int] == aliases@[i as int]@);
        match &aliases[i].matchedmonitor {
            Some(m) => {
                if crate::text::str_eq(aliases[i].name.as_str(), n) {
                    proof {
                        crate::monitor::lemma_first_index(av, p, i as int);
                    }
                    return m.name.clone();
                }
            },
            None => {},
        }
        i = i + 1;
    }
    proof {
        crate::monitor::lemma_first_index(av, p, i as int);
    }
    n.to_owned()
}

impl Action {
    /// Compiles the profile `caction` against `aliases` and `monitors`: each
    /// token is matched, in order, or recorded as not found, and the
    /// confidence is scored.
    pub fn from_configaction(caction: &ConfigAction, aliases: &[Alias], monitors: &[Monitor]) -> (r: Action)
        ensures
            r@ == action_spec(caction@, alias_views(aliases@), monitors@),
            r.cmds.cmds@ == caction.cmds@,
    {
        let toks = split_on(caction.mons.as_str(), ',');
        let ghost tv = views(toks@);
        let ghost av = alias_views(aliases@);
        let mut found = ActionMon::new_mon();
        let mut not_found = ActionMon::new_string();
        let mut i: usize = 0;
        proof {
            assert(tv.subrange(0, 0) =~= Seq::<Seq<char>>::empty());
            assert(views(not_found.required@) =~= Seq::<Seq<char>>::empty());
            assert(views(not_found.optional@) =~= Seq::<Seq<char>>::empty());
            assert(found.required@ =~= Seq::<Monitor>::empty());
            assert(found.optional@ =~= Seq::<Monitor>::empty());
        }
        while i < toks.len()
            invariant
                0 <= i <= toks@.len(),
                tv == views(toks@),
                av == alias_views(aliases@),
                compile_tokens(tv.subrange(0, i as int), av, monitors@) == (ProfileView {
                    found_req: found.required@,
                    found_opt: found.optional@,
                    missing_req: views(not_found.required@),
                    missing_opt: views(not_found.optional@),
                }),
                found.required@.len() + found.optional@.len() + not_found.required@.len()
                    + not_found.optional@.len() == i,
            decreases toks@.len() - i,
        {
            let ghost pre = tv.subrange(0, i + 1);
            proof {
                assert(pre.drop_last() =~= tv.subrange(0, i as int));
                assert(pre.last() == toks@[i as int]@);
            }
            let tok = ActionMonitor::from_token(toks[i].as_str());
            let optional = tok.optional;
            let n = tok.name.as_str();
            let target = resolve_name(n, aliases);
            let m = find_by_field(monitors, Field::Name, target.as_str());
            let mut matched = false;
            match m {
                Some(mon) => {
                    if !mon.disabled {
                        matched = true;
                        if optional {
                            found.optional.push(mon);
                        } else {
                            found.required.push(mon);
                        }
                    }
                },
                None => {},
            }
            if !matched {
                let name = n.to_owned();
                if optional {
                    proof {
                        assert(views(not_found.optional@.push(name)) =~= views(
                            not_found.optional@,
                        ).push(name@));
                    }
                    not_found.optional.push(name);
                } else {
                    proof {
                        assert(views(not_found.required@.push(name)) =~= views(
                            not_found.required@,
                        ).push(name@));
                    }
                    not_found.required.push(name);
                }
            }
            i = i + 1;
        }
        proof {
            assert(tv.subrange(0, i as int) =~= tv);
        }
        let r = found.required.len();
        let u = not_found.required.len();
        let o = found.optional.len();
        let c = confidence(r, u, o);
        Action {
            mons: Mons { found, not_found },
            cmds: Commands::new(copy_strings(&caction.cmds)),
            confidence: c,
        }
    }

    /// Scores the profile again from its token counts.
    pub fn set_confidence(&mut self)
        requires
            old(self).mons.found.required@.len() + old(self).mons.found.optional@.len()
                <= usize::MAX,
        ensures
            final(self).mons == old(self).mons,
            final(self).cmds == old(self).cmds,
            final(self).confidence == profile_confidence(profile_of(*final(self))),
    {
        let r = self.mons.found.required.len();
        let u = self.mons.not_found.required.len();
        let o = self.mons.found.optional.len();
        self.confidence = confidence(r, u, o);
    }
}

/// Compiling keeps every token: per category, the matched and the unmatched
/// together are as many as the profile has tokens of that category.
pub proof fn lemma_compile_keeps_tokens(mons: Seq<char>, aliases: Seq<AliasView>, ms: Seq<Monitor>)
    ensures
        compile_spec(mons, aliases, ms).found_req.len() + compile_spec(mons, aliases, ms).missing_req.len()
            == token_count(split_spec(mons, ','), false),
        compile_spec(mons, aliases, ms).found_opt.len() + compile_spec(mons, aliases, ms).missing_opt.len()
            == token_count(split_spec(mons, ','), true),
{
    lemma_tokens_counted(split_spec(mons, ','), aliases, ms);
}

proof fn lemma_tokens_counted(toks: Seq<Seq<char>>, aliases: Seq<AliasView>, ms: Seq<Monitor>)
    ensures
        compile_tokens(toks, aliases, ms).found_req.len() + compile_tokens(toks, aliases, ms).missing_req.len()
            == token_count(toks, false),
        compile_tokens(toks, aliases, ms).found_opt.len() + compile_tokens(toks, aliases, ms).missing_opt.len()
            == token_count(toks, true),
    decreases toks.len(),
{
    if toks.len() > 0 {
        lemma_tokens_counted(toks.drop_last(), aliases, ms);
    }
}

/// A disabled monitor is never counted as matched.
pub proof fn lemma_disabled_never_matched(mons: Seq<char>, aliases: Seq<AliasView>, ms: Seq<Monitor>)
    ensures
        forall|i: int|
            0 <= i < compile_spec(mons, aliases, ms).found_req.len() ==> !(
            #[trigger] compile_spec(mons, aliases, ms).found_req[i]).disabled,
        forall|i: int|
            0 <= i < compile_spec(mons, aliases, ms).found_opt.len() ==> !(
            #[trigger] compile_spec(mons, aliases, ms).found_opt[i]).disabled,
{
    lemma_found_enabled(split_spec(mons, ','), aliases, ms);
}

proof fn lemma_found_enabled(toks: Seq<Seq<char>>, aliases: Seq<AliasView>, ms: Seq<Monitor>)
    ensures
        forall|i: int|
            0 <= i < compile_tokens(toks, aliases, ms).found_req.len() ==> !(
            #[trigger] compile_tokens(toks, aliases, ms).found_req[i]).disabled,
        forall|i: int|
            0 <= i < compile_tokens(toks, aliases, ms).found_opt.len() ==> !(
            #[trigger] compile_tokens(toks, aliases, ms).found_opt[i]).disabled,
    decreases toks.len(),
{
    if toks.len() > 0 {
        lemma_found_enabled(toks.drop_last(), aliases, ms);
        let p = compile_tokens(toks.drop_last(), aliases, ms);
        let q = compile_tokens(toks, aliases, ms);
        assert forall|i: int| 0 <= i < q.found_req.len() implies !(#[trigger] q.found_req[i]).disabled by {
            if i < p.found_req.len() {
                assert(q.found_req[i] == p.found_req[i]);
            }
        }
        assert forall|i: int| 0 <= i < q.found_opt.len() implies !(#[trigger] q.found_opt[i]).disabled by {
            if i < p.found_opt.len() {
                assert(q.found_opt[i] == p.found_opt[i]);
            }
        }
    }
}

/// The confidence depends on the three counts alone: scoring two compiled
/// profiles with the same counts gives the same number.
pub proof fn lemma_confidence_deterministic(a: ProfileView, b: ProfileView)
    requires
        a.found_req.len() == b.found_req.len(),
        a.missing_req.len() == b.missing_req.len(),
        a.found_opt.len() == b.found_opt.len(),
    ensures
        profile_confidence(a) == profile_confidence(b),
{
}

} // verus!
