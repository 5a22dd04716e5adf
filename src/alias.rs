//! Aliases: user-declared names that stand for the monitor whose attribute
//! reads a given value, written `<alias>:<specifier>=<value>`.
use vstd::prelude::*;
use crate::monitor::{find_by_field, find_by_id, find_first, field_is, id_is, Field, Monitor};
use crate::text::{i32_text_value, parse_i32, split_on, split_spec, str_eq, views};

verus! {

/// The attribute of a monitor that an alias compares with its value.
#[derive(Debug, Clone, Copy, PartialEq, Eq, Structural)]
pub enum AliasSpecifier {
    Id,
    Name,
    Description,
    Make,
    Model,
    Serial,
}

/// Why an alias declaration was refused.
#[derive(Debug)]
pub enum ConfigAliasError {
    /// The declaration (held here whole) does not have exactly one `:`, or,
    /// after it, exactly one `=`.
    MalformedAlias(String),
    /// The specifier (held here) is none of `id`, `name`, `description`,
    /// `make`, `model`, `serial`.
    UnknownSpecifier(String),
    /// The specifier is `id` and the value (held here) is no `i32`.
    InvalidId(String),
}

pub enum AliasErrorView {
    MalformedAlias(Seq<char>),
    UnknownSpecifier(Seq<char>),
    InvalidId(Seq<char>),
}

impl View for ConfigAliasError {
    type V = AliasErrorView;

    open spec fn view(&self) -> AliasErrorView {
        match self {
            ConfigAliasError::MalformedAlias(s) => AliasErrorView::MalformedAlias(s@),
            ConfigAliasError::UnknownSpecifier(s) => AliasErrorView::UnknownSpecifier(s@),
            ConfigAliasError::InvalidId(s) => AliasErrorView::InvalidId(s@),
        }
    }
}

/// A parsed alias, with the monitor it resolved to in the current snapshot.
pub struct Alias {
    pub name: String,
    pub value: String,
    pub specifier: AliasSpecifier,
    pub matchedmonitor: Option<Monitor>,
}

pub struct AliasView {
    pub name: Seq<char>,
    pub value: Seq<char>,
    pub specifier: AliasSpecifier,
    pub matchedmonitor: Option<Monitor>,
}

impl View for Alias {
    type V = AliasView;

    open spec fn view(&self) -> AliasView {
        AliasView {
            name: self.name@,
            value: self.value@,
            specifier: self.specifier,
            matchedmonitor: self.matchedmonitor,
        }
    }
}

pub open spec fn alias_views(v: Seq<Alias>) -> Seq<AliasView> {
    v.map_values(|a: Alias| a@)
}

/// The specifier that a word names.
pub open spec fn specifier_of(t: Seq<char>) -> Option<AliasSpecifier> {
    if t == "id"@ {
        Some(AliasSpecifier::Id)
    } else if t == "name"@ {
        Some(AliasSpecifier::Name)
    } else if t == "description"@ {
        Some(AliasSpecifier::Description)
    } else if t == "make"@ {
        Some(AliasSpecifier::Make)
    } else if t == "model"@ {
        Some(AliasSpecifier::Model)
    } else if t == "serial"@ {
        Some(AliasSpecifier::Serial)
    } else {
        None
    }
}

pub open spec fn field_for(sp: AliasSpecifier) -> Field {
    match sp {
        AliasSpecifier::Description => Field::Description,
        AliasSpecifier::Make => Field::Make,
        AliasSpecifier::Model => Field::Model,
        AliasSpecifier::Serial => Field::Serial,
        _ => Field::Name,
    }
}

/// The monitor that an alias with specifier `sp` and value `v` resolves to:
/// the first one whose attribute equals the value.
pub open spec fn alias_target(sp: AliasSpecifier, v: Seq<char>, ms: Seq<Monitor>) -> Option<Monitor> {
    if sp == AliasSpecifier::Id {
        match i32_text_value(v) {
            Some(id) => find_first(ms, id_is(id as int)),
            None => None,
        }
    } else {
        find_first(ms, field_is(field_for(sp), v))
    }
}

/// The three parts of `<alias>:<specifier>=<value>`, where `s` has that shape.
pub open spec fn alias_parts(s: Seq<char>) -> Option<(Seq<char>, Seq<char>, Seq<char>)> {
    let p = split_spec(s, ':');
    if p.len() == 2 {
        let q = split_spec(p[1], '=');
        if q.len() == 2 {
            Some((p[0], q[0], q[1]))
        } else {
            None
        }
    } else {
        None
    }
}

/// What parsing the declaration `s` against the snapshot `ms` gives.
pub open spec fn alias_spec(s: Seq<char>, ms: Seq<Monitor>) -> Result<AliasView, AliasErrorView> {
    match alias_parts(s) {
        None => Err(AliasErrorView::MalformedAlias(s)),
        Some((name, sp, value)) => match specifier_of(sp) {
            None => Err(AliasErrorView::UnknownSpecifier(sp)),
            Some(k) => if k == AliasSpecifier::Id && i32_text_value(value) is None {
                Err(AliasErrorView::InvalidId(value))
            } else {
                Ok(
                    AliasView {
                        name,
                        value,
                        specifier: k,
                        matchedmonitor: alias_target(k, value, ms),
                    },
                )
            },
        },
    }
}

/// What resolving all declarations `raw` gives: the first refused
/// declaration's error, or the aliases that matched a monitor, in order; an
/// alias that matches none is left out.
pub open spec fn aliases_spec(raw: Seq<Seq<char>>, ms: Seq<Monitor>) -> Result<
    Seq<AliasView>,
    AliasErrorView,
>
    decreases raw.len(),
{
    if raw.len() == 0 {
        Ok(Seq::empty())
    } else {
        match aliases_spec(raw.drop_last(), ms) {
            Err(e) => Err(e),
            Ok(prev) => match alias_spec(raw.last(), ms) {
                Err(e) => Err(e),
                Ok(a) => Ok(
                    if a.matchedmonitor is Some {
                        prev.push(a)
                    } else {
                        prev
                    },
                ),
            },
        }
    }
}

fn specifier_from(t: &str) -> (r: Option<AliasSpecifier>)
    ensures
        r == specifier_of(t@),
{
    if str_eq(t, "id") {
        Some(AliasSpecifier::Id)
    } else if str_eq(t, "name") {
        Some(AliasSpecifier::Name)
    } else if str_eq(t, "description") {
        Some(AliasSpecifier::Description)
    } else if str_eq(t, "make") {
        Some(AliasSpecifier::Make)
    } else if str_eq(t, "model") {
        Some(AliasSpecifier::Model)
    } else if str_eq(t, "serial") {
        Some(AliasSpecifier::Serial)
    } else {
        None
    }
}

impl Alias {
    /// Parses the declaration `calias` and resolves it against `monitors`.
    pub fn from_configalias(calias: &String, monitors: &[Monitor]) -> (r: Result<
        Alias,
        ConfigAliasError,
    >)
        ensures
            match r {
                Ok(a) => alias_spec(calias@, monitors@) == Ok::<AliasView, AliasErrorView>(a@),
                Err(e) => alias_spec(calias@, monitors@) == Err::<AliasView, AliasErrorView>(e@),
            },
    {
        let parts = split_on(calias.as_str(), ':');
        proof {
            assert(views(parts@).len() == parts@.len());
        }
        if parts.len() != 2 {
            return Err(ConfigAliasError::MalformedAlias(calias.clone()));
        }
        proof {
            assert(views(parts@)[1] == parts@[1]@);
            assert(views(parts@)[0] == parts@[0]@);
        }
        let sv = split_on(parts[1].as_str(), '=');
        proof {
            assert(views(sv@).len() == sv@.len());
        }
        if sv.len() != 2 {
            return Err(ConfigAliasError::MalformedAlias(calias.clone()));
        }
        proof {
            assert(views(sv@)[1] == sv@[1]@);
            assert(views(sv@)[0] == sv@[0]@);
        }
        let k = match specifier_from(sv[0].as_str()) {
            Some(k) => k,
            None => {
                return Err(ConfigAliasError::UnknownSpecifier(sv[0].clone()));
            },
        };
        if k == AliasSpecifier::Id && parse_i32(sv[1].as_str()).is_none() {
            return Err(ConfigAliasError::InvalidId(sv[1].clone()));
        }
        let mut a = Alias {
            name: parts[0].clone(),
            value: sv[1].clone(),
            specifier: k,
            matchedmonitor: None,
        };
        a.matchedmonitor = a.match_mon(monitors);
        Ok(a)
    }

    /// The first monitor whose attribute named by the specifier equals the
    /// value; none for an `id` value that is no `i32`.
    pub fn match_mon(&self, monitors: &[Monitor]) -> (r: Option<Monitor>)
        ensures
            r == alias_target(self.specifier, self.value@, monitors@),
    {
        match self.specifier {
            AliasSpecifier::Id => match parse_i32(self.value.as_str()) {
                Some(id) => find_by_id(monitors, id),
                None => None,
            },
            AliasSpecifier::Name => find_by_field(monitors, Field::Name, self.value.as_str()),
            AliasSpecifier::Description => find_by_field(
                monitors,
                Field::Description,
                self.value.as_str(),
            ),
            AliasSpecifier::Make => find_by_field(monitors, Field::Make, self.value.as_str()),
            AliasSpecifier::Model => find_by_field(monitors, Field::Model, self.value.as_str()),
            AliasSpecifier::Serial => find_by_field(monitors, Field::Serial, self.value.as_str()),
        }
    }
}

/// Parses every declaration of `raw` against `monitors`: the first refused
/// one ends the work with its error; an alias that matches no monitor is
/// dropped without error.
pub fn parse_aliases(raw: &Vec<String>, monitors: &[Monitor]) -> (r: Result<
    Vec<Alias>,
    ConfigAliasError,
>)
    ensures
        match r {
            Ok(v) => aliases_spec(views(raw@), monitors@) == Ok::<Seq<AliasView>, AliasErrorView>(
                alias_views(v@),
            ),
            Err(e) => aliases_spec(views(raw@), monitors@) == Err::<Seq<AliasView>, AliasErrorView>(
                e@,
            ),
        },
{
    let mut out: Vec<Alias> = Vec::new();
    let mut i: usize = 0;
    proof {
        assert(views(raw@.subrange(0, 0)) =~= Seq::<Seq<char>>::empty());
        assert(alias_views(out@) =~= Seq::<AliasView>::empty());
    }
    while i < raw.len()
        invariant
            0 <= i <= raw@.len(),
            aliases_spec(views(raw@.subrange(0, i as int)), monitors@) == Ok::<
                Seq<AliasView>,
                AliasErrorView,
            >(alias_views(out@)),
        decreases raw@.len() - i,
    {
        let ghost pre = views(raw@.subrange(0, i + 1));
        proof {
            assert(pre.drop_last() =~= views(raw@.subrange(0, i as int)));
            assert(pre.last() == raw@[i as int]@);
        }
        match Alias::from_configalias(&raw[i], monitors) {
            Err(e) => {
                proof {
                    assert(aliases_spec(pre, monitors@) == Err::<Seq<AliasView>, AliasErrorView>(e@));
                    lemma_aliases_err_extends(views(raw@), monitors@, i + 1);
                    assert(views(raw@).subrange(0, i + 1) =~= pre);
                }
                return Err(e);
            },
            Ok(a) => {
                if a.matchedmonitor.is_some() {
                    proof {
                        assert(alias_views(out@.push(a)) =~= alias_views(out@).push(a@));
                    }
                    out.push(a);
                }
            },
        }
        i = i + 1;
    }
    proof {
        assert(raw@.subrange(0, i as int) =~= raw@);
    }
    Ok(out)
}

/// Once a prefix of the declarations is refused, so is the whole list, with
/// the same error.
pub proof fn lemma_aliases_err_extends(raw: Seq<Seq<char>>, ms: Seq<Monitor>, k: int)
    requires
        0 <= k <= raw.len(),
        aliases_spec(raw.subrange(0, k), ms) is Err,
    ensures
        aliases_spec(raw, ms) == aliases_spec(raw.subrange(0, k), ms),
    decreases raw.len() - k,
{
    if k < raw.len() {
        let next = raw.subrange(0, k + 1);
        assert(next.drop_last() =~= raw.subrange(0, k));
        lemma_aliases_err_extends(raw, ms, k + 1);
    } else {
        assert(raw.subrange(0, k) =~= raw);
    }
}

/// An alias on a serial number that no monitor has is no error: it parses,
/// matches nothing, and leaves the resolved aliases as they were.
pub proof fn lemma_alias_drop_silent(
    raw: Seq<Seq<char>>,
    s: Seq<char>,
    name: Seq<char>,
    v: Seq<char>,
    ms: Seq<Monitor>,
)
    requires
        alias_parts(s) == Some((name, "serial"@, v)),
        forall|i: int| 0 <= i < ms.len() ==> (#[trigger] ms[i]).serial@ != v,
    ensures
        alias_spec(s, ms) is Ok,
        alias_spec(s, ms)->Ok_0.matchedmonitor is None,
        aliases_spec(raw.push(s), ms) == aliases_spec(raw, ms),
{
    reveal_strlit("serial");
    reveal_strlit("id");
    reveal_strlit("name");
    reveal_strlit("description");
    reveal_strlit("make");
    reveal_strlit("model");
    assert("serial"@ != "id"@) by {
        assert("serial"@.len() != "id"@.len());
    }
    assert("serial"@ != "name"@) by {
        assert("serial"@[0] != "name"@[0]);
    }
    assert("serial"@ != "description"@) by {
        assert("serial"@.len() != "description"@.len());
    }
    assert("serial"@ != "make"@) by {
        assert("serial"@.len() != "make"@.len());
    }
    assert("serial"@ != "model"@) by {
        assert("serial"@[0] != "model"@[0]);
    }
    crate::monitor::lemma_first_index_bounds(ms, field_is(Field::Serial, v));
    assert(raw.push(s).drop_last() =~= raw);
}

} // verus!
