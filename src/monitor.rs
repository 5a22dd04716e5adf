//! The monitor snapshot: the outputs that the compositor reports, and lookups
//! in it.
use vstd::prelude::*;

verus! {

/// One output as reported by the compositor's monitor query, reduced to the
/// attributes that the matching reads.
pub struct Monitor {
    pub id: i32,
    pub name: String,
    pub description: String,
    pub make: String,
    pub model: String,
    pub serial: String,
    pub disabled: bool,
}

impl Clone for Monitor {
    fn clone(&self) -> (r: Self)
        ensures
            r == *self,
    {
        Monitor {
            id: self.id,
            name: self.name.clone(),
            description: self.description.clone(),
            make: self.make.clone(),
            model: self.model.clone(),
            serial: self.serial.clone(),
            disabled: self.disabled,
        }
    }
}

/// The index of the first element of `s` that satisfies `p`, or `s.len()`
/// where none does.
pub open spec fn first_index<A>(s: Seq<A>, p: spec_fn(A) -> bool) -> int
    decreases s.len(),
{
    if s.len() == 0 {
        0
    } else if p(s[0]) {
        0
    } else {
        1 + first_index(s.drop_first(), p)
    }
}

/// The first index is the one before which nothing satisfies `p` and at which
/// `p` holds, or the end.
pub proof fn lemma_first_index<A>(s: Seq<A>, p: spec_fn(A) -> bool, i: int)
    requires
        0 <= i <= s.len(),
        forall|j: int| 0 <= j < i ==> !p(#[trigger] s[j]),
        i == s.len() || p(s[i]),
    ensures
        first_index(s, p) == i,
    decreases s.len(),
{
    if s.len() > 0 && i > 0 {
        assert(!p(s[0]));
        let t = s.drop_first();
        assert forall|j: int| 0 <= j < i - 1 implies !p(#[trigger] t[j]) by {
            assert(t[j] == s[j + 1]);
        }
        if i < s.len() {
            assert(t[i - 1] == s[i]);
        }
        lemma_first_index(t, p, i - 1);
    }
}

/// The first index satisfying `p` is within bounds, and nothing before it
/// satisfies `p`.
pub proof fn lemma_first_index_bounds<A>(s: Seq<A>, p: spec_fn(A) -> bool)
    ensures
        0 <= first_index(s, p) <= s.len(),
        first_index(s, p) < s.len() ==> p(s[first_index(s, p)]),
        forall|j: int| 0 <= j < first_index(s, p) ==> !p(#[trigger] s[j]),
    decreases s.len(),
{
    if s.len() > 0 && !p(s[0]) {
        let t = s.drop_first();
        lemma_first_index_bounds(t, p);
        assert forall|j: int| 0 <= j < first_index(s, p) implies !p(#[trigger] s[j]) by {
            if j > 0 {
                assert(s[j] == t[j - 1]);
            }
        }
    }
}

/// The first element of `s` that satisfies `p`, if any.
pub open spec fn find_first<A>(s: Seq<A>, p: spec_fn(A) -> bool) -> Option<A> {
    let k = first_index(s, p);
    if 0 <= k < s.len() {
        Some(s[k])
    } else {
        None
    }
}

/// A snapshot of the connected monitors, in the order the compositor gave.
pub struct MonList {
    pub monitors: Vec<Monitor>,
}

/// The attribute of a monitor that a lookup compares.
#[derive(Clone, Copy)]
pub enum Field {
    Name,
    Description,
    Make,
    Model,
    Serial,
}

pub open spec fn field_of(m: Monitor, f: Field) -> Seq<char> {
    match f {
        Field::Name => m.name@,
        Field::Description => m.description@,
        Field::Make => m.make@,
        Field::Model => m.model@,
        Field::Serial => m.serial@,
    }
}

/// The predicate "the monitor's field `f` reads `v`".
pub open spec fn field_is(f: Field, v: Seq<char>) -> spec_fn(Monitor) -> bool {
    |m: Monitor| field_of(m, f) == v
}

/// The predicate "the monitor's id is `id`".
pub open spec fn id_is(id: int) -> spec_fn(Monitor) -> bool {
    |m: Monitor| m.id as int == id
}

fn field_ref(m: &Monitor, f: Field) -> (r: &String)
    ensures
        r@ == field_of(*m, f),
{
    match f {
        Field::Name => &m.name,
        Field::Description => &m.description,
        Field::Make => &m.make,
        Field::Model => &m.model,
        Field::Serial => &m.serial,
    }
}

/// The first monitor of `ms` whose field `f` reads `v`.
pub fn find_by_field(ms: &[Monitor], f: Field, v: &str) -> (r: Option<Monitor>)
    ensures
        r == find_first(ms@, field_is(f, v@)),
{
    let ghost p = field_is(f, v@);
    let mut i: usize = 0;
    while i < ms.len()
        invariant
            0 <= i <= ms@.len(),
            p == field_is(f, v@),
            forall|j: int| 0 <= j < i ==> !p(#[trigger] ms@[j]),
        decreases ms@.len() - i,
    {
        if crate::text::str_eq(field_ref(&ms[i], f).as_str(), v) {
            proof {
                lemma_first_index(ms@, p, i as int);
            }
            return Some(ms[i].clone());
        }
        i = i + 1;
    }
    proof {
        lemma_first_index(ms@, p, i as int);
    }
    None
}

/// The first monitor of `ms` with the id `id`.
pub fn find_by_id(ms: &[Monitor], id: i32) -> (r: Option<Monitor>)
    ensures
        r == find_first(ms@, id_is(id as int)),
{
    let ghost p = id_is(id as int);
    let mut i: usize = 0;
    while i < ms.len()
        invariant
            0 <= i <= ms@.len(),
            p == id_is(id as int),
            forall|j: int| 0 <= j < i ==> !p(#[trigger] ms@[j]),
        decreases ms@.len() - i,
    {
        if ms[i].id == id {
            proof {
                lemma_first_index(ms@, p, i as int);
            }
            return Some(ms[i].clone());
        }
        i = i + 1;
    }
    proof {
        lemma_first_index(ms@, p, i as int);
    }
    None
}

#[allow(non_snake_case)]
impl MonList {
    /// The first monitor with the id `id`.
    pub fn findById(&self, id: i32) -> (r: Option<Monitor>)
        ensures
            r == find_first(self.monitors@, id_is(id as int)),
    {
        find_by_id(self.monitors.as_slice(), id)
    }

    /// The first monitor with the name `name`.
    pub fn findByName(&self, name: &str) -> (r: Option<Monitor>)
        ensures
            r == find_first(self.monitors@, field_is(Field::Name, name@)),
    {
        find_by_field(self.monitors.as_slice(), Field::Name, name)
    }

    /// The first monitor with the model `name`.
    pub fn findByModel(&self, name: &str) -> (r: Option<Monitor>)
        ensures
            r == find_first(self.monitors@, field_is(Field::Model, name@)),
    {
        find_by_field(self.monitors.as_slice(), Field::Model, name)
    }

    /// The first monitor with the make `name`.
    pub fn findByMake(&self, name: &str) -> (r: Option<Monitor>)
        ensures
            r == find_first(self.monitors@, field_is(Field::Make, name@)),
    {
        find_by_field(self.monitors.as_slice(), Field::Make, name)
    }

    /// The first monitor with the serial number `name`.
    pub fn findBySerial(&self, name: &str) -> (r: Option<Monitor>)
        ensures
            r == find_first(self.monitors@, field_is(Field::Serial, name@)),
    {
        find_by_field(self.monitors.as_slice(), Field::Serial, name)
    }

    /// The first monitor with the description `name`.
    pub fn findByDescription(&self, name: &str) -> (r: Option<Monitor>)
        ensures
            r == find_first(self.monitors@, field_is(Field::Description, name@)),
    {
        find_by_field(self.monitors.as_slice(), Field::Description, name)
    }
}

} // verus!
