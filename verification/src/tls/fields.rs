//! The decoded fields of a handshake message: an ordered list of named values.
use vstd::prelude::*;

use crate::text::str_eq;

verus! {

/// One decoded value: text, an unsigned number, a flag, or an object whose
/// members are text.
#[derive(Debug)]
pub enum FieldValue {
    Text(String),
    Number(u64),
    Flag(bool),
    Object(Vec<(String, String)>),
}

/// The mathematical model of a [`FieldValue`].
pub enum FieldValueView {
    Text(Seq<char>),
    Number(u64),
    Flag(bool),
    Object(Seq<(Seq<char>, Seq<char>)>),
}

/// The model of a list of text pairs.
pub open spec fn pairs_view(v: Seq<(String, String)>) -> Seq<(Seq<char>, Seq<char>)> {
    v.map_values(|e: (String, String)| (e.0@, e.1@))
}

impl View for FieldValue {
    type V = FieldValueView;

    open spec fn view(&self) -> FieldValueView {
        match self {
            FieldValue::Text(s) => FieldValueView::Text(s@),
            FieldValue::Number(n) => FieldValueView::Number(*n),
            FieldValue::Flag(b) => FieldValueView::Flag(*b),
            FieldValue::Object(v) => FieldValueView::Object(pairs_view(v@)),
        }
    }
}

/// Named values in the order they were decoded. A lookup finds the first
/// entry with the key.
#[derive(Debug)]
pub struct FieldMap {
    pub entries: Vec<(String, FieldValue)>,
}

/// The model of the entries of a [`FieldMap`].
pub open spec fn entries_view(v: Seq<(String, FieldValue)>) -> Seq<(Seq<char>, FieldValueView)> {
    v.map_values(|e: (String, FieldValue)| (e.0@, e.1@))
}

impl View for FieldMap {
    type V = Seq<(Seq<char>, FieldValueView)>;

    open spec fn view(&self) -> Seq<(Seq<char>, FieldValueView)> {
        entries_view(self.entries@)
    }
}

/// No two entries share a name, as with the keys of a map.
pub open spec fn distinct_keys(m: Seq<(Seq<char>, FieldValueView)>) -> bool {
    forall|i: int, j: int| 0 <= i < j < m.len() ==> #[trigger] m[i].0 != #[trigger] m[j].0
}

/// Entries whose names differ in length pairwise name no field twice; the
/// indices are split into cases so that a short literal list can be checked.
pub proof fn lemma_distinct_by_length(m: Seq<(Seq<char>, FieldValueView)>)
    requires
        m.len() <= 7,
        forall|i: int, j: int|
            0 <= i < j < m.len() && (i == 0 || i == 1 || i == 2 || i == 3 || i == 4 || i == 5)
                && (j == 1 || j == 2 || j == 3 || j == 4 || j == 5 || j == 6) ==> m[i].0.len()
                != m[j].0.len(),
    ensures
        distinct_keys(m),
{
    assert forall|i: int, j: int| 0 <= i < j < m.len() implies #[trigger] m[i].0 != #[trigger] m[j].0 by {
        assert(i == 0 || i == 1 || i == 2 || i == 3 || i == 4 || i == 5);
        assert(j == 1 || j == 2 || j == 3 || j == 4 || j == 5 || j == 6);
        assert(m[i].0.len() != m[j].0.len());
    }
}

/// The value of the first entry named `key`, searching from position `from`.
pub open spec fn lookup_from(m: Seq<(Seq<char>, FieldValueView)>, key: Seq<char>, from: int) -> Option<
    FieldValueView,
>
    decreases m.len() - from,
{
    if from < 0 || from >= m.len() {
        None
    } else if m[from].0 == key {
        Some(m[from].1)
    } else {
        lookup_from(m, key, from + 1)
    }
}

/// The value of the first entry named `key`.
pub open spec fn lookup(m: Seq<(Seq<char>, FieldValueView)>, key: Seq<char>) -> Option<FieldValueView> {
    lookup_from(m, key, 0)
}

/// The member named `key` of an object, the first one if several.
pub open spec fn member_lookup_from(m: Seq<(Seq<char>, Seq<char>)>, key: Seq<char>, from: int) -> Option<
    Seq<char>,
>
    decreases m.len() - from,
{
    if from < 0 || from >= m.len() {
        None
    } else if m[from].0 == key {
        Some(m[from].1)
    } else {
        member_lookup_from(m, key, from + 1)
    }
}

/// A copy of a text pair list.
pub fn copy_pairs(v: &Vec<(String, String)>) -> (r: Vec<(String, String)>)
    ensures
        pairs_view(r@) == pairs_view(v@),
{
    let mut r: Vec<(String, String)> = Vec::new();
    let mut i: usize = 0;
    while i < v.len()
        invariant
            i <= v@.len(),
            r@.len() == i,
            forall|j: int| 0 <= j < i ==> r@[j].0@ == v@[j].0@ && r@[j].1@ == v@[j].1@,
        decreases v@.len() - i,
    {
        let a = v[i].0.clone();
        let b = v[i].1.clone();
        r.push((a, b));
        i = i + 1;
    }
    assert(pairs_view(r@) =~= pairs_view(v@));
    r
}

impl FieldValue {
    /// A copy with the same model.
    pub fn duplicate(&self) -> (r: FieldValue)
        ensures
            r@ == self@,
    {
        match self {
            FieldValue::Text(s) => FieldValue::Text(s.clone()),
            FieldValue::Number(n) => FieldValue::Number(*n),
            FieldValue::Flag(b) => FieldValue::Flag(*b),
            FieldValue::Object(v) => FieldValue::Object(copy_pairs(v)),
        }
    }

    /// The number, when this value is a number (`Value::as_u64`).
    pub fn as_u64(&self) -> (r: Option<u64>)
        ensures
            r == (match self@ {
                FieldValueView::Number(n) => Some(n),
                _ => None,
            }),
    {
        match self {
            FieldValue::Number(n) => Some(*n),
            _ => None,
        }
    }

    /// The text, when this value is text (`Value::as_str`).
    pub fn as_text(&self) -> (r: Option<&String>)
        ensures
            r matches Some(s) ==> self@ == FieldValueView::Text(s@),
            r is None ==> !(self@ is Text),
    {
        match self {
            FieldValue::Text(s) => Some(s),
            _ => None,
        }
    }

    /// The member `key` of an object value, when this value is an object holding one.
    pub fn member(&self, key: &str) -> (r: Option<&String>)
        ensures
            r matches Some(s) ==> self@ is Object && member_lookup_from(self@->Object_0, key@, 0)
                == Some(s@),
            r is None ==> !(self@ is Object) || member_lookup_from(self@->Object_0, key@, 0)
                is None,
    {
        match self {
            FieldValue::Object(v) => {
                let mut i: usize = 0;
                while i < v.len()
                    invariant
                        i <= v@.len(),
                        self@ == FieldValueView::Object(pairs_view(v@)),
                        member_lookup_from(pairs_view(v@), key@, 0) == member_lookup_from(
                            pairs_view(v@),
                            key@,
                            i as int,
                        ),
                    decreases v@.len() - i,
                {
                    if str_eq(v[i].0.as_str(), key) {
                        return Some(&v[i].1);
                    }
                    i = i + 1;
                }
                None
            },
            _ => None,
        }
    }
}

impl FieldMap {
    /// An empty list of fields.
    pub fn new() -> (r: FieldMap)
        ensures
            r@ == Seq::<(Seq<char>, FieldValueView)>::empty(),
    {
        let r = FieldMap { entries: Vec::new() };
        assert(r@ =~= Seq::<(Seq<char>, FieldValueView)>::empty());
        r
    }

    /// Appends the entry `key` = `value`.
    pub fn push(&mut self, key: &str, value: FieldValue)
        ensures
            final(self)@ == old(self)@.push((key@, value@)),
    {
        self.entries.push((key.to_string(), value));
        assert(self@ =~= old(self)@.push((key@, value@)));
    }

    /// Number of entries.
    pub fn len(&self) -> (r: usize)
        ensures
            r == self@.len(),
    {
        self.entries.len()
    }

    /// The value of the first entry named `key` (`HashMap::get`).
    pub fn get(&self, key: &str) -> (r: Option<&FieldValue>)
        ensures
            r matches Some(v) ==> lookup(self@, key@) == Some(v@),
            r is None ==> lookup(self@, key@) is None,
    {
        let mut i: usize = 0;
        while i < self.entries.len()
            invariant
                i <= self.entries@.len(),
                lookup(self@, key@) == lookup_from(self@, key@, i as int),
            decreases self.entries@.len() - i,
        {
            if str_eq(self.entries[i].0.as_str(), key) {
                return Some(&self.entries[i].1);
            }
            i = i + 1;
        }
        None
    }

    /// Whether some entry is named `key` (`HashMap::contains_key`).
    pub fn contains_key(&self, key: &str) -> (r: bool)
        ensures
            r == (lookup(self@, key@) is Some),
    {
        self.get(key).is_some()
    }

    /// A copy with the same model.
    pub fn duplicate(&self) -> (r: FieldMap)
        ensures
            r@ == self@,
    {
        let mut out: Vec<(String, FieldValue)> = Vec::new();
        let mut i: usize = 0;
        while i < self.entries.len()
            invariant
                i <= self.entries@.len(),
                out@.len() == i,
                forall|j: int|
                    0 <= j < i ==> out@[j].0@ == self.entries@[j].0@ && out@[j].1@
                        == self.entries@[j].1@,
            decreases self.entries@.len() - i,
        {
            let k = self.entries[i].0.clone();
            let v = self.entries[i].1.duplicate();
            out.push((k, v));
            i = i + 1;
        }
        let r = FieldMap { entries: out };
        assert(r@ =~= self@);
        r
    }
}

} // verus!
