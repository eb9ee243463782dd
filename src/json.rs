use vstd::prelude::*;
use crate::text::same_text;

verus! {

broadcast use vstd::std_specs::vec::group_vec_axioms;

/// A JSON-like value, as held in attribute maps and span payloads.
///
/// Integers that fit in `i64` are held as `Int`; every other number is held
/// by its JSON text in `Num`. Objects keep their entries in order; where a key
/// occurs twice, the later entry is the one that counts.
pub enum Json {
    Null,
    Bool(bool),
    Int(i64),
    Num(String),
    Str(String),
    Array(Vec<Json>),
    Object(Vec<(String, Json)>),
}

/// The mathematical model of a [`Json`] value.
pub enum JsonModel {
    Null,
    Bool(bool),
    Int(i64),
    Num(Seq<char>),
    Str(Seq<char>),
    Array(Seq<JsonModel>),
    Object(Seq<(Seq<char>, JsonModel)>),
}

impl Json {
    pub open spec fn view(&self) -> JsonModel
        decreases self,
    {
        match self {
            Json::Null => JsonModel::Null,
            Json::Bool(b) => JsonModel::Bool(*b),
            Json::Int(n) => JsonModel::Int(*n),
            Json::Num(t) => JsonModel::Num(t@),
            Json::Str(s) => JsonModel::Str(s@),
            Json::Array(items) => JsonModel::Array(items_model(items@)),
            Json::Object(entries) => JsonModel::Object(entries_model(entries@)),
        }
    }
}

/// The models of a sequence of values.
pub open spec fn items_model(s: Seq<Json>) -> Seq<JsonModel>
    decreases s,
{
    if s.len() == 0 {
        Seq::empty()
    } else {
        items_model(s.drop_last()).push(s.last()@)
    }
}

/// The models of a sequence of object entries.
pub open spec fn entries_model(s: Seq<(String, Json)>) -> Seq<(Seq<char>, JsonModel)>
    decreases s,
{
    if s.len() == 0 {
        Seq::empty()
    } else {
        entries_model(s.drop_last()).push((s.last().0@, s.last().1@))
    }
}


/// The value that `s` gives to key `k`: that of the last entry with that key.
pub open spec fn lookup(s: Seq<(Seq<char>, JsonModel)>, k: Seq<char>) -> Option<JsonModel>
    decreases s.len(),
{
    if s.len() == 0 {
        None
    } else if s.last().0 == k {
        Some(s.last().1)
    } else {
        lookup(s.drop_last(), k)
    }
}

/// The map from keys to values that a sequence of entries stands for.
pub open spec fn map_of(s: Seq<(Seq<char>, JsonModel)>) -> Map<Seq<char>, JsonModel> {
    Map::new(|k: Seq<char>| lookup(s, k) is Some, |k: Seq<char>| lookup(s, k)->0)
}

/// The map that a vector of object entries stands for.
pub open spec fn object_map(entries: Seq<(String, Json)>) -> Map<Seq<char>, JsonModel> {
    map_of(entries_model(entries))
}

pub proof fn lemma_entries_model_index(s: Seq<(String, Json)>)
    ensures
        entries_model(s).len() == s.len(),
        forall|j: int|
            0 <= j < s.len() ==> #[trigger] entries_model(s)[j] == (s[j].0@, s[j].1@),
    decreases s.len(),
{
    if s.len() > 0 {
        lemma_entries_model_index(s.drop_last());
    }
}

pub proof fn lemma_items_model_index(s: Seq<Json>)
    ensures
        items_model(s).len() == s.len(),
        forall|j: int| 0 <= j < s.len() ==> #[trigger] items_model(s)[j] == s[j]@,
    decreases s.len(),
{
    if s.len() > 0 {
        lemma_items_model_index(s.drop_last());
    }
}

pub proof fn lemma_lookup_last(m: Seq<(Seq<char>, JsonModel)>, k: Seq<char>, j: int)
    requires
        0 <= j < m.len(),
        m[j].0 == k,
        forall|i: int| j < i < m.len() ==> m[i].0 != k,
    ensures
        lookup(m, k) == Some(m[j].1),
    decreases m.len(),
{
    if j < m.len() - 1 {
        lemma_lookup_last(m.drop_last(), k, j);
    }
}

pub proof fn lemma_lookup_absent(m: Seq<(Seq<char>, JsonModel)>, k: Seq<char>)
    requires
        forall|i: int| 0 <= i < m.len() ==> m[i].0 != k,
    ensures
        lookup(m, k) is None,
    decreases m.len(),
{
    if m.len() > 0 {
        lemma_lookup_absent(m.drop_last(), k);
    }
}

pub proof fn lemma_lookup_update(
    m: Seq<(Seq<char>, JsonModel)>,
    i: int,
    e: (Seq<char>, JsonModel),
    k: Seq<char>,
)
    requires
        0 <= i < m.len(),
        m[i].0 != k,
        e.0 != k,
    ensures
        lookup(m.update(i, e), k) == lookup(m, k),
    decreases m.len(),
{
    if i < m.len() - 1 {
        assert(m.update(i, e).drop_last() =~= m.drop_last().update(i, e));
        lemma_lookup_update(m.drop_last(), i, e, k);
    } else {
        assert(m.update(i, e).drop_last() =~= m.drop_last());
    }
}

pub proof fn lemma_lookup_push(m: Seq<(Seq<char>, JsonModel)>, e: (Seq<char>, JsonModel), k: Seq<char>)
    ensures
        lookup(m.push(e), k) == if e.0 == k {
            Some(e.1)
        } else {
            lookup(m, k)
        },
{
    assert(m.push(e).drop_last() =~= m);
}

pub proof fn lemma_lookup_prefix(m: Seq<(Seq<char>, JsonModel)>, i: int, k: Seq<char>)
    requires
        0 < i <= m.len(),
    ensures
        lookup(m.subrange(0, i), k) == if m[i - 1].0 == k {
            Some(m[i - 1].1)
        } else {
            lookup(m.subrange(0, i - 1), k)
        },
{
    assert(m.subrange(0, i).drop_last() =~= m.subrange(0, i - 1));
}

impl Json {
    /// A copy of this value.
    pub fn deep_copy(&self) -> (r: Json)
        ensures
            r@ == self@,
        decreases self,
    {
        match self {
            Json::Null => Json::Null,
            Json::Bool(b) => Json::Bool(*b),
            Json::Int(n) => Json::Int(*n),
            Json::Num(t) => Json::Num(t.clone()),
            Json::Str(s) => Json::Str(s.clone()),
            Json::Array(items) => {
                let mut out: Vec<Json> = Vec::new();
                let mut i: usize = 0;
                while i < items.len()
                    invariant
                        i <= items.len(),
                        *self == Json::Array(*items),
                        items_model(out@) == items_model(items@.subrange(0, i as int)),
                    decreases items.len() - i,
                {
                    proof {
                        assert(decreases_to!(items => items[i as int]));
                    }
                    proof {
                        vstd::std_specs::vec::axiom_vec_index_decreases(*items, i as int);
                        assert(decreases_to!(*self => (*self)->Array_0));
                        assert(decreases_to!(*self => items[i as int]));
                    }
                    let c = items[i].deep_copy();
                    proof {
                        assert(out@.push(c).drop_last() =~= out@);
                        assert(items@.subrange(0, i + 1).drop_last() =~= items@.subrange(0, i as int));
                    }
                    out.push(c);
                    i = i + 1;
                }
                assert(items@.subrange(0, items.len() as int) =~= items@);
                Json::Array(out)
            },
            Json::Object(entries) => {
                let mut out: Vec<(String, Json)> = Vec::new();
                let mut i: usize = 0;
                while i < entries.len()
                    invariant
                        i <= entries.len(),
                        *self == Json::Object(*entries),
                        entries_model(out@) == entries_model(entries@.subrange(0, i as int)),
                    decreases entries.len() - i,
                {
                    proof {
                        assert(decreases_to!(entries => entries[i as int]));
                    }
                    proof {
                        vstd::std_specs::vec::axiom_vec_index_decreases(*entries, i as int);
                        assert(decreases_to!(*self => (*self)->Object_0));
                        assert(decreases_to!(*entries => entries[i as int]));
                        assert(decreases_to!(entries[i as int] => entries[i as int].1));
                        assert(decreases_to!(*self => entries[i as int].1));
                    }
                    let c = entries[i].1.deep_copy();
                    let e = (entries[i].0.clone(), c);
                    proof {
                        assert(out@.push(e).drop_last() =~= out@);
                        assert(entries@.subrange(0, i + 1).drop_last() =~= entries@.subrange(0, i as int));
                    }
                    out.push(e);
                    i = i + 1;
                }
                assert(entries@.subrange(0, entries.len() as int) =~= entries@);
                Json::Object(out)
            },
        }
    }
}

/// The index of the entry that gives `key` its value, if any.
pub fn object_find(entries: &Vec<(String, Json)>, key: &str) -> (r: Option<usize>)
    ensures
        match r {
            Some(i) => {
                &&& i < entries.len()
                &&& entries@[i as int].0@ == key@
                &&& lookup(entries_model(entries@), key@) == Some(entries@[i as int].1@)
                &&& forall|j: int| i < j < entries.len() ==> entries@[j].0@ != key@
            },
            None => lookup(entries_model(entries@), key@) is None,
        },
{
    proof {
        lemma_entries_model_index(entries@);
    }
    let ghost m = entries_model(entries@);
    let mut i: usize = entries.len();
    while i > 0
        invariant
            i <= entries.len(),
            m == entries_model(entries@),
            m.len() == entries.len(),
            forall|j: int| 0 <= j < m.len() ==> #[trigger] m[j] == (entries@[j].0@, entries@[j].1@),
            forall|j: int| i <= j < m.len() ==> m[j].0 != key@,
        decreases i,
    {
        if same_text(entries[i - 1].0.as_str(), key) {
            proof {
                lemma_lookup_last(m, key@, i - 1);
                assert forall|j: int| i - 1 < j < entries.len() implies entries@[j].0@ != key@ by {
                    assert(m[j] == (entries@[j].0@, entries@[j].1@));
                }
            }
            return Some(i - 1);
        }
        i = i - 1;
    }
    proof {
        lemma_lookup_absent(m, key@);
    }
    None
}

/// The value that the entries give to `key`, if any.
pub fn object_get<'a>(entries: &'a Vec<(String, Json)>, key: &str) -> (r: Option<&'a Json>)
    ensures
        match r {
            Some(v) => object_map(entries@).contains_key(key@) && object_map(entries@)[key@] == v@,
            None => !object_map(entries@).contains_key(key@),
        },
{
    match object_find(entries, key) {
        Some(i) => Some(&entries[i].1),
        None => None,
    }
}

/// Gives `key` the value `value`, in place of any value it had.
pub fn object_insert(entries: &mut Vec<(String, Json)>, key: String, value: Json)
    ensures
        object_map(final(entries)@) == object_map(old(entries)@).insert(key@, value@),
{
    let ghost k = key@;
    let ghost e = (key@, value@);
    let ghost m = entries_model(entries@);
    proof {
        lemma_entries_model_index(entries@);
    }
    match object_find(entries, key.as_str()) {
        Some(i) => {
            entries.set(i, (key, value));
            proof {
                lemma_entries_model_index(entries@);
                let m2 = entries_model(entries@);
                assert(m2 =~= m.update(i as int, e));
                assert forall|k2: Seq<char>| k2 != k implies lookup(m2, k2) == lookup(m, k2) by {
                    lemma_lookup_update(m, i as int, e, k2);
                }
                lemma_lookup_last(m2, k, i as int);
                assert(object_map(entries@) =~= object_map(old(entries)@).insert(k, value@));
            }
        },
        None => {
            entries.push((key, value));
            proof {
                lemma_entries_model_index(entries@);
                let m2 = entries_model(entries@);
                assert(m2 =~= m.push(e));
                assert forall|k2: Seq<char>| true implies lookup(m2, k2) == (if k2 == k { Some(e.1) } else { lookup(m, k2) }) by {
                    lemma_lookup_push(m, e, k2);
                }
                assert(object_map(entries@) =~= object_map(old(entries)@).insert(k, value@));
            }
        },
    }
}

/// A copy of a vector of object entries.
pub fn copy_entries(entries: &Vec<(String, Json)>) -> (r: Vec<(String, Json)>)
    ensures
        entries_model(r@) == entries_model(entries@),
{
    let mut out: Vec<(String, Json)> = Vec::new();
    let mut i: usize = 0;
    while i < entries.len()
        invariant
            i <= entries.len(),
            entries_model(out@) == entries_model(entries@.subrange(0, i as int)),
        decreases entries.len() - i,
    {
        let e = (entries[i].0.clone(), entries[i].1.deep_copy());
        proof {
            assert(out@.push(e).drop_last() =~= out@);
            assert(entries@.subrange(0, i + 1).drop_last() =~= entries@.subrange(0, i as int));
        }
        out.push(e);
        i = i + 1;
    }
    assert(entries@.subrange(0, entries.len() as int) =~= entries@);
    out
}

} // verus!
