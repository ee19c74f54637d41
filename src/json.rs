use vstd::prelude::*;

verus! {

/// An untyped JSON-like tree, as decoded from a status payload.
///
/// Integers that fit in an `i64` are held as `Int`; every other number
/// (fractions, exponents, very large unsigned values) keeps its text form.
pub enum Json {
    Null,
    Bool(bool),
    Int(i64),
    OtherNumber(String),
    Str(String),
    Array(Vec<Json>),
    Object(Vec<(String, Json)>),
}

/// Index of the first entry whose key is `key`.
pub open spec fn first_key_index(entries: Seq<(String, Json)>, key: Seq<char>) -> Option<int>
    decreases entries.len(),
{
    if entries.len() == 0 {
        None
    } else if entries[0].0@ == key {
        Some(0)
    } else {
        match first_key_index(entries.drop_first(), key) {
            Some(i) => Some(i + 1),
            None => None,
        }
    }
}

/// The value stored under `key` when `j` is an object.
pub open spec fn field_of(j: Json, key: Seq<char>) -> Option<Json> {
    match j {
        Json::Object(entries) => match first_key_index(entries@, key) {
            Some(i) => Some(entries@[i].1),
            None => None,
        },
        _ => None,
    }
}

/// The string held by `j`, if it is one.
pub open spec fn str_of(j: Option<Json>) -> Option<Seq<char>> {
    match j {
        Some(Json::Str(s)) => Some(s@),
        _ => None,
    }
}

/// The value of `j` as a 32-bit integer, the way the document store reads a
/// number: only non-negative integers up to `i32::MAX` qualify.
pub open spec fn i32_of(j: Option<Json>) -> Option<i32> {
    match j {
        Some(Json::Int(v)) => if 0 <= v <= i32::MAX {
            Some(v as i32)
        } else {
            None
        },
        _ => None,
    }
}

pub proof fn lemma_first_key_index_bounds(entries: Seq<(String, Json)>, key: Seq<char>)
    ensures
        match first_key_index(entries, key) {
            Some(i) => 0 <= i < entries.len() && entries[i].0@ == key && forall|j: int|
                0 <= j < i ==> #[trigger] entries[j].0@ != key,
            None => forall|j: int| 0 <= j < entries.len() ==> #[trigger] entries[j].0@ != key,
        },
    decreases entries.len(),
{
    if entries.len() > 0 {
        lemma_first_key_index_bounds(entries.drop_first(), key);
        assert forall|j: int| 1 <= j < entries.len() implies #[trigger] entries[j].0@
            == entries.drop_first()[j - 1].0@ by {}
    }
}

/// The entry at `i` is the first one under `key`.
pub proof fn lemma_first_key_index_is(entries: Seq<(String, Json)>, key: Seq<char>, i: int)
    requires
        0 <= i < entries.len(),
        entries[i].0@ == key,
        forall|j: int| 0 <= j < i ==> #[trigger] entries[j].0@ != key,
    ensures
        first_key_index(entries, key) == Some(i),
{
    lemma_first_key_index_bounds(entries, key);
    match first_key_index(entries, key) {
        Some(k) => {
            if k < i {
                assert(entries[k].0@ != key);
            } else if k > i {
                assert(entries[i].0@ != key);
            }
        },
        None => {
            assert(entries[i].0@ != key);
        },
    }
}

/// Position of the first entry of `entries` under `key`.
pub fn find_key(entries: &Vec<(String, Json)>, key: &String) -> (r: Option<usize>)
    ensures
        match r {
            Some(i) => i < entries@.len() && first_key_index(entries@, key@) == Some(i as int),
            None => first_key_index(entries@, key@) is None,
        },
{
    proof {
        lemma_first_key_index_bounds(entries@, key@);
    }
    let mut i: usize = 0;
    while i < entries.len()
        invariant
            0 <= i <= entries@.len(),
            forall|j: int| 0 <= j < i ==> #[trigger] entries@[j].0@ != key@,
        decreases entries@.len() - i,
    {
        if entries[i].0 == *key {
            proof {
                lemma_first_key_index_is(entries@, key@, i as int);
            }
            return Some(i);
        }
        i = i + 1;
    }
    None
}

/// The value stored under `key` when `j` is an object.
pub fn get_field<'a>(j: &'a Json, key: &String) -> (r: Option<&'a Json>)
    ensures
        match r {
            Some(v) => field_of(*j, key@) == Some(*v),
            None => field_of(*j, key@) is None,
        },
{
    match j {
        Json::Object(entries) => match find_key(entries, key) {
            Some(i) => Some(&entries[i].1),
            None => None,
        },
        _ => None,
    }
}

/// The string under `key`, or the empty string when there is none.
pub fn get_str_or_empty(j: &Json, key: &String) -> (r: String)
    ensures
        r@ == match str_of(field_of(*j, key@)) {
            Some(s) => s,
            None => Seq::<char>::empty(),
        },
{
    match get_field(j, key) {
        Some(Json::Str(s)) => s.clone(),
        _ => String::new(),
    }
}

/// The 32-bit integer under `key`, or zero when there is none.
pub fn get_i32_or_zero(j: &Json, key: &String) -> (r: i32)
    ensures
        r == match i32_of(field_of(*j, key@)) {
            Some(v) => v,
            None => 0,
        },
{
    match get_field(j, key) {
        Some(Json::Int(v)) => if 0 <= *v && *v <= i32::MAX as i64 {
            *v as i32
        } else {
            0
        },
        _ => 0,
    }
}

} // verus!
