use vstd::prelude::*;

verus! {

/// A JSON value as the library handles it. Numbers that fit an `i64` are kept
/// as integers; any other number is kept by its text.
pub enum Json {
    Null,
    Bool(bool),
    Int(i64),
    Num(String),
    Str(String),
    Arr(Vec<Json>),
    Obj(Vec<(String, Json)>),
}

/// The value under `key` in the fields `fs`: that of the first field so named.
pub open spec fn lookup(fs: Seq<(String, Json)>, key: Seq<char>) -> Option<Json>
    decreases fs.len(),
{
    if fs.len() == 0 {
        None
    } else if fs[0].0@ == key {
        Some(fs[0].1)
    } else {
        lookup(fs.drop_first(), key)
    }
}

/// The value under `key`, where `v` is an object.
pub open spec fn field(v: Json, key: Seq<char>) -> Option<Json> {
    match v {
        Json::Obj(fs) => lookup(fs@, key),
        _ => None,
    }
}

/// The element at `i`, where `v` is an array long enough.
pub open spec fn element(v: Json, i: int) -> Option<Json> {
    match v {
        Json::Arr(items) => if 0 <= i < items@.len() {
            Some(items@[i])
        } else {
            None
        },
        _ => None,
    }
}

/// Whether `v` is the string `t`.
pub open spec fn is_text(v: Json, t: Seq<char>) -> bool {
    v is Str && v->Str_0@ == t
}

impl Json {
    /// The value under `key`, where `self` is an object.
    pub fn get(&self, key: &str) -> (r: Option<&Json>)
        ensures
            r is Some <==> field(*self, key@) is Some,
            r is Some ==> *r->Some_0 == field(*self, key@)->Some_0,
    {
        match self {
            Json::Obj(fields) => {
                let k = key.to_owned();
                let mut i: usize = 0;
                assert(fields@.subrange(0, fields@.len() as int) =~= fields@);
                while i < fields.len()
                    invariant
                        k@ == key@,
                        i <= fields@.len(),
                        *self == Json::Obj(*fields),
                        lookup(fields@, key@) == lookup(
                            fields@.subrange(i as int, fields@.len() as int),
                            key@,
                        ),
                    decreases fields@.len() - i,
                {
                    let ghost rest = fields@.subrange(i as int, fields@.len() as int);
                    if fields[i].0 == k {
                        return Some(&fields[i].1);
                    }
                    assert(rest.drop_first() =~= fields@.subrange(i + 1, fields@.len() as int));
                    i = i + 1;
                }
                None
            },
            _ => None,
        }
    }

    /// The element at `i`, where `self` is an array long enough.
    pub fn at(&self, i: usize) -> (r: Option<&Json>)
        ensures
            r is Some <==> element(*self, i as int) is Some,
            r is Some ==> *r->Some_0 == element(*self, i as int)->Some_0,
    {
        match self {
            Json::Arr(items) => {
                if i < items.len() {
                    Some(&items[i])
                } else {
                    None
                }
            },
            _ => None,
        }
    }

    /// The text, where `self` is a string.
    pub fn as_str(&self) -> (r: Option<&String>)
        ensures
            r is Some <==> *self is Str,
            r is Some ==> r->Some_0@ == self->Str_0@,
    {
        match self {
            Json::Str(t) => Some(t),
            _ => None,
        }
    }

    /// The integer, where `self` is one.
    pub fn as_i64(&self) -> (r: Option<i64>)
        ensures
            r is Some <==> *self is Int,
            r is Some ==> r->Some_0 == self->Int_0,
    {
        match self {
            Json::Int(n) => Some(*n),
            _ => None,
        }
    }
}

} // verus!
