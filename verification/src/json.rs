//! A JSON document as the library reads it: manifests, payloads stored with a pending
//! interaction, platform replies. Text is turned into a `Json` by the caller; the
//! functions here read fields out of it.

use vstd::prelude::*;

use crate::text::{str_eq, trim};

verus! {

/// A JSON value. Numbers keep what the readers use: non-negative integers, negative
/// integers, and the fact that a number is fractional.
#[derive(Debug)]
pub enum Json {
    Null,
    Bool(bool),
    UInt(u64),
    Int(i64),
    Float,
    Str(String),
    Array(Vec<Json>),
    Object(Vec<(String, Json)>),
}

/// The mathematical shape of a JSON value.
pub enum JsonView {
    Null,
    Bool(bool),
    UInt(u64),
    Int(i64),
    Float,
    Str(Seq<char>),
    Array(Seq<JsonView>),
    Object(Seq<(Seq<char>, JsonView)>),
}

pub open spec fn jview(j: Json) -> JsonView
    decreases j,
{
    match j {
        Json::Null => JsonView::Null,
        Json::Bool(b) => JsonView::Bool(b),
        Json::UInt(n) => JsonView::UInt(n),
        Json::Int(n) => JsonView::Int(n),
        Json::Float => JsonView::Float,
        Json::Str(s) => JsonView::Str(s@),
        Json::Array(v) => JsonView::Array(jviews(v@)),
        Json::Object(v) => JsonView::Object(jentries(v@)),
    }
}

pub open spec fn jviews(s: Seq<Json>) -> Seq<JsonView>
    decreases s,
{
    if s.len() == 0 {
        Seq::empty()
    } else {
        jviews(s.drop_last()).push(jview(s[s.len() - 1]))
    }
}

pub open spec fn jentries(s: Seq<(String, Json)>) -> Seq<(Seq<char>, JsonView)>
    decreases s,
{
    if s.len() == 0 {
        Seq::empty()
    } else {
        jentries(s.drop_last()).push((s[s.len() - 1].0@, jview(s[s.len() - 1].1)))
    }
}

impl View for Json {
    type V = JsonView;

    open spec fn view(&self) -> JsonView {
        jview(*self)
    }
}


pub proof fn lemma_jviews(s: Seq<Json>)
    ensures
        jviews(s).len() == s.len(),
        forall|i: int| 0 <= i < s.len() ==> #[trigger] jviews(s)[i] == jview(s[i]),
    decreases s.len(),
{
    if s.len() > 0 {
        lemma_jviews(s.drop_last());
        assert forall|i: int| 0 <= i < s.len() implies #[trigger] jviews(s)[i] == jview(s[i]) by {
            if i < s.len() - 1 {
                assert(jviews(s)[i] == jviews(s.drop_last())[i]);
                assert(s.drop_last()[i] == s[i]);
            }
        }
    }
}

pub proof fn lemma_jentries(s: Seq<(String, Json)>)
    ensures
        jentries(s).len() == s.len(),
        forall|i: int| 0 <= i < s.len() ==> #[trigger] jentries(s)[i] == (s[i].0@, jview(s[i].1)),
    decreases s.len(),
{
    if s.len() > 0 {
        lemma_jentries(s.drop_last());
        assert forall|i: int| 0 <= i < s.len() implies #[trigger] jentries(s)[i] == (s[i].0@, jview(s[i].1)) by {
            if i < s.len() - 1 {
                assert(jentries(s)[i] == jentries(s.drop_last())[i]);
                assert(s.drop_last()[i] == s[i]);
            }
        }
    }
}

/// The value stored under `key` in a list of entries (the first such entry).
pub open spec fn entry_lookup(es: Seq<(Seq<char>, JsonView)>, key: Seq<char>) -> Option<JsonView>
    decreases es.len(),
{
    if es.len() == 0 {
        None
    } else if es[0].0 == key {
        Some(es[0].1)
    } else {
        entry_lookup(es.drop_first(), key)
    }
}

/// `Value::get(key)`: the member `key` of an object; nothing for other values.
pub open spec fn jget(j: JsonView, key: Seq<char>) -> Option<JsonView> {
    match j {
        JsonView::Object(es) => entry_lookup(es, key),
        _ => None,
    }
}

pub open spec fn jstr(j: JsonView) -> Option<Seq<char>> {
    match j {
        JsonView::Str(s) => Some(s),
        _ => None,
    }
}

pub open spec fn jbool(j: JsonView) -> Option<bool> {
    match j {
        JsonView::Bool(b) => Some(b),
        _ => None,
    }
}

pub open spec fn ju64(j: JsonView) -> Option<u64> {
    match j {
        JsonView::UInt(n) => Some(n),
        _ => None,
    }
}

/// A signed integer value (`Value::as_i64`): a negative one, or a non-negative one that
/// fits in `i64`.
pub open spec fn ji64(j: JsonView) -> Option<i64> {
    match j {
        JsonView::UInt(n) => if n <= 0x7fff_ffff_ffff_ffffu64 { Some(n as i64) } else { None },
        JsonView::Int(n) => Some(n),
        _ => None,
    }
}

/// The text of member `key`, when it is a string.
pub open spec fn jstr_at(v: JsonView, key: Seq<char>) -> Option<Seq<char>> {
    match jget(v, key) {
        Some(x) => jstr(x),
        None => None,
    }
}

/// Member `key` as a signed integer, or `default` when it is absent or not one.
pub open spec fn ji64_at_or(v: JsonView, key: Seq<char>, default: i64) -> i64 {
    match jget(v, key) {
        Some(x) => match ji64(x) {
            Some(n) => n,
            None => default,
        },
        None => default,
    }
}

/// Member `key` as a non-negative integer, or `default` when it is absent or not one.
pub open spec fn ju64_at_or(v: JsonView, key: Seq<char>, default: u64) -> u64 {
    match jget(v, key) {
        Some(x) => match ju64(x) {
            Some(n) => n,
            None => default,
        },
        None => default,
    }
}

pub open spec fn opt_jref(o: Option<&Json>) -> Option<JsonView> {
    match o {
        Some(x) => Some(x@),
        None => None,
    }
}

impl Json {
    /// The member `key` of an object.
    pub fn get(&self, key: &str) -> (r: Option<&Json>)
        ensures
            opt_jref(r) == jget(self@, key@),
    {
        match self {
            Json::Object(es) => {
                let ghost ev = jentries(es@);
                proof {
                    lemma_jentries(es@);
                }
                assert(ev.skip(0) =~= ev);
                assert(self@ == JsonView::Object(ev));
                let mut i: usize = 0;
                while i < es.len()
                    invariant
                        i <= es.len(),
                        ev == jentries(es@),
                        self@ == JsonView::Object(ev),
                        ev.len() == es.len(),
                        forall|q: int| 0 <= q < es.len() ==> #[trigger] ev[q] == (es@[q].0@, jview(es@[q].1)),
                        entry_lookup(ev, key@) == entry_lookup(ev.skip(i as int), key@),
                    decreases es.len() - i,
                {
                    let (k, v) = &es[i];
                    assert(ev.skip(i as int)[0] == ev[i as int]);
                    assert(ev.skip(i as int).drop_first() =~= ev.skip(i + 1));
                    if str_eq(k.as_str(), key) {
                        assert(self@ == JsonView::Object(ev));
                        assert(ev[i as int].1 == v@);
                        return Some(v);
                    }
                    i = i + 1;
                }
                assert(self@ == JsonView::Object(ev));
                assert(ev.skip(i as int).len() == 0);
                None
            },
            _ => None,
        }
    }

    /// The text of a string value.
    pub fn as_str(&self) -> (r: Option<&str>)
        ensures
            match r {
                Some(t) => jstr(self@) == Some(t@),
                None => jstr(self@) is None,
            },
    {
        match self {
            Json::Str(s) => Some(s.as_str()),
            _ => None,
        }
    }

    /// A boolean value.
    pub fn as_bool(&self) -> (r: Option<bool>)
        ensures
            r == jbool(self@),
    {
        match self {
            Json::Bool(b) => Some(*b),
            _ => None,
        }
    }

    /// A non-negative integer value.
    pub fn as_u64(&self) -> (r: Option<u64>)
        ensures
            r == ju64(self@),
    {
        match self {
            Json::UInt(n) => Some(*n),
            _ => None,
        }
    }

    /// The text of member `key`, when it is a string.
    pub fn str_at(&self, key: &str) -> (r: Option<String>)
        ensures
            match r {
                Some(t) => jstr_at(self@, key@) == Some(t@),
                None => jstr_at(self@, key@) is None,
            },
    {
        match self.get(key) {
            Some(x) => match x.as_str() {
                Some(t) => Some(String::from_str(t)),
                None => None,
            },
            None => None,
        }
    }

    /// Member `key` as a signed integer, or `default`.
    pub fn i64_at_or(&self, key: &str, default: i64) -> (r: i64)
        ensures
            r == ji64_at_or(self@, key@, default),
    {
        match self.get(key) {
            Some(x) => match x.as_i64() {
                Some(n) => n,
                None => default,
            },
            None => default,
        }
    }

    /// Member `key` as a non-negative integer, or `default`.
    pub fn u64_at_or(&self, key: &str, default: u64) -> (r: u64)
        ensures
            r == ju64_at_or(self@, key@, default),
    {
        match self.get(key) {
            Some(x) => match x.as_u64() {
                Some(n) => n,
                None => default,
            },
            None => default,
        }
    }

    /// A signed integer value.
    pub fn as_i64(&self) -> (r: Option<i64>)
        ensures
            r == ji64(self@),
    {
        match self {
            Json::UInt(n) => if *n <= 0x7fff_ffff_ffff_ffffu64 { Some(*n as i64) } else { None },
            Json::Int(n) => Some(*n),
            _ => None,
        }
    }

    /// The elements of an array value.
    pub fn as_array(&self) -> (r: Option<&Vec<Json>>)
        ensures
            match r {
                Some(v) => self@ == JsonView::Array(jviews(v@)),
                None => !(self@ is Array),
            },
    {
        match self {
            Json::Array(v) => Some(v),
            _ => None,
        }
    }

    /// The entries of an object value.
    pub fn as_object(&self) -> (r: Option<&Vec<(String, Json)>>)
        ensures
            match r {
                Some(v) => self@ == JsonView::Object(jentries(v@)),
                None => !(self@ is Object),
            },
    {
        match self {
            Json::Object(v) => Some(v),
            _ => None,
        }
    }
}

} // verus!
