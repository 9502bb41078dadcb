//! A JSON value as the InnerTube responses are read: objects keep their keys in the order they
//! are walked. The renderer trees are searched rather than followed field by field, so that the
//! parsers keep working when YouTube moves a node around.

use vstd::prelude::*;

use crate::text::str_eq;

verus! {

broadcast use vstd::std_specs::vec::axiom_vec_index_decreases, vstd::std_specs::vec::axiom_vec_decreases_to_view, vstd::seq::axiom_seq_index_decreases;

/// A JSON value. Numbers keep their text: the parsers never compute with them.
#[derive(Debug)]
pub enum Json {
    Null,
    Bool(bool),
    Number(String),
    Str(String),
    Array(Vec<Json>),
    Object(Vec<(String, Json)>),
}

/// The value under `key` in an object's entries: the first entry with that key.
pub open spec fn entry(m: Seq<(String, Json)>, key: Seq<char>) -> Option<Json>
    decreases m.len(),
{
    if m.len() == 0 {
        None
    } else if m[0].0@ == key {
        Some(m[0].1)
    } else {
        entry(m.drop_first(), key)
    }
}

/// `value.get(key)`: the member `key` of an object; `None` for anything else.
pub open spec fn member(j: Json, key: Seq<char>) -> Option<Json> {
    match j {
        Json::Object(m) => entry(m@, key),
        _ => None,
    }
}

/// The item at `i` of an array; `None` for anything else.
pub open spec fn item_at(j: Json, i: int) -> Option<Json> {
    match j {
        Json::Array(a) => if 0 <= i < a@.len() {
            Some(a@[i])
        } else {
            None
        },
        _ => None,
    }
}

/// The member `key` of an optional value.
pub open spec fn member_of(j: Option<Json>, key: Seq<char>) -> Option<Json> {
    match j {
        Some(v) => member(v, key),
        None => None,
    }
}

/// The value an optional reference points at.
pub open spec fn deref_opt(o: Option<&Json>) -> Option<Json> {
    match o {
        Some(v) => Some(*v),
        None => None,
    }
}

/// The member `key` of an optional value.
pub fn get_in<'a>(v: Option<&'a Json>, key: &str) -> (r: Option<&'a Json>)
    ensures
        deref_opt(r) == member_of(deref_opt(v), key@),
{
    match v {
        Some(x) => x.get(key),
        None => None,
    }
}

/// The member `key` of an optional value, when it is a string.
pub fn str_in<'a>(v: Option<&'a Json>, key: &str) -> (r: Option<&'a str>)
    ensures
        match r {
            Some(x) => str_of(member_of(deref_opt(v), key@)) == Some(x@),
            None => str_of(member_of(deref_opt(v), key@)) is None,
        },
{
    match get_in(v, key) {
        Some(x) => x.as_str(),
        None => None,
    }
}

/// The member `key` of an optional value, when it is an array.
pub fn array_in<'a>(v: Option<&'a Json>, key: &str) -> (r: Option<&'a Vec<Json>>)
    ensures
        match r {
            Some(a) => items_of(member_of(deref_opt(v), key@)) == Some(a@),
            None => items_of(member_of(deref_opt(v), key@)) is None,
        },
{
    match get_in(v, key) {
        Some(x) => x.as_array(),
        None => None,
    }
}

/// The text of a string value.
pub open spec fn str_of(j: Option<Json>) -> Option<Seq<char>> {
    match j {
        Some(Json::Str(s)) => Some(s@),
        _ => None,
    }
}

/// The items of an array value.
pub open spec fn items_of(j: Option<Json>) -> Option<Seq<Json>> {
    match j {
        Some(Json::Array(a)) => Some(a@),
        _ => None,
    }
}

impl Json {
    /// `value.get(key)`.
    pub fn get(&self, key: &str) -> (r: Option<&Json>)
        ensures
            match r {
                Some(v) => member(*self, key@) == Some(*v),
                None => member(*self, key@) is None,
            },
    {
        match self {
            Json::Object(m) => {
                let mut i: usize = 0;
                assert(m@.skip(0) == m@);
                while i < m.len()
                    invariant
                        0 <= i <= m@.len(),
                        entry(m@, key@) == entry(m@.skip(i as int), key@),
                        member(*self, key@) == entry(m@, key@),
                    decreases m.len() - i,
                {
                    assert(m@.skip(i as int).drop_first() == m@.skip(i + 1));
                    assert(m@.skip(i as int)[0] == m@[i as int]);
                    if str_eq(m[i].0.as_str(), key) {
                        assert(entry(m@.skip(i as int), key@) == Some(m@[i as int].1));
                        return Some(&m[i].1);
                    }
                    i += 1;
                }
                None
            },
            _ => None,
        }
    }

    /// `value.get(index)` on an array: its item at `index`.
    pub fn at(&self, index: usize) -> (r: Option<&Json>)
        ensures
            deref_opt(r) == item_at(*self, index as int),
    {
        match self {
            Json::Array(a) => if index < a.len() {
                Some(&a[index])
            } else {
                None
            },
            _ => None,
        }
    }

    /// `value.as_str()`.
    pub fn as_str(&self) -> (r: Option<&str>)
        ensures
            match r {
                Some(s) => str_of(Some(*self)) == Some(s@),
                None => str_of(Some(*self)) is None,
            },
    {
        match self {
            Json::Str(s) => Some(s.as_str()),
            _ => None,
        }
    }

    /// `value.as_array()`.
    pub fn as_array(&self) -> (r: Option<&Vec<Json>>)
        ensures
            match r {
                Some(a) => items_of(Some(*self)) == Some(a@),
                None => items_of(Some(*self)) is None,
            },
    {
        match self {
            Json::Array(a) => Some(a),
            _ => None,
        }
    }
}

/// Every value under a key named `key`, anywhere below `j`, in walk order: an object's entries
/// in order, each match before what lies inside it.
pub open spec fn found_all(j: Json, key: Seq<char>) -> Seq<Json>
    decreases j,
{
    match j {
        Json::Object(m) => found_entries(m@, key),
        Json::Array(a) => found_items(a@, key),
        _ => seq![],
    }
}

pub open spec fn found_items(s: Seq<Json>, key: Seq<char>) -> Seq<Json>
    decreases s,
{
    if s.len() == 0 {
        seq![]
    } else {
        found_items(s.drop_last(), key) + found_all(s.last(), key)
    }
}

pub open spec fn found_entries(m: Seq<(String, Json)>, key: Seq<char>) -> Seq<Json>
    decreases m,
{
    if m.len() == 0 {
        seq![]
    } else {
        let e = m.last();
        found_entries(m.drop_last(), key) + (if e.0@ == key {
            seq![e.1]
        } else {
            seq![]
        }) + found_all(e.1, key)
    }
}

/// The values a list of references points at.
pub open spec fn deref_all(s: Seq<&Json>) -> Seq<Json> {
    s.map_values(|r: &Json| *r)
}

proof fn lemma_deref_push(s: Seq<&Json>, x: &Json)
    ensures
        deref_all(s.push(x)) == deref_all(s).push(*x),
{
    assert(deref_all(s.push(x)) =~= deref_all(s).push(*x));
}

#[verifier::loop_isolation(false)]
fn collect_all<'a>(v: &'a Json, key: &str, out: &mut Vec<&'a Json>)
    ensures
        deref_all(final(out)@) == deref_all(old(out)@) + found_all(*v, key@),
    decreases v,
{
    let ghost start = deref_all(out@);
    match v {
        Json::Object(m) => {
            let mut i: usize = 0;
            assert(m@.take(0) == Seq::<(String, Json)>::empty());
            while i < m.len()
                invariant
                    0 <= i <= m@.len(),
                    deref_all(out@) == start + found_entries(m@.take(i as int), key@),
                decreases m.len() - i,
            {
                let ghost before = deref_all(out@);
                assert(m@.take(i + 1).drop_last() == m@.take(i as int));
                assert(m@.take(i + 1).last() == m@[i as int]);
                if str_eq(m[i].0.as_str(), key) {
                    proof {
                        lemma_deref_push(out@, &m@[i as int].1);
                    }
                    out.push(&m[i].1);
                }
                let ghost mid = deref_all(out@);
                collect_all(&m[i].1, key, out);
                assert(deref_all(out@) == start + found_entries(m@.take(i + 1), key@)) by {
                    assert(found_entries(m@.take(i + 1), key@) == found_entries(m@.take(i as int), key@)
                        + (if m@[i as int].0@ == key@ {
                        seq![m@[i as int].1]
                    } else {
                        seq![]
                    }) + found_all(m@[i as int].1, key@));
                }
                i += 1;
            }
            assert(m@.take(m@.len() as int) == m@);
        },
        Json::Array(a) => {
            let mut i: usize = 0;
            assert(a@.take(0) == Seq::<Json>::empty());
            while i < a.len()
                invariant
                    0 <= i <= a@.len(),
                    deref_all(out@) == start + found_items(a@.take(i as int), key@),
                decreases a.len() - i,
            {
                assert(a@.take(i + 1).drop_last() == a@.take(i as int));
                assert(a@.take(i + 1).last() == a@[i as int]);
                collect_all(&a[i], key, out);
                i += 1;
            }
            assert(a@.take(a@.len() as int) == a@);
        },
        _ => {},
    }
}

/// Every value under a key named `key`, anywhere below `root`, in walk order.
pub fn find_all<'a>(root: &'a Json, key: &str) -> (r: Vec<&'a Json>)
    ensures
        deref_all(r@) == found_all(*root, key@),
{
    let mut out: Vec<&'a Json> = Vec::new();
    assert(deref_all(out@) =~= Seq::<Json>::empty());
    collect_all(root, key, &mut out);
    out
}

/// Like `found_all`, but a match is not searched further: values under `key` that are not
/// inside another value under `key`.
pub open spec fn found_shallow(j: Json, key: Seq<char>) -> Seq<Json>
    decreases j,
{
    match j {
        Json::Object(m) => shallow_entries(m@, key),
        Json::Array(a) => shallow_items(a@, key),
        _ => seq![],
    }
}

pub open spec fn shallow_items(s: Seq<Json>, key: Seq<char>) -> Seq<Json>
    decreases s,
{
    if s.len() == 0 {
        seq![]
    } else {
        shallow_items(s.drop_last(), key) + found_shallow(s.last(), key)
    }
}

pub open spec fn shallow_entries(m: Seq<(String, Json)>, key: Seq<char>) -> Seq<Json>
    decreases m,
{
    if m.len() == 0 {
        seq![]
    } else {
        let e = m.last();
        shallow_entries(m.drop_last(), key) + if e.0@ == key {
            seq![e.1]
        } else {
            found_shallow(e.1, key)
        }
    }
}

#[verifier::loop_isolation(false)]
fn collect_shallow<'a>(v: &'a Json, key: &str, out: &mut Vec<&'a Json>)
    ensures
        deref_all(final(out)@) == deref_all(old(out)@) + found_shallow(*v, key@),
    decreases v,
{
    let ghost start = deref_all(out@);
    match v {
        Json::Object(m) => {
            let mut i: usize = 0;
            assert(m@.take(0) == Seq::<(String, Json)>::empty());
            while i < m.len()
                invariant
                    0 <= i <= m@.len(),
                    deref_all(out@) == start + shallow_entries(m@.take(i as int), key@),
                decreases m.len() - i,
            {
                assert(m@.take(i + 1).drop_last() == m@.take(i as int));
                assert(m@.take(i + 1).last() == m@[i as int]);
                if str_eq(m[i].0.as_str(), key) {
                    proof {
                        lemma_deref_push(out@, &m@[i as int].1);
                    }
                    out.push(&m[i].1);
                } else {
                    collect_shallow(&m[i].1, key, out);
                }
                i += 1;
            }
            assert(m@.take(m@.len() as int) == m@);
        },
        Json::Array(a) => {
            let mut i: usize = 0;
            assert(a@.take(0) == Seq::<Json>::empty());
            while i < a.len()
                invariant
                    0 <= i <= a@.len(),
                    deref_all(out@) == start + shallow_items(a@.take(i as int), key@),
                decreases a.len() - i,
            {
                assert(a@.take(i + 1).drop_last() == a@.take(i as int));
                assert(a@.take(i + 1).last() == a@[i as int]);
                collect_shallow(&a[i], key, out);
                i += 1;
            }
            assert(a@.take(a@.len() as int) == a@);
        },
        _ => {},
    }
}

/// Every value under a key named `key` below `root`, not descending into a match: the
/// top-level renderers only (an editable playlist row embeds a copy of itself).
pub fn find_all_shallow<'a>(root: &'a Json, key: &str) -> (r: Vec<&'a Json>)
    ensures
        deref_all(r@) == found_shallow(*root, key@),
{
    let mut out: Vec<&'a Json> = Vec::new();
    assert(deref_all(out@) =~= Seq::<Json>::empty());
    collect_shallow(root, key, &mut out);
    out
}

/// The first string under a key named `key`, in walk order: an object's entries in order, a
/// string under the key itself before anything inside it.
pub open spec fn first_str(j: Json, key: Seq<char>) -> Option<Seq<char>>
    decreases j,
{
    match j {
        Json::Object(m) => first_str_entries(m@, key),
        Json::Array(a) => first_str_items(a@, key),
        _ => None,
    }
}

pub open spec fn first_str_items(s: Seq<Json>, key: Seq<char>) -> Option<Seq<char>>
    decreases s,
{
    if s.len() == 0 {
        None
    } else {
        match first_str(s[0], key) {
            Some(x) => Some(x),
            None => first_str_items(s.drop_first(), key),
        }
    }
}

pub open spec fn first_str_entries(m: Seq<(String, Json)>, key: Seq<char>) -> Option<Seq<char>>
    decreases m,
{
    if m.len() == 0 {
        None
    } else {
        let e = m[0];
        if e.0@ == key && e.1 is Str {
            str_of(Some(e.1))
        } else {
            match first_str(e.1, key) {
                Some(x) => Some(x),
                None => first_str_entries(m.drop_first(), key),
            }
        }
    }
}

/// The first string under a key named `key`, anywhere below `root`.
#[verifier::loop_isolation(false)]
pub fn find_first_str(root: &Json, key: &str) -> (r: Option<String>)
    ensures
        match r {
            Some(x) => first_str(*root, key@) == Some(x@),
            None => first_str(*root, key@) is None,
        },
    decreases root,
{
    match root {
        Json::Object(m) => {
            let mut i: usize = 0;
            assert(m@.skip(0) == m@);
            while i < m.len()
                invariant
                    0 <= i <= m@.len(),
                    first_str(*root, key@) == first_str_entries(m@.skip(i as int), key@),
                decreases m.len() - i,
            {
                assert(m@.skip(i as int).drop_first() == m@.skip(i + 1));
                assert(m@.skip(i as int)[0] == m@[i as int]);
                if str_eq(m[i].0.as_str(), key) {
                    match m[i].1.as_str() {
                        Some(s) => {
                            return Some(s.to_owned());
                        },
                        None => {},
                    }
                }
                match find_first_str(&m[i].1, key) {
                    Some(x) => {
                        return Some(x);
                    },
                    None => {},
                }
                i += 1;
            }
            None
        },
        Json::Array(a) => {
            let mut i: usize = 0;
            assert(a@.skip(0) == a@);
            while i < a.len()
                invariant
                    0 <= i <= a@.len(),
                    first_str(*root, key@) == first_str_items(a@.skip(i as int), key@),
                decreases a.len() - i,
            {
                assert(a@.skip(i as int).drop_first() == a@.skip(i + 1));
                assert(a@.skip(i as int)[0] == a@[i as int]);
                match find_first_str(&a[i], key) {
                    Some(x) => {
                        return Some(x);
                    },
                    None => {},
                }
                i += 1;
            }
            None
        },
        _ => None,
    }
}

/// The URL of the last entry of an object's own `thumbnails` array.
pub open spec fn own_thumb(m: Seq<(String, Json)>) -> Option<Seq<char>> {
    match entry(m, "thumbnails"@) {
        Some(Json::Array(a)) => if a@.len() > 0 {
            str_of(member(a@.last(), "url"@))
        } else {
            None
        },
        _ => None,
    }
}

/// The highest-resolution thumbnail under a node: the last URL of the first `thumbnails` array
/// met in walk order (an object's own before its members').
pub open spec fn last_thumb(j: Json) -> Option<Seq<char>>
    decreases j,
{
    match j {
        Json::Object(m) => match own_thumb(m@) {
            Some(u) => Some(u),
            None => last_thumb_entries(m@),
        },
        Json::Array(a) => last_thumb_items(a@),
        _ => None,
    }
}

pub open spec fn last_thumb_items(s: Seq<Json>) -> Option<Seq<char>>
    decreases s,
{
    if s.len() == 0 {
        None
    } else {
        match last_thumb(s[0]) {
            Some(x) => Some(x),
            None => last_thumb_items(s.drop_first()),
        }
    }
}

pub open spec fn last_thumb_entries(m: Seq<(String, Json)>) -> Option<Seq<char>>
    decreases m,
{
    if m.len() == 0 {
        None
    } else {
        match last_thumb(m[0].1) {
            Some(x) => Some(x),
            None => last_thumb_entries(m.drop_first()),
        }
    }
}

fn own_thumbnail(v: &Json) -> (r: Option<String>)
    ensures
        match *v {
            Json::Object(m) => match r {
                Some(x) => own_thumb(m@) == Some(x@),
                None => own_thumb(m@) is None,
            },
            _ => r is None,
        },
{
    let arr = match v.get("thumbnails") {
        Some(t) => match t.as_array() {
            Some(a) => a,
            None => return None,
        },
        None => return None,
    };
    proof {
        reveal_strlit("thumbnails");
    }
    if arr.len() == 0 {
        return None;
    }
    match arr[arr.len() - 1].get("url") {
        Some(u) => match u.as_str() {
            Some(s) => Some(s.to_owned()),
            None => None,
        },
        None => None,
    }
}

/// The highest-resolution thumbnail URL under a node.
#[verifier::loop_isolation(false)]
pub fn last_thumbnail(node: &Json) -> (r: Option<String>)
    ensures
        match r {
            Some(x) => last_thumb(*node) == Some(x@),
            None => last_thumb(*node) is None,
        },
    decreases node,
{
    match node {
        Json::Object(m) => {
            match own_thumbnail(node) {
                Some(u) => {
                    return Some(u);
                },
                None => {},
            }
            let mut i: usize = 0;
            assert(m@.skip(0) == m@);
            while i < m.len()
                invariant
                    0 <= i <= m@.len(),
                    last_thumb(*node) == last_thumb_entries(m@.skip(i as int)),
                decreases m.len() - i,
            {
                assert(m@.skip(i as int).drop_first() == m@.skip(i + 1));
                assert(m@.skip(i as int)[0] == m@[i as int]);
                match last_thumbnail(&m[i].1) {
                    Some(x) => {
                        return Some(x);
                    },
                    None => {},
                }
                i += 1;
            }
            None
        },
        Json::Array(a) => {
            let mut i: usize = 0;
            assert(a@.skip(0) == a@);
            while i < a.len()
                invariant
                    0 <= i <= a@.len(),
                    last_thumb(*node) == last_thumb_items(a@.skip(i as int)),
                decreases a.len() - i,
            {
                assert(a@.skip(i as int).drop_first() == a@.skip(i + 1));
                assert(a@.skip(i as int)[0] == a@[i as int]);
                match last_thumbnail(&a[i]) {
                    Some(x) => {
                        return Some(x);
                    },
                    None => {},
                }
                i += 1;
            }
            None
        },
        _ => None,
    }
}

} // verus!
