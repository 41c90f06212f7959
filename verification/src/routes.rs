//! Which handler serves a request, read from its method and path the way
//! the service's path filters read it.
//!
//! A path is read segment by segment: a leading `/` is skipped, a segment
//! runs to the next `/` or to the end, and the `/` after a matched segment
//! is skipped with it. The service answers `/api/v1/persons` and
//! `/api/v1/persons/{id}`, where `{id}` is read as `i32::from_str` reads it.

use vstd::prelude::*;
use crate::text::{chars_of, i32_text, parse_i32, parse_i32_in, push_i32, lemma_i32_text_has_no_slash, lemma_parse_format_roundtrip};

verus! {

/// The request methods that the service tells apart.
#[derive(Debug, Clone, Copy, PartialEq, Eq, Structural)]
pub enum Method {
    Get,
    Post,
    Delete,
    Patch,
    Other,
}

/// The handler that serves a request.
#[derive(Debug, Clone, Copy, PartialEq, Eq, Structural)]
pub enum Route {
    /// `GET /api/v1/persons`
    List,
    /// `POST /api/v1/persons`
    Create,
    /// `GET /api/v1/persons/{id}`
    Get(i32),
    /// `DELETE /api/v1/persons/{id}`
    Delete(i32),
    /// `PATCH /api/v1/persons/{id}`
    Patch(i32),
}

/// Where the first `/` of `r` stands, or `r.len()` when there is none.
pub open spec fn seg_end(r: Seq<char>) -> nat
    decreases r.len(),
{
    if r.len() == 0 {
        0
    } else if r[0] == '/' {
        0
    } else {
        1 + seg_end(r.drop_first())
    }
}

/// The segment at the front of the unmatched part `r`.
pub open spec fn segment(r: Seq<char>) -> Seq<char> {
    r.take(seg_end(r) as int)
}

/// The unmatched part once the front segment of `r` (and the `/` after it)
/// is matched.
pub open spec fn after_segment(r: Seq<char>) -> Seq<char> {
    if seg_end(r) == r.len() {
        Seq::<char>::empty()
    } else {
        r.skip(seg_end(r) + 1int)
    }
}

/// The unmatched part of a whole path: all of it but a leading `/`.
pub open spec fn unmatched(path: Seq<char>) -> Seq<char> {
    if path.len() > 0 && path[0] == '/' {
        path.drop_first()
    } else {
        path
    }
}

/// What is left of `path` after `api`, `v1` and `persons`, if it starts
/// with those segments.
pub open spec fn after_persons(path: Seq<char>) -> Option<Seq<char>> {
    let r0 = unmatched(path);
    let r1 = after_segment(r0);
    let r2 = after_segment(r1);
    if segment(r0) == "api"@ && segment(r1) == "v1"@ && segment(r2) == "persons"@ {
        Some(after_segment(r2))
    } else {
        None
    }
}

/// `path` names the collection of persons.
pub open spec fn is_collection_path(path: Seq<char>) -> bool {
    after_persons(path) matches Some(r) && r.len() == 0
}

/// The identifier that `path` names one person by, if it does.
pub open spec fn item_path_id(path: Seq<char>) -> Option<i32> {
    match after_persons(path) {
        Some(r) => {
            let seg = segment(r);
            if seg.len() > 0 && parse_i32(seg) is Some && after_segment(r).len() == 0 {
                parse_i32(seg)
            } else {
                None
            }
        },
        None => None,
    }
}

/// The handler for a request, if any serves it.
pub open spec fn route_of(method: Method, path: Seq<char>) -> Option<Route> {
    match method {
        Method::Post => if is_collection_path(path) { Some(Route::Create) } else { None },
        Method::Get => if is_collection_path(path) {
            Some(Route::List)
        } else {
            match item_path_id(path) {
                Some(id) => Some(Route::Get(id)),
                None => None,
            }
        },
        Method::Delete => match item_path_id(path) {
            Some(id) => Some(Route::Delete(id)),
            None => None,
        },
        Method::Patch => match item_path_id(path) {
            Some(id) => Some(Route::Patch(id)),
            None => None,
        },
        Method::Other => None,
    }
}

/// The path under which the person with `id` is served.
pub open spec fn location_text(id: i32) -> Seq<char> {
    "/api/v1/persons/"@ + i32_text(id)
}

/// A segment ends at the first `/`.
pub proof fn lemma_seg_end(r: Seq<char>, k: int)
    requires
        0 <= k <= r.len(),
        forall|j: int| 0 <= j < k ==> r[j] != '/',
        k == r.len() || r[k] == '/',
    ensures
        seg_end(r) == k,
    decreases k,
{
    if k > 0 {
        lemma_seg_end(r.drop_first(), k - 1);
    }
}

/// Where the segment that starts at `pos` ends: the next `/` or the end.
fn find_seg_end(v: &Vec<char>, pos: usize) -> (e: usize)
    requires
        pos <= v@.len(),
    ensures
        pos <= e <= v@.len(),
        e == pos + seg_end(v@.skip(pos as int)),
        segment(v@.skip(pos as int)) == v@.subrange(pos as int, e as int),
        after_segment(v@.skip(pos as int)) == v@.skip(if e == v@.len() { e as int } else { e + 1 }),
{
    let mut i = pos;
    while i < v.len() && v[i] != '/'
        invariant
            pos <= i <= v@.len(),
            forall|j: int| pos <= j < i ==> v@[j] != '/',
        decreases v@.len() - i,
    {
        i = i + 1;
    }
    proof {
        let r = v@.skip(pos as int);
        lemma_seg_end(r, i - pos);
        assert(r.take(i - pos) =~= v@.subrange(pos as int, i as int));
        if i < v@.len() {
            assert(r.skip(i - pos + 1) =~= v@.skip(i + 1));
        } else {
            assert(v@.skip(i as int) =~= Seq::<char>::empty());
        }
    }
    i
}

/// `v[lo..hi]` spells `word`.
fn spells(v: &Vec<char>, lo: usize, hi: usize, word: &str) -> (b: bool)
    requires
        lo <= hi <= v@.len(),
    ensures
        b == (v@.subrange(lo as int, hi as int) == word@),
{
    let w = chars_of(word);
    if hi - lo != w.len() {
        return false;
    }
    let mut i: usize = 0;
    while i < w.len()
        invariant
            hi - lo == w@.len(),
            lo <= hi <= v@.len(),
            w@ == word@,
            i <= w@.len(),
            forall|j: int| 0 <= j < i ==> v@[lo + j] == w@[j],
        decreases w@.len() - i,
    {
        if v[lo + i] != w[i] {
            assert(v@.subrange(lo as int, hi as int)[i as int] != word@[i as int]);
            return false;
        }
        i = i + 1;
    }
    assert(v@.subrange(lo as int, hi as int) =~= word@);
    true
}

/// The handler for a request with `method` and `path`, read as the
/// service's path filters read it.
pub fn route(method: Method, path: &str) -> (r: Option<Route>)
    ensures
        r == route_of(method, path@),
{
    let v = chars_of(path);
    let ghost p = path@;
    let start: usize = if v.len() > 0 && v[0] == '/' { 1 } else { 0 };
    assert(v@.skip(start as int) =~= unmatched(p));
    let e0 = find_seg_end(&v, start);
    let s1: usize = if e0 == v.len() { e0 } else { e0 + 1 };
    let e1 = find_seg_end(&v, s1);
    let s2: usize = if e1 == v.len() { e1 } else { e1 + 1 };
    let e2 = find_seg_end(&v, s2);
    let s3: usize = if e2 == v.len() { e2 } else { e2 + 1 };
    let prefix = spells(&v, start, e0, "api") && spells(&v, s1, e1, "v1") && spells(&v, s2, e2, "persons");
    let ghost rest = v@.skip(s3 as int);
    assert(prefix ==> after_persons(p) == Some(rest));
    assert(!prefix ==> after_persons(p) is None);
    let collection = prefix && s3 == v.len();
    assert(rest.len() == v@.len() - s3);
    assert(collection == is_collection_path(p));
    let e3 = find_seg_end(&v, s3);
    let s4: usize = if e3 == v.len() { e3 } else { e3 + 1 };
    let item: Option<i32> = if prefix && e3 > s3 && s4 == v.len() {
        parse_i32_in(&v, s3, e3)
    } else {
        None
    };
    assert(v@.skip(s4 as int).len() == v@.len() - s4);
    assert(item == item_path_id(p));
    match method {
        Method::Post => if collection { Some(Route::Create) } else { None },
        Method::Get => if collection {
            Some(Route::List)
        } else {
            match item {
                Some(id) => Some(Route::Get(id)),
                None => None,
            }
        },
        Method::Delete => match item {
            Some(id) => Some(Route::Delete(id)),
            None => None,
        },
        Method::Patch => match item {
            Some(id) => Some(Route::Patch(id)),
            None => None,
        },
        Method::Other => None,
    }
}

/// The path under which the person with `id` is served.
pub fn location_path(id: i32) -> (s: String)
    ensures
        s@ == location_text(id),
{
    let mut s = String::new();
    s.append("/api/v1/persons/");
    push_i32(&mut s, id);
    assert(s@ =~= location_text(id));
    s
}

/// A segment `word` without `/`, then `/`, then anything: the segment is
/// `word` and what follows is the rest.
proof fn lemma_segment_then_rest(word: Seq<char>, rest: Seq<char>)
    requires
        forall|j: int| 0 <= j < word.len() ==> word[j] != '/',
    ensures
        segment(word + seq!['/'] + rest) == word,
        after_segment(word + seq!['/'] + rest) == rest,
{
    let r = word + seq!['/'] + rest;
    lemma_seg_end(r, word.len() as int);
    assert(r.take(word.len() as int) =~= word);
    assert(r.skip(word.len() + 1int) =~= rest);
}

/// A last segment without `/`: the segment is all of it and nothing follows.
proof fn lemma_last_segment(word: Seq<char>)
    requires
        forall|j: int| 0 <= j < word.len() ==> word[j] != '/',
    ensures
        segment(word) == word,
        after_segment(word) == Seq::<char>::empty(),
{
    lemma_seg_end(word, word.len() as int);
    assert(word.take(word.len() as int) =~= word);
}

/// The path that a created person is announced under leads back to that
/// person: read with `GET`, `DELETE` or `PATCH`, it routes to the handler
/// for exactly that identifier.
pub proof fn law_location_routes_back(id: i32)
    ensures
        route_of(Method::Get, location_text(id)) == Some(Route::Get(id)),
        route_of(Method::Delete, location_text(id)) == Some(Route::Delete(id)),
        route_of(Method::Patch, location_text(id)) == Some(Route::Patch(id)),
        route_of(Method::Post, location_text(id)) is None,
{
    reveal_strlit("/api/v1/persons/");
    reveal_strlit("api");
    reveal_strlit("v1");
    reveal_strlit("persons");
    let t = i32_text(id);
    lemma_i32_text_has_no_slash(id);
    lemma_parse_format_roundtrip(id);
    let p = location_text(id);
    let api = "api"@;
    let v1 = "v1"@;
    let persons = "persons"@;
    let r1 = v1 + seq!['/'] + persons + seq!['/'] + t;
    let r2 = persons + seq!['/'] + t;
    assert(unmatched(p) =~= api + seq!['/'] + r1);
    lemma_segment_then_rest(api, r1);
    assert(r1 =~= v1 + seq!['/'] + (persons + seq!['/'] + t));
    lemma_segment_then_rest(v1, r2);
    lemma_segment_then_rest(persons, t);
    lemma_last_segment(t);
    assert(after_persons(p) == Some(t));
    assert(!is_collection_path(p));
    assert(item_path_id(p) == Some(id));
}

} // verus!
