//! Albums and the name matching they are searched by: a regular album or a
//! person auto-album, the identification parameter each variant contributes
//! to an item query, and first-match search within one collection.

use vstd::prelude::*;
use crate::api::Space;
use crate::text::{dec_chars, eq_ci, eq_ignore_ascii_case, u32_to_dec};

verus! {

/// A regular album as the album browse endpoints return it.
#[derive(Debug)]
pub struct AlbumInfo {
    pub id: u32,
    pub name: String,
    /// Non-empty for albums shared by another user; such albums are queried
    /// by passphrase instead of id.
    pub passphrase: String,
    pub item_count: u32,
}

/// A person auto-album as the person browse endpoints return it.
#[derive(Debug)]
pub struct PersonInfo {
    pub id: u32,
    pub name: String,
    pub item_count: u32,
}

/// An album a command operates on.
#[derive(Debug)]
pub enum Album {
    Normal(AlbumInfo),
    Person(PersonInfo, Space),
}

impl Album {
    /// The number of items the album reports.
    pub open spec fn spec_item_count(&self) -> u32 {
        match self {
            Album::Normal(a) => a.item_count,
            Album::Person(p, _) => p.item_count,
        }
    }

    pub fn item_count(&self) -> (r: u32)
        ensures
            r == self.spec_item_count(),
    {
        match self {
            Album::Normal(a) => a.item_count,
            Album::Person(p, _) => p.item_count,
        }
    }

    /// The album's display name.
    pub open spec fn spec_name(&self) -> Seq<char> {
        match self {
            Album::Normal(a) => a.name@,
            Album::Person(p, _) => p.name@,
        }
    }

    pub fn name(&self) -> (r: &str)
        ensures
            r@ == self.spec_name(),
    {
        match self {
            Album::Normal(a) => a.name.as_str(),
            Album::Person(p, _) => p.name.as_str(),
        }
    }

    /// The parameter that identifies the album in an item query: a shared
    /// album is identified by its passphrase, an owned album by its id, a
    /// person album by its person id.
    pub open spec fn spec_id_param(&self) -> (Seq<char>, Seq<char>) {
        match self {
            Album::Normal(a) => if a.passphrase@.len() > 0 {
                ("passphrase"@, a.passphrase@)
            } else {
                ("album_id"@, dec_chars(a.id as int))
            },
            Album::Person(p, _) => ("person_id"@, dec_chars(p.id as int)),
        }
    }

    /// The identification parameter as a key-value pair; neither side is ever
    /// empty.
    pub fn id_param(&self) -> (r: (&'static str, String))
        ensures
            (r.0@, r.1@) == self.spec_id_param(),
            r.0@.len() > 0,
            r.1@.len() > 0,
    {
        proof {
            reveal_strlit("passphrase");
            reveal_strlit("album_id");
            reveal_strlit("person_id");
        }
        match self {
            Album::Normal(a) => {
                if !a.passphrase.as_str().is_empty() {
                    ("passphrase", a.passphrase.clone())
                } else {
                    ("album_id", u32_to_dec(a.id))
                }
            },
            Album::Person(p, _) => ("person_id", u32_to_dec(p.id)),
        }
    }
}

/// No album in the collection matches the name up to ASCII case.
pub open spec fn no_album_match(albums: Seq<AlbumInfo>, name: Seq<char>) -> bool {
    forall|j: int| 0 <= j < albums.len() ==> !eq_ci(albums[j].name@, name)
}

/// The index of the first album whose name equals `name` up to ASCII case.
pub fn find_album_match(albums: &Vec<AlbumInfo>, name: &str) -> (r: Option<usize>)
    ensures
        match r {
            Some(i) => i < albums@.len() && eq_ci(albums@[i as int].name@, name@) && (forall|
                j: int,
            |
                0 <= j < i ==> !eq_ci(albums@[j].name@, name@)),
            None => no_album_match(albums@, name@),
        },
{
    let mut i: usize = 0;
    while i < albums.len()
        invariant
            0 <= i <= albums@.len(),
            forall|j: int| 0 <= j < i ==> !eq_ci(albums@[j].name@, name@),
        decreases albums@.len() - i,
    {
        if eq_ignore_ascii_case(albums[i].name.as_str(), name) {
            return Some(i);
        }
        i += 1;
    }
    None
}

/// No person album in the collection matches the name up to ASCII case.
pub open spec fn no_person_match(people: Seq<PersonInfo>, name: Seq<char>) -> bool {
    forall|j: int| 0 <= j < people.len() ==> !eq_ci(people[j].name@, name)
}

/// The index of the first person whose name equals `name` up to ASCII case.
pub fn find_person_match(people: &Vec<PersonInfo>, name: &str) -> (r: Option<usize>)
    ensures
        match r {
            Some(i) => i < people@.len() && eq_ci(people@[i as int].name@, name@) && (forall|
                j: int,
            |
                0 <= j < i ==> !eq_ci(people@[j].name@, name@)),
            None => no_person_match(people@, name@),
        },
{
    let mut i: usize = 0;
    while i < people.len()
        invariant
            0 <= i <= people@.len(),
            forall|j: int| 0 <= j < i ==> !eq_ci(people@[j].name@, name@),
        decreases people@.len() - i,
    {
        if eq_ignore_ascii_case(people[i].name.as_str(), name) {
            return Some(i);
        }
        i += 1;
    }
    None
}

/// One hit of the album suggestion endpoint: a name and the kind of
/// collection it belongs to.
#[derive(Debug)]
pub struct SearchHit {
    pub name: String,
    pub kind: String,
}

impl Clone for SearchHit {
    fn clone(&self) -> (r: Self)
        ensures
            r == *self,
    {
        SearchHit { name: self.name.clone(), kind: self.kind.clone() }
    }
}

impl Clone for AlbumInfo {
    fn clone(&self) -> (r: Self)
        ensures
            r == *self,
    {
        AlbumInfo {
            id: self.id,
            name: self.name.clone(),
            passphrase: self.passphrase.clone(),
            item_count: self.item_count,
        }
    }
}

impl Clone for PersonInfo {
    fn clone(&self) -> (r: Self)
        ensures
            r == *self,
    {
        PersonInfo { id: self.id, name: self.name.clone(), item_count: self.item_count }
    }
}

impl Clone for Album {
    fn clone(&self) -> (r: Self)
        ensures
            r == *self,
    {
        match self {
            Album::Normal(a) => Album::Normal(a.clone()),
            Album::Person(p, s) => Album::Person(p.clone(), *s),
        }
    }
}

/// The suggestion kinds the client understands.
pub open spec fn is_supported_kind(kind: Seq<char>) -> bool {
    kind == "album"@ || kind == "person"@ || kind == "shared_with_me"@
}

/// True when the hit's kind is one the client understands.
pub fn hit_supported(hit: &SearchHit) -> (r: bool)
    ensures
        r == is_supported_kind(hit.kind@),
{
    crate::text::str_eq(hit.kind.as_str(), "album") || crate::text::str_eq(
        hit.kind.as_str(),
        "person",
    ) || crate::text::str_eq(hit.kind.as_str(), "shared_with_me")
}

/// What the kept suggestions are: no more hits than came in, every kept hit
/// is of a supported kind, and every supported hit of the input is kept.
pub proof fn lemma_filtered_suggestions(hits: Seq<SearchHit>, kept: Seq<SearchHit>)
    requires
        kept == hits.filter(|h: SearchHit| is_supported_kind(h.kind@)),
    ensures
        kept.len() <= hits.len(),
        forall|i: int| 0 <= i < kept.len() ==> is_supported_kind((#[trigger] kept[i]).kind@),
        forall|i: int|
            0 <= i < hits.len() && is_supported_kind((#[trigger] hits[i]).kind@)
                ==> kept.contains(hits[i]),
{
    let pred = |h: SearchHit| is_supported_kind(h.kind@);
    hits.lemma_filter_len(pred);
    assert forall|i: int| 0 <= i < kept.len() implies is_supported_kind(
        (#[trigger] kept[i]).kind@,
    ) by {
        hits.lemma_filter_pred(pred, i);
    }
    assert forall|i: int|
        0 <= i < hits.len() && is_supported_kind((#[trigger] hits[i]).kind@) implies kept.contains(
        hits[i],
    ) by {
        hits.lemma_filter_contains(pred, i);
    }
}

/// Keeps the suggestion hits of a supported kind, in order.
pub fn filter_suggestions(hits: Vec<SearchHit>) -> (r: Vec<SearchHit>)
    ensures
        r@ == hits@.filter(|h: SearchHit| is_supported_kind(h.kind@)),
{
    let ghost pred = |h: SearchHit| is_supported_kind(h.kind@);
    let mut r: Vec<SearchHit> = Vec::new();
    let mut i: usize = 0;
    proof {
        assert(hits@.take(0) =~= Seq::<SearchHit>::empty());
        reveal(Seq::filter);
    }
    while i < hits.len()
        invariant
            0 <= i <= hits@.len(),
            r@ == hits@.take(i as int).filter(pred),
            pred == (|h: SearchHit| is_supported_kind(h.kind@)),
        decreases hits@.len() - i,
    {
        proof {
            reveal(Seq::filter);
            assert(hits@.take(i + 1).drop_last() =~= hits@.take(i as int));
            assert(hits@.take(i + 1).last() == hits@[i as int]);
        }
        if hit_supported(&hits[i]) {
            r.push(hits[i].clone());
            proof {
                assert(r@ =~= hits@.take(i + 1).filter(pred));
            }
        } else {
            proof {
                assert(r@ =~= hits@.take(i + 1).filter(pred));
            }
        }
        i += 1;
    }
    proof {
        assert(hits@.take(hits@.len() as int) =~= hits@);
    }
    r
}

} // verus!
