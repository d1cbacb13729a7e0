//! Album resolution: a name is searched case-insensitively through the
//! account's collections in a fixed priority order — owned albums, albums
//! shared with the account, person albums of the personal space (when the
//! account has them), person albums of the shared space (when the shared
//! space has them). The first match wins; no match is an answer, not an
//! error.

use vstd::prelude::*;
use crate::album::{
    Album, AlbumInfo, PersonInfo, SearchHit, find_album_match, find_person_match, no_album_match,
    no_person_match,
};
use crate::api::Space;
use crate::client::{TeamSpaceSettings, UserSettings};
use crate::text::eq_ci;

verus! {

/// The index of the first album whose name matches, if any.
pub open spec fn first_album_idx(albums: Seq<AlbumInfo>, name: Seq<char>) -> Option<int>
    decreases albums.len(),
{
    if albums.len() == 0 {
        None
    } else if eq_ci(albums[0].name@, name) {
        Some(0int)
    } else {
        match first_album_idx(albums.drop_first(), name) {
            Some(i) => Some(i + 1),
            None => None,
        }
    }
}

/// The index of the first person whose name matches, if any.
pub open spec fn first_person_idx(people: Seq<PersonInfo>, name: Seq<char>) -> Option<int>
    decreases people.len(),
{
    if people.len() == 0 {
        None
    } else if eq_ci(people[0].name@, name) {
        Some(0int)
    } else {
        match first_person_idx(people.drop_first(), name) {
            Some(i) => Some(i + 1),
            None => None,
        }
    }
}

/// What `first_album_idx` returns: the first matching index, or nothing when
/// no album matches.
pub proof fn lemma_first_album_idx(albums: Seq<AlbumInfo>, name: Seq<char>)
    ensures
        match first_album_idx(albums, name) {
            Some(i) => 0 <= i < albums.len() && eq_ci(albums[i].name@, name) && (forall|j: int|
                0 <= j < i ==> !eq_ci(albums[j].name@, name)),
            None => no_album_match(albums, name),
        },
    decreases albums.len(),
{
    if albums.len() == 0 {
    } else if eq_ci(albums[0].name@, name) {
    } else {
        let rest = albums.drop_first();
        lemma_first_album_idx(rest, name);
        assert(forall|j: int| 1 <= j < albums.len() ==> albums[j] == #[trigger] rest[j - 1]);
        match first_album_idx(rest, name) {
            Some(i0) => {
                assert(first_album_idx(albums, name) == Some(i0 + 1));
                assert(albums[i0 + 1] == rest[i0]);
                assert forall|j: int| 0 <= j < i0 + 1 implies !eq_ci(albums[j].name@, name) by {
                    if j >= 1 {
                        assert(albums[j] == rest[j - 1]);
                    }
                }
            },
            None => {
                assert forall|j: int|
                    0 <= j < albums.len() implies !eq_ci(albums[j].name@, name) by {
                    if j >= 1 {
                        assert(albums[j] == rest[j - 1]);
                    }
                }
            },
        }
    }
}

/// What `first_person_idx` returns.
pub proof fn lemma_first_person_idx(people: Seq<PersonInfo>, name: Seq<char>)
    ensures
        match first_person_idx(people, name) {
            Some(i) => 0 <= i < people.len() && eq_ci(people[i].name@, name) && (forall|j: int|
                0 <= j < i ==> !eq_ci(people[j].name@, name)),
            None => no_person_match(people, name),
        },
    decreases people.len(),
{
    if people.len() == 0 {
    } else if eq_ci(people[0].name@, name) {
    } else {
        let rest = people.drop_first();
        lemma_first_person_idx(rest, name);
        assert(forall|j: int| 1 <= j < people.len() ==> people[j] == #[trigger] rest[j - 1]);
        match first_person_idx(rest, name) {
            Some(i0) => {
                assert(first_person_idx(people, name) == Some(i0 + 1));
                assert(people[i0 + 1] == rest[i0]);
                assert forall|j: int| 0 <= j < i0 + 1 implies !eq_ci(people[j].name@, name) by {
                    if j >= 1 {
                        assert(people[j] == rest[j - 1]);
                    }
                }
            },
            None => {
                assert forall|j: int|
                    0 <= j < people.len() implies !eq_ci(people[j].name@, name) by {
                    if j >= 1 {
                        assert(people[j] == rest[j - 1]);
                    }
                }
            },
        }
    }
}

/// Everything the search can look through, fully fetched.
#[derive(Debug)]
pub struct Collections {
    pub owned: Vec<AlbumInfo>,
    pub shared: Vec<AlbumInfo>,
    pub person_personal: Vec<PersonInfo>,
    pub person_shared: Vec<PersonInfo>,
}

/// The album the search returns: the first match of the highest-priority
/// collection that has one, with the person collections searched only when
/// their feature is on.
pub open spec fn spec_resolve(
    name: Seq<char>,
    owned: Seq<AlbumInfo>,
    shared: Seq<AlbumInfo>,
    person_personal: Seq<PersonInfo>,
    person_shared: Seq<PersonInfo>,
    enable_person: bool,
    team_enable_person: Option<bool>,
) -> Option<Album> {
    match first_album_idx(owned, name) {
        Some(i) => Some(Album::Normal(owned[i])),
        None => match first_album_idx(shared, name) {
            Some(i) => Some(Album::Normal(shared[i])),
            None => {
                let personal_hit: Option<int> = if enable_person {
                    first_person_idx(person_personal, name)
                } else {
                    None
                };
                match personal_hit {
                    Some(i) => Some(Album::Person(person_personal[i], Space::Personal)),
                    None => {
                        let shared_hit: Option<int> = if team_enable_person == Some(true) {
                            first_person_idx(person_shared, name)
                        } else {
                            None
                        };
                        match shared_hit {
                            Some(i) => Some(Album::Person(person_shared[i], Space::Shared)),
                            None => None,
                        }
                    },
                }
            },
        },
    }
}

proof fn lemma_first_album_idx_unique(albums: Seq<AlbumInfo>, name: Seq<char>, i: int)
    requires
        0 <= i < albums.len(),
        eq_ci(albums[i].name@, name),
        forall|j: int| 0 <= j < i ==> !eq_ci(albums[j].name@, name),
    ensures
        first_album_idx(albums, name) == Some(i),
{
    lemma_first_album_idx(albums, name);
}

proof fn lemma_first_person_idx_unique(people: Seq<PersonInfo>, name: Seq<char>, i: int)
    requires
        0 <= i < people.len(),
        eq_ci(people[i].name@, name),
        forall|j: int| 0 <= j < i ==> !eq_ci(people[j].name@, name),
    ensures
        first_person_idx(people, name) == Some(i),
{
    lemma_first_person_idx(people, name);
}

/// Searches the collections for `album_name` in priority order, first match
/// winning, comparing names without regard to ASCII case.
pub fn find_album(
    album_name: &str,
    user_settings: &UserSettings,
    team_space_settings: &TeamSpaceSettings,
    collections: &Collections,
) -> (r: Option<Album>)
    ensures
        r == spec_resolve(
            album_name@,
            collections.owned@,
            collections.shared@,
            collections.person_personal@,
            collections.person_shared@,
            user_settings.enable_person,
            team_space_settings.enable_person,
        ),
{
    if let Some(i) = find_album_match(&collections.owned, album_name) {
        proof {
            lemma_first_album_idx_unique(collections.owned@, album_name@, i as int);
        }
        return Some(Album::Normal(collections.owned[i].clone()));
    }
    proof {
        lemma_first_album_idx(collections.owned@, album_name@);
    }
    if let Some(i) = find_album_match(&collections.shared, album_name) {
        proof {
            lemma_first_album_idx_unique(collections.shared@, album_name@, i as int);
        }
        return Some(Album::Normal(collections.shared[i].clone()));
    }
    proof {
        lemma_first_album_idx(collections.shared@, album_name@);
    }
    if user_settings.enable_person {
        if let Some(i) = find_person_match(&collections.person_personal, album_name) {
            proof {
                lemma_first_person_idx_unique(
                    collections.person_personal@,
                    album_name@,
                    i as int,
                );
            }
            return Some(Album::Person(collections.person_personal[i].clone(), Space::Personal));
        }
        proof {
            lemma_first_person_idx(collections.person_personal@, album_name@);
        }
    }
    let team_person: bool = match team_space_settings.enable_person {
        Some(b) => b,
        None => false,
    };
    if team_person {
        if let Some(i) = find_person_match(&collections.person_shared, album_name) {
            proof {
                lemma_first_person_idx_unique(collections.person_shared@, album_name@, i as int);
            }
            return Some(Album::Person(collections.person_shared[i].clone(), Space::Shared));
        }
        proof {
            lemma_first_person_idx(collections.person_shared@, album_name@);
        }
    }
    None
}

/// A name present, up to ASCII case, in exactly one searched collection and
/// there on exactly one album is resolved to that album — whatever the case
/// of the query or of the stored name. The match's place is given by
/// `loc` (0 owned, 1 shared, 2 person albums of the personal space, 3 person
/// albums of the shared space) and its index `idx` within that collection;
/// every other entry of every collection does not match. Both person
/// collections count as searched because both person features are on.
pub proof fn lemma_resolve_unique_match(
    name: Seq<char>,
    owned: Seq<AlbumInfo>,
    shared: Seq<AlbumInfo>,
    person_personal: Seq<PersonInfo>,
    person_shared: Seq<PersonInfo>,
    loc: int,
    idx: int,
)
    requires
        0 <= loc < 4,
        loc == 0 ==> 0 <= idx < owned.len() && eq_ci(owned[idx].name@, name),
        loc == 1 ==> 0 <= idx < shared.len() && eq_ci(shared[idx].name@, name),
        loc == 2 ==> 0 <= idx < person_personal.len() && eq_ci(person_personal[idx].name@, name),
        loc == 3 ==> 0 <= idx < person_shared.len() && eq_ci(person_shared[idx].name@, name),
        forall|j: int|
            0 <= j < owned.len() && !(loc == 0 && j == idx) ==> !eq_ci(owned[j].name@, name),
        forall|j: int|
            0 <= j < shared.len() && !(loc == 1 && j == idx) ==> !eq_ci(shared[j].name@, name),
        forall|j: int|
            0 <= j < person_personal.len() && !(loc == 2 && j == idx) ==> !eq_ci(
                person_personal[j].name@,
                name,
            ),
        forall|j: int|
            0 <= j < person_shared.len() && !(loc == 3 && j == idx) ==> !eq_ci(
                person_shared[j].name@,
                name,
            ),
    ensures
        spec_resolve(name, owned, shared, person_personal, person_shared, true, Some(true))
            == (if loc == 0 {
            Some(Album::Normal(owned[idx]))
        } else if loc == 1 {
            Some(Album::Normal(shared[idx]))
        } else if loc == 2 {
            Some(Album::Person(person_personal[idx], Space::Personal))
        } else {
            Some(Album::Person(person_shared[idx], Space::Shared))
        }),
{
    lemma_first_album_idx(owned, name);
    lemma_first_album_idx(shared, name);
    lemma_first_person_idx(person_personal, name);
    lemma_first_person_idx(person_shared, name);
    if loc == 0 {
        lemma_first_album_idx_unique(owned, name, idx);
    } else if loc == 1 {
        lemma_first_album_idx_unique(shared, name, idx);
    } else if loc == 2 {
        lemma_first_person_idx_unique(person_personal, name, idx);
    } else {
        lemma_first_person_idx_unique(person_shared, name, idx);
    }
}

/// A name absent, up to ASCII case, from every collection resolves to
/// nothing, whatever the feature flags say.
pub proof fn lemma_resolve_absent(
    name: Seq<char>,
    owned: Seq<AlbumInfo>,
    shared: Seq<AlbumInfo>,
    person_personal: Seq<PersonInfo>,
    person_shared: Seq<PersonInfo>,
    enable_person: bool,
    team_enable_person: Option<bool>,
)
    requires
        no_album_match(owned, name),
        no_album_match(shared, name),
        no_person_match(person_personal, name),
        no_person_match(person_shared, name),
    ensures
        spec_resolve(
            name,
            owned,
            shared,
            person_personal,
            person_shared,
            enable_person,
            team_enable_person,
        ) is None,
{
    lemma_first_album_idx(owned, name);
    lemma_first_album_idx(shared, name);
    lemma_first_person_idx(person_personal, name);
    lemma_first_person_idx(person_shared, name);
}

/// Where the incremental search stands: which collection is being fetched,
/// or its final answer.
#[derive(Debug)]
pub enum ResolveStage {
    /// Waiting for the owned album count.
    OwnedCount,
    /// Waiting for the owned album list of the counted length.
    OwnedList(u32),
    /// Waiting for the page of shared-with-me albums at this offset.
    SharedPage(u32),
    /// Waiting for the person album count of a space.
    PersonCount(Space),
    /// Waiting for the person album list of a space, of the counted length.
    PersonList(Space, u32),
    /// The search is over.
    Done(Option<Album>),
}

/// One fetched answer handed to the search.
#[derive(Debug)]
pub enum ResolveEvent {
    Count(u32),
    AlbumPage(Vec<AlbumInfo>),
    People(Vec<PersonInfo>),
}

/// The incremental album search: the embedding program fetches what the
/// current stage asks for and hands the answer back, one event per step,
/// until the stage is `Done`. The collections are queried in priority order
/// and only as far as needed: the owned list is skipped when the count is
/// zero, shared albums come in fixed pages of fifty until a short page
/// confirms exhaustion, and each person collection is consulted only when its
/// feature is on.
#[derive(Debug)]
pub struct Resolver {
    pub name: String,
    pub enable_person: bool,
    pub team_person: bool,
    pub stage: ResolveStage,
}

/// The stage that follows the owned albums when they yield no match.
pub open spec fn spec_after_owned() -> ResolveStage {
    ResolveStage::SharedPage(0)
}

/// The stage that follows the shared albums when they yield no match.
pub open spec fn spec_after_shared(enable_person: bool, team_person: bool) -> ResolveStage {
    if enable_person {
        ResolveStage::PersonCount(Space::Personal)
    } else if team_person {
        ResolveStage::PersonCount(Space::Shared)
    } else {
        ResolveStage::Done(None)
    }
}

/// The stage that follows the person albums of a space when they yield no
/// match.
pub open spec fn spec_after_person(space: Space, team_person: bool) -> ResolveStage {
    match space {
        Space::Personal => if team_person {
            ResolveStage::PersonCount(Space::Shared)
        } else {
            ResolveStage::Done(None)
        },
        Space::Shared => ResolveStage::Done(None),
    }
}

/// The event kind a stage expects.
pub open spec fn stage_expects(stage: ResolveStage, event: ResolveEvent) -> bool {
    match stage {
        ResolveStage::OwnedCount => event is Count,
        ResolveStage::OwnedList(_) => event is AlbumPage,
        ResolveStage::SharedPage(_) => event is AlbumPage,
        ResolveStage::PersonCount(_) => event is Count,
        ResolveStage::PersonList(_, _) => event is People,
        ResolveStage::Done(_) => false,
    }
}

impl Resolver {
    /// Starts a search for `name` under the given feature flags. The search
    /// begins with the owned album count.
    pub fn new(name: String, user_settings: &UserSettings, team_space_settings: &TeamSpaceSettings)
        -> (r: Resolver)
        ensures
            r.name@ == name@,
            r.enable_person == user_settings.enable_person,
            r.team_person == (team_space_settings.enable_person == Some(true)),
            r.stage == ResolveStage::OwnedCount,
    {
        let team_person: bool = match team_space_settings.enable_person {
            Some(b) => b,
            None => false,
        };
        Resolver {
            name,
            enable_person: user_settings.enable_person,
            team_person,
            stage: ResolveStage::OwnedCount,
        }
    }

    /// Feeds the search the answer its current stage waits for, keeping the
    /// strict priority order: a matching album ends the search at once; an
    /// exhausted collection hands over to the next searched one; exhausting
    /// the last one ends the search with no album.
    pub fn step(&mut self, event: ResolveEvent)
        requires
            stage_expects(old(self).stage, event),
            old(self).stage matches ResolveStage::SharedPage(off) ==> off + 50 <= u32::MAX,
        ensures
            final(self).name == old(self).name,
            final(self).enable_person == old(self).enable_person,
            final(self).team_person == old(self).team_person,
            final(self).stage == spec_step(
                old(self).stage,
                old(self).name@,
                old(self).enable_person,
                old(self).team_person,
                event,
            ),
            match (old(self).stage, event) {
                (ResolveStage::OwnedCount, ResolveEvent::Count(c)) => final(self).stage == (if c
                    > 0 {
                    ResolveStage::OwnedList(c)
                } else {
                    spec_after_owned()
                }),
                (ResolveStage::OwnedList(_), ResolveEvent::AlbumPage(albums)) => match
                    first_album_idx(albums@, old(self).name@) {
                    Some(i) => final(self).stage == ResolveStage::Done(
                        Some(Album::Normal(albums@[i])),
                    ),
                    None => final(self).stage == spec_after_owned(),
                },
                (ResolveStage::SharedPage(off), ResolveEvent::AlbumPage(page)) => match
                    first_album_idx(page@, old(self).name@) {
                    Some(i) => final(self).stage == ResolveStage::Done(
                        Some(Album::Normal(page@[i])),
                    ),
                    None => if page@.len() < 50 {
                        final(self).stage == spec_after_shared(
                            old(self).enable_person,
                            old(self).team_person,
                        )
                    } else {
                        final(self).stage == ResolveStage::SharedPage((off + 50) as u32)
                    },
                },
                (ResolveStage::PersonCount(space), ResolveEvent::Count(c)) => final(self).stage
                    == ResolveStage::PersonList(space, c),
                (ResolveStage::PersonList(space, _), ResolveEvent::People(people)) => match
                    first_person_idx(people@, old(self).name@) {
                    Some(i) => final(self).stage == ResolveStage::Done(
                        Some(Album::Person(people@[i], space)),
                    ),
                    None => final(self).stage == spec_after_person(space, old(self).team_person),
                },
                _ => false,
            },
    {
        let next: ResolveStage = match (&self.stage, &event) {
            (ResolveStage::OwnedCount, ResolveEvent::Count(c)) => {
                if *c > 0 {
                    ResolveStage::OwnedList(*c)
                } else {
                    ResolveStage::SharedPage(0)
                }
            },
            (ResolveStage::OwnedList(_), ResolveEvent::AlbumPage(albums)) => {
                match find_album_match(albums, self.name.as_str()) {
                    Some(i) => {
                        proof {
                            lemma_first_album_idx_unique(albums@, self.name@, i as int);
                        }
                        ResolveStage::Done(Some(Album::Normal(albums[i].clone())))
                    },
                    None => {
                        proof {
                            lemma_first_album_idx(albums@, self.name@);
                        }
                        ResolveStage::SharedPage(0)
                    },
                }
            },
            (ResolveStage::SharedPage(off), ResolveEvent::AlbumPage(page)) => {
                match find_album_match(page, self.name.as_str()) {
                    Some(i) => {
                        proof {
                            lemma_first_album_idx_unique(page@, self.name@, i as int);
                        }
                        ResolveStage::Done(Some(Album::Normal(page[i].clone())))
                    },
                    None => {
                        proof {
                            lemma_first_album_idx(page@, self.name@);
                        }
                        if page.len() < 50 {
                            self.next_after_shared()
                        } else {
                            ResolveStage::SharedPage(*off + 50)
                        }
                    },
                }
            },
            (ResolveStage::PersonCount(space), ResolveEvent::Count(c)) => {
                ResolveStage::PersonList(*space, *c)
            },
            (ResolveStage::PersonList(space, _), ResolveEvent::People(people)) => {
                match find_person_match(people, self.name.as_str()) {
                    Some(i) => {
                        proof {
                            lemma_first_person_idx_unique(people@, self.name@, i as int);
                        }
                        ResolveStage::Done(Some(Album::Person(people[i].clone(), *space)))
                    },
                    None => {
                        proof {
                            lemma_first_person_idx(people@, self.name@);
                        }
                        match space {
                            Space::Personal => {
                                if self.team_person {
                                    ResolveStage::PersonCount(Space::Shared)
                                } else {
                                    ResolveStage::Done(None)
                                }
                            },
                            Space::Shared => ResolveStage::Done(None),
                        }
                    },
                }
            },
            _ => {
                proof {
                    assert(false);
                }
                ResolveStage::Done(None)
            },
        };
        self.stage = next;
    }

    fn next_after_shared(&self) -> (r: ResolveStage)
        ensures
            r == spec_after_shared(self.enable_person, self.team_person),
    {
        if self.enable_person {
            ResolveStage::PersonCount(Space::Personal)
        } else if self.team_person {
            ResolveStage::PersonCount(Space::Shared)
        } else {
            ResolveStage::Done(None)
        }
    }
}

/// One page of the shared collection as the paged listing serves it: up to
/// fifty albums from the offset on, and nothing once the offset is past the
/// end.
pub open spec fn shared_page(shared: Seq<AlbumInfo>, off: int) -> Seq<AlbumInfo> {
    if off >= shared.len() {
        Seq::empty()
    } else if off + 50 <= shared.len() {
        shared.subrange(off, off + 50)
    } else {
        shared.subrange(off, shared.len() as int)
    }
}

/// The functional mirror of one search step: the stage that follows a stage
/// and the event it waited for.
pub open spec fn spec_step(
    stage: ResolveStage,
    name: Seq<char>,
    enable_person: bool,
    team_person: bool,
    event: ResolveEvent,
) -> ResolveStage {
    match (stage, event) {
        (ResolveStage::OwnedCount, ResolveEvent::Count(c)) => if c > 0 {
            ResolveStage::OwnedList(c)
        } else {
            spec_after_owned()
        },
        (ResolveStage::OwnedList(_), ResolveEvent::AlbumPage(albums)) => match first_album_idx(
            albums@,
            name,
        ) {
            Some(i) => ResolveStage::Done(Some(Album::Normal(albums@[i]))),
            None => spec_after_owned(),
        },
        (ResolveStage::SharedPage(off), ResolveEvent::AlbumPage(page)) => match first_album_idx(
            page@,
            name,
        ) {
            Some(i) => ResolveStage::Done(Some(Album::Normal(page@[i]))),
            None => if page@.len() < 50 {
                spec_after_shared(enable_person, team_person)
            } else {
                ResolveStage::SharedPage((off + 50) as u32)
            },
        },
        (ResolveStage::PersonCount(space), ResolveEvent::Count(c)) => ResolveStage::PersonList(
            space,
            c,
        ),
        (ResolveStage::PersonList(space, _), ResolveEvent::People(people)) => match
            first_person_idx(people@, name) {
            Some(i) => ResolveStage::Done(Some(Album::Person(people@[i], space))),
            None => spec_after_person(space, team_person),
        },
        (s, _) => s,
    }
}

/// The event a stage's request fetches when the account's collections are as
/// given: a zero count only when the collection is empty, the whole owned and
/// person collections, and the right page of the shared collection.
pub open spec fn event_matches(
    stage: ResolveStage,
    event: ResolveEvent,
    owned: Seq<AlbumInfo>,
    shared: Seq<AlbumInfo>,
    person_personal: Seq<PersonInfo>,
    person_shared: Seq<PersonInfo>,
) -> bool {
    match (stage, event) {
        (ResolveStage::OwnedCount, ResolveEvent::Count(c)) => c == 0 ==> owned.len() == 0,
        (ResolveStage::OwnedList(_), ResolveEvent::AlbumPage(page)) => page@ == owned,
        (ResolveStage::SharedPage(off), ResolveEvent::AlbumPage(page)) => page@ == shared_page(
            shared,
            off as int,
        ),
        (ResolveStage::PersonCount(_), ResolveEvent::Count(_)) => true,
        (ResolveStage::PersonList(space, _), ResolveEvent::People(people)) => people@ == (
        match space {
            Space::Personal => person_personal,
            Space::Shared => person_shared,
        }),
        _ => false,
    }
}

/// What holds of a search over the given collections at each stage — in
/// particular, at `Done` the answer is exactly the priority resolution over
/// the whole collections. It holds trivially at the starting stage and every
/// matching step preserves it.
pub open spec fn search_invariant(
    stage: ResolveStage,
    name: Seq<char>,
    enable_person: bool,
    team_enable_person: Option<bool>,
    owned: Seq<AlbumInfo>,
    shared: Seq<AlbumInfo>,
    person_personal: Seq<PersonInfo>,
    person_shared: Seq<PersonInfo>,
) -> bool {
    match stage {
        ResolveStage::OwnedCount => true,
        ResolveStage::OwnedList(_) => true,
        ResolveStage::SharedPage(off) => no_album_match(owned, name) && (forall|j: int|
            0 <= j < off && j < shared.len() ==> !eq_ci(shared[j].name@, name)),
        ResolveStage::PersonCount(space) => person_stage_invariant(
            space,
            name,
            enable_person,
            team_enable_person,
            owned,
            shared,
            person_personal,
        ),
        ResolveStage::PersonList(space, _) => person_stage_invariant(
            space,
            name,
            enable_person,
            team_enable_person,
            owned,
            shared,
            person_personal,
        ),
        ResolveStage::Done(r) => r == spec_resolve(
            name,
            owned,
            shared,
            person_personal,
            person_shared,
            enable_person,
            team_enable_person,
        ),
    }
}

/// What holds when the search reaches the person albums of a space.
pub open spec fn person_stage_invariant(
    space: Space,
    name: Seq<char>,
    enable_person: bool,
    team_enable_person: Option<bool>,
    owned: Seq<AlbumInfo>,
    shared: Seq<AlbumInfo>,
    person_personal: Seq<PersonInfo>,
) -> bool {
    no_album_match(owned, name) && no_album_match(shared, name) && (match space {
        Space::Personal => enable_person,
        Space::Shared => (enable_person ==> no_person_match(person_personal, name))
            && team_enable_person == Some(true),
    })
}

proof fn lemma_no_album_match_none(albums: Seq<AlbumInfo>, name: Seq<char>)
    requires
        no_album_match(albums, name),
    ensures
        first_album_idx(albums, name) is None,
{
    lemma_first_album_idx(albums, name);
}

proof fn lemma_no_person_match_none(people: Seq<PersonInfo>, name: Seq<char>)
    requires
        no_person_match(people, name),
    ensures
        first_person_idx(people, name) is None,
{
    lemma_first_person_idx(people, name);
}

/// A matching event preserves the search invariant: a machine fed the
/// account's true collections, stage by stage, can only end on
/// `Done(spec_resolve(..))`.
pub proof fn lemma_search_step_preserves(
    stage: ResolveStage,
    event: ResolveEvent,
    name: Seq<char>,
    enable_person: bool,
    team_enable_person: Option<bool>,
    owned: Seq<AlbumInfo>,
    shared: Seq<AlbumInfo>,
    person_personal: Seq<PersonInfo>,
    person_shared: Seq<PersonInfo>,
)
    requires
        stage_expects(stage, event),
        stage matches ResolveStage::SharedPage(off) ==> off + 50 <= u32::MAX,
        search_invariant(
            stage,
            name,
            enable_person,
            team_enable_person,
            owned,
            shared,
            person_personal,
            person_shared,
        ),
        event_matches(stage, event, owned, shared, person_personal, person_shared),
    ensures
        search_invariant(
            spec_step(stage, name, enable_person, team_enable_person == Some(true), event),
            name,
            enable_person,
            team_enable_person,
            owned,
            shared,
            person_personal,
            person_shared,
        ),
{
    let team_person = team_enable_person == Some(true);
    let next = spec_step(stage, name, enable_person, team_person, event);
    match (stage, event) {
        (ResolveStage::OwnedCount, ResolveEvent::Count(c)) => {
            if c == 0 {
                assert(owned.len() == 0);
            }
        },
        (ResolveStage::OwnedList(_), ResolveEvent::AlbumPage(albums)) => {
            lemma_first_album_idx(albums@, name);
            match first_album_idx(owned, name) {
                Some(i) => {
                    assert(next == ResolveStage::Done(Some(Album::Normal(owned[i]))));
                },
                None => {
                },
            }
        },
        (ResolveStage::SharedPage(off), ResolveEvent::AlbumPage(page)) => {
            let p = shared_page(shared, off as int);
            lemma_no_album_match_none(owned, name);
            let hi: int = if off >= shared.len() {
                off as int
            } else if off + 50 <= shared.len() {
                off + 50
            } else {
                shared.len() as int
            };
            if off < shared.len() {
                assert(p =~= shared.subrange(off as int, hi));
            } else {
                assert(p =~= Seq::<AlbumInfo>::empty());
            }
            assert(forall|k: int| 0 <= k < p.len() ==> p[k] == shared[off + k]);
            lemma_first_album_idx(p, name);
            match first_album_idx(p, name) {
                Some(i) => {
                    assert(eq_ci(shared[off + i].name@, name));
                    assert forall|j: int| 0 <= j < off + i implies !eq_ci(
                        shared[j].name@,
                        name,
                    ) by {
                        if j >= off {
                            assert(shared[j] == p[j - off]);
                        }
                    }
                    lemma_first_album_idx_unique(shared, name, off + i);
                    assert(next == ResolveStage::Done(Some(Album::Normal(shared[off + i]))));
                },
                None => {
                    if p.len() < 50 {
                        // A short page reaches the end of the collection:
                        // everything in it has now been searched. (An offset
                        // past the end serves an empty page, and the earlier
                        // pages already covered the whole collection.)
                        assert(off < shared.len() ==> hi == shared.len());
                        assert forall|j: int| 0 <= j < shared.len() implies !eq_ci(
                            shared[j].name@,
                            name,
                        ) by {
                            if j >= off {
                                assert(shared[j] == p[j - off]);
                            }
                        }
                        lemma_no_album_match_none(shared, name);
                        if !enable_person && !team_person {
                            assert(next == ResolveStage::Done(None::<Album>));
                        }
                    } else {
                        assert forall|j: int|
                            0 <= j < off + 50 && j < shared.len() implies !eq_ci(
                            shared[j].name@,
                            name,
                        ) by {
                            if j >= off {
                                assert(shared[j] == p[j - off]);
                            }
                        }
                    }
                },
            }
        },
        (ResolveStage::PersonCount(_), ResolveEvent::Count(_)) => {
        },
        (ResolveStage::PersonList(space, _), ResolveEvent::People(people)) => {
            lemma_no_album_match_none(owned, name);
            lemma_no_album_match_none(shared, name);
            match space {
                Space::Personal => {
                    lemma_first_person_idx(person_personal, name);
                    match first_person_idx(person_personal, name) {
                        Some(i) => {
                            assert(next == ResolveStage::Done(
                                Some(Album::Person(person_personal[i], Space::Personal)),
                            ));
                        },
                        None => {
                            if !team_person {
                                assert(next == ResolveStage::Done(None::<Album>));
                            }
                        },
                    }
                },
                Space::Shared => {
                    if enable_person {
                        lemma_no_person_match_none(person_personal, name);
                    }
                    lemma_first_person_idx(person_shared, name);
                    match first_person_idx(person_shared, name) {
                        Some(i) => {
                            assert(next == ResolveStage::Done(
                                Some(Album::Person(person_shared[i], Space::Shared)),
                            ));
                        },
                        None => {
                            assert(next == ResolveStage::Done(None::<Album>));
                        },
                    }
                },
            }
        },
        _ => {
        },
    }
}

/// The lines of the album-not-found report: the not-found line, then — only
/// when the suggestion list is not empty — a heading and one line per
/// suggested name with its kind.
pub fn album_not_found_lines(album_name: &str, matching: &Vec<SearchHit>) -> (r: Vec<String>)
    ensures
        matching@.len() == 0 ==> r@.len() == 1,
        matching@.len() > 0 ==> r@.len() == 2 + matching@.len(),
        r@[0]@ == "Album '"@ + album_name@ + "' not found."@,
        matching@.len() > 0 ==> r@[1]@ == "Other album names containing '"@ + album_name@
            + "':"@,
        forall|k: int|
            0 <= k < matching@.len() ==> #[trigger] r@[2 + k]@ == "- \""@ + matching@[k].name@
                + "\" ("@ + matching@[k].kind@ + ")"@,
{
    let mut r: Vec<String> = Vec::new();
    let mut head = String::new();
    head.append("Album '");
    head.append(album_name);
    head.append("' not found.");
    r.push(head);
    if matching.len() > 0 {
        let mut heading = String::new();
        heading.append("Other album names containing '");
        heading.append(album_name);
        heading.append("':");
        r.push(heading);
        let mut k: usize = 0;
        while k < matching.len()
            invariant
                0 <= k <= matching@.len(),
                r@.len() == 2 + k,
                r@[0]@ == "Album '"@ + album_name@ + "' not found."@,
                r@[1]@ == "Other album names containing '"@ + album_name@ + "':"@,
                forall|j: int|
                    0 <= j < k ==> #[trigger] r@[2 + j]@ == "- \""@ + matching@[j].name@
                        + "\" ("@ + matching@[j].kind@ + ")"@,
            decreases matching@.len() - k,
        {
            let mut line = String::new();
            line.append("- \"");
            line.append(matching[k].name.as_str());
            line.append("\" (");
            line.append(matching[k].kind.as_str());
            line.append(")");
            r.push(line);
            k += 1;
        }
    }
    r
}

} // verus!
