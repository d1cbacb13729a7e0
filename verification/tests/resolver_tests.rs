//! Album resolution: priority order, case-insensitivity, the incremental
//! search, and the not-found report.

use syno_photos_util::album::{filter_suggestions, Album, AlbumInfo, PersonInfo, SearchHit};
use syno_photos_util::api::Space;
use syno_photos_util::client::{TeamSpaceSettings, UserSettings};
use syno_photos_util::resolver::{album_not_found_lines, find_album, Collections, ResolveEvent,
    Resolver, ResolveStage};

fn album(id: u32, name: &str) -> AlbumInfo {
    AlbumInfo { id, name: name.to_string(), passphrase: String::new(), item_count: 1 }
}

fn person(id: u32, name: &str) -> PersonInfo {
    PersonInfo { id, name: name.to_string(), item_count: 1 }
}

fn settings(enable_person: bool) -> UserSettings {
    UserSettings {
        enable_home_service: true,
        enable_person,
        team_space_permission: "view".to_string(),
    }
}

fn team(enable_person: Option<bool>) -> TeamSpaceSettings {
    TeamSpaceSettings { enabled: true, enable_person }
}

#[test]
fn a_name_in_one_collection_is_found_whatever_its_case() {
    let collections = Collections {
        owned: vec![album(1, "Holidays")],
        shared: vec![],
        person_personal: vec![person(9, "Grandma")],
        person_shared: vec![],
    };
    let found = find_album("gRANDMA", &settings(true), &team(Some(true)), &collections);
    match found {
        Some(Album::Person(p, Space::Personal)) => assert_eq!(p.name, "Grandma"),
        other => panic!("wrong resolution: {other:?}"),
    }
}

#[test]
fn absent_names_resolve_to_nothing() {
    let collections = Collections {
        owned: vec![album(1, "Holidays")],
        shared: vec![album(2, "Theirs")],
        person_personal: vec![person(9, "Grandma")],
        person_shared: vec![person(10, "Grandpa")],
    };
    let found = find_album("Nowhere", &settings(true), &team(Some(true)), &collections);
    assert!(found.is_none());
}

#[test]
fn owned_albums_win_over_every_later_collection() {
    let collections = Collections {
        owned: vec![album(1, "Pets")],
        shared: vec![album(2, "pets")],
        person_personal: vec![person(3, "PETS")],
        person_shared: vec![],
    };
    match find_album("pets", &settings(true), &team(Some(true)), &collections) {
        Some(Album::Normal(a)) => assert_eq!(a.id, 1),
        other => panic!("wrong resolution: {other:?}"),
    }
}

#[test]
fn person_collections_are_skipped_when_their_feature_is_off() {
    let collections = Collections {
        owned: vec![],
        shared: vec![],
        person_personal: vec![person(3, "Grandma")],
        person_shared: vec![person(4, "Grandma")],
    };
    assert!(find_album("Grandma", &settings(false), &team(None), &collections).is_none());
    match find_album("Grandma", &settings(false), &team(Some(true)), &collections) {
        Some(Album::Person(p, Space::Shared)) => assert_eq!(p.id, 4),
        other => panic!("wrong resolution: {other:?}"),
    }
}

fn page_of(n: usize, prefix: &str) -> Vec<AlbumInfo> {
    (0..n).map(|k| album(1000 + k as u32, format!("{prefix}{k}").as_str())).collect()
}

#[test]
fn incremental_search_follows_the_priority_order() {
    let mut r = Resolver::new("Trip".to_string(), &settings(false), &team(None));
    assert!(matches!(r.stage, ResolveStage::OwnedCount));
    r.step(ResolveEvent::Count(0));
    assert!(matches!(r.stage, ResolveStage::SharedPage(0)));
    // A full page without a match asks for the next page.
    r.step(ResolveEvent::AlbumPage(page_of(50, "Other")));
    assert!(matches!(r.stage, ResolveStage::SharedPage(50)));
    // A short page confirms exhaustion: no further page is requested.
    r.step(ResolveEvent::AlbumPage(page_of(1, "Last")));
    assert!(matches!(r.stage, ResolveStage::Done(None)));
}

#[test]
fn a_short_shared_page_ends_the_shared_stage() {
    let mut r = Resolver::new("Trip".to_string(), &settings(true), &team(None));
    r.step(ResolveEvent::Count(0));
    assert!(matches!(r.stage, ResolveStage::SharedPage(0)));
    r.step(ResolveEvent::AlbumPage(page_of(49, "Other")));
    assert!(matches!(r.stage, ResolveStage::PersonCount(Space::Personal)));
}

#[test]
fn a_match_in_a_short_shared_page_still_wins() {
    let mut r = Resolver::new("Trip".to_string(), &settings(true), &team(Some(true)));
    r.step(ResolveEvent::Count(0));
    r.step(ResolveEvent::AlbumPage(vec![album(5, "Other"), album(6, "trip")]));
    match &r.stage {
        ResolveStage::Done(Some(Album::Normal(a))) => assert_eq!(a.id, 6),
        other => panic!("wrong stage: {other:?}"),
    }
}

#[test]
fn incremental_search_stops_at_the_first_match() {
    let mut r = Resolver::new("Trip".to_string(), &settings(true), &team(Some(true)));
    r.step(ResolveEvent::Count(2));
    assert!(matches!(r.stage, ResolveStage::OwnedList(2)));
    r.step(ResolveEvent::AlbumPage(vec![album(5, "Other"), album(6, "TRIP")]));
    match &r.stage {
        ResolveStage::Done(Some(Album::Normal(a))) => assert_eq!(a.id, 6),
        other => panic!("wrong stage: {other:?}"),
    }
}

#[test]
fn incremental_search_consults_people_when_enabled() {
    let mut r = Resolver::new("Grandma".to_string(), &settings(true), &team(None));
    r.step(ResolveEvent::Count(0));
    r.step(ResolveEvent::AlbumPage(vec![]));
    assert!(matches!(r.stage, ResolveStage::PersonCount(Space::Personal)));
    r.step(ResolveEvent::Count(3));
    assert!(matches!(r.stage, ResolveStage::PersonList(Space::Personal, 3)));
    r.step(ResolveEvent::People(vec![person(1, "Uncle")]));
    assert!(matches!(r.stage, ResolveStage::Done(None)));
}

#[test]
fn suggestions_keep_only_supported_kinds() {
    let hits = vec![
        SearchHit { name: "A".to_string(), kind: "album".to_string() },
        SearchHit { name: "B".to_string(), kind: "place".to_string() },
        SearchHit { name: "C".to_string(), kind: "person".to_string() },
        SearchHit { name: "D".to_string(), kind: "shared_with_me".to_string() },
    ];
    let kept = filter_suggestions(hits);
    let names: Vec<&str> = kept.iter().map(|h| h.name.as_str()).collect();
    assert_eq!(names, ["A", "C", "D"]);
}

#[test]
fn not_found_report_shows_suggestions_only_when_there_are_any() {
    let bare = album_not_found_lines("Grandma", &vec![]);
    assert_eq!(bare, ["Album 'Grandma' not found."]);
    let hits = vec![SearchHit { name: "Grandmas".to_string(), kind: "album".to_string() }];
    let full = album_not_found_lines("Grandma", &hits);
    assert_eq!(
        full,
        [
            "Album 'Grandma' not found.",
            "Other album names containing 'Grandma':",
            "- \"Grandmas\" (album)",
        ]
    );
}

#[test]
fn album_identification_parameters() {
    let shared_album = Album::Normal(AlbumInfo {
        id: 7,
        name: "Theirs".to_string(),
        passphrase: "secret".to_string(),
        item_count: 3,
    });
    assert_eq!(shared_album.id_param(), ("passphrase", "secret".to_string()));
    let owned = Album::Normal(album(7, "Mine"));
    assert_eq!(owned.id_param(), ("album_id", "7".to_string()));
    let face = Album::Person(person(12, "Grandma"), Space::Shared);
    assert_eq!(face.id_param(), ("person_id", "12".to_string()));
    assert_eq!(face.item_count(), 1);
    assert_eq!(face.name(), "Grandma");
}
