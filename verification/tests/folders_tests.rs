//! The listing workflow: the per-id lookup policy, the outcome bookkeeping,
//! and the printed lines.

use syno_photos_util::api::ApiError;
use syno_photos_util::client::{FolderInfo, ItemInfo, UserInfo, UserSettings};
use syno_photos_util::folders::{display_owner, distinct_folder_ids, find_outcome, find_user,
    folder_lookup_plan, no_access_message, photo_error_line, photo_location_line,
    FolderResolution, LookupPlan};

fn entitlements(home: bool, permission: &str) -> UserSettings {
    UserSettings {
        enable_home_service: home,
        enable_person: false,
        team_space_permission: permission.to_string(),
    }
}

fn photo(id: u32, folder_id: u32) -> ItemInfo {
    ItemInfo { id, filename: format!("f{id}.jpg"), folder_id, owner_user_id: 1 }
}

#[test]
fn lookup_policy_table() {
    assert_eq!(folder_lookup_plan(&entitlements(false, "none")), LookupPlan::NoAccess);
    assert_eq!(folder_lookup_plan(&entitlements(true, "none")), LookupPlan::PersonalOnly);
    assert_eq!(folder_lookup_plan(&entitlements(false, "view")), LookupPlan::SharedOnly);
    assert_eq!(folder_lookup_plan(&entitlements(true, "manage")), LookupPlan::PersonalThenShared);
}

#[test]
fn folder_ids_are_deduplicated() {
    let items = vec![photo(1, 4), photo(2, 5), photo(3, 4), photo(4, 5), photo(5, 6)];
    let ids = distinct_folder_ids(&items);
    assert_eq!(ids, [4, 5, 6]);
}

#[test]
fn resolution_keeps_every_id_with_its_outcome() {
    let ids = distinct_folder_ids(&vec![photo(1, 4), photo(2, 5)]);
    let input_len = ids.len();
    let mut resolution = FolderResolution::new(ids);
    assert!(!resolution.is_done());
    resolution.record(4, Ok(FolderInfo { id: 4, name: "/a".to_string() }));
    resolution.record(5, Err(ApiError::Dsm(642)));
    assert!(resolution.is_done());
    assert_eq!(resolution.results.len(), input_len);
    let ok = find_outcome(&resolution.results, 4).unwrap();
    assert!(resolution.results[ok].1.is_ok());
    let err = find_outcome(&resolution.results, 5).unwrap();
    assert!(matches!(resolution.results[err].1, Err(ApiError::Dsm(642))));
    assert!(find_outcome(&resolution.results, 6).is_none());
}

#[test]
fn owners_reported_as_service_paths_mean_the_shared_space() {
    assert_eq!(display_owner("/volume1/photo"), "Shared Space");
    assert_eq!(display_owner("/volume2/photo"), "Shared Space");
    assert_eq!(display_owner("bob"), "bob");
    assert_eq!(display_owner("/volume1/homes"), "/volume1/homes");
}

#[test]
fn location_lines() {
    assert_eq!(
        photo_location_line("cat.jpg", "bob", "/pets/"),
        "/var/services/homes/bob/Photos/pets/cat.jpg"
    );
    assert_eq!(
        photo_location_line("cat.jpg", "Shared Space", "/pets"),
        "/var/services/photo/pets/cat.jpg"
    );
}

#[test]
fn one_error_line_does_not_spoil_the_listing() {
    // Two folders: one resolves, one comes back as "no access or not found".
    let items = vec![photo(1, 4), photo(2, 5)];
    let mut resolution = FolderResolution::new(distinct_folder_ids(&items));
    resolution.record(4, Ok(FolderInfo { id: 4, name: "/pets".to_string() }));
    resolution.record(5, Err(ApiError::Dsm(642)));
    let users = vec![UserInfo { id: 1, name: "bob".to_string() }];
    let mut lines: Vec<String> = Vec::new();
    for it in &items {
        let idx = find_outcome(&resolution.results, it.folder_id).unwrap();
        let user_idx = find_user(&users, it.owner_user_id).unwrap();
        let owner = display_owner(users[user_idx].name.as_str());
        match &resolution.results[idx].1 {
            Ok(folder) => lines.push(photo_location_line(
                it.filename.as_str(),
                owner.as_str(),
                folder.name.as_str(),
            )),
            Err(ApiError::Dsm(642)) => {
                let msg = no_access_message(owner.as_str());
                lines.push(photo_error_line(it.filename.as_str(), msg.as_str()));
            }
            Err(_) => panic!("unexpected outcome"),
        }
    }
    assert_eq!(
        lines,
        [
            "/var/services/homes/bob/Photos/pets/f1.jpg",
            "Error: no access (owned by bob) 'f2.jpg'",
        ]
    );
}
