//! The wire layer: query and form assembly, endpoint identifiers, envelope
//! decoding and error-code classification.

use syno_photos_util::album::{Album, AlbumInfo, PersonInfo};
use syno_photos_util::api::{envelope_outcome, http_status_ok, is_mfa_code, is_no_access_code,
    entry_path, ApiError, Space};
use syno_photos_util::client::{ids_list_param, SessionClient};
use syno_photos_util::conf::Session;
use syno_photos_util::text::{eq_ignore_ascii_case, str_eq, str_is_blank, u32_to_dec, u64_to_dec};

fn client() -> SessionClient {
    let session = Session { url: "http://nas:5000".to_string(), cookie: "id=abc".to_string() };
    SessionClient::new(&session)
}

#[test]
fn query_for_counting_owned_albums() {
    let r = client().count_owned_albums_request();
    assert!(!r.post);
    assert_eq!(r.query, "api=SYNO.Foto.Browse.Album&method=count&version=2");
    assert!(r.form.is_empty());
}

#[test]
fn query_for_listing_owned_albums() {
    let r = client().list_owned_albums_request(17);
    assert_eq!(
        r.query,
        "api=SYNO.Foto.Browse.Album&method=list&version=2&offset=0&limit=17"
    );
}

#[test]
fn query_for_shared_album_page() {
    let r = client().list_shared_with_me_albums_request(50, 100);
    assert_eq!(
        r.query,
        "api=SYNO.Foto.Sharing.Misc&method=list_shared_with_me_album&version=2&offset=50&limit=100"
    );
}

#[test]
fn queries_for_people_use_the_space_endpoint() {
    let personal = client().count_people_request(Space::Personal);
    assert_eq!(
        personal.query,
        "api=SYNO.Foto.Browse.Person&method=count&version=2&show_more=true"
    );
    let shared = client().list_people_request(Space::Shared, 4);
    assert_eq!(
        shared.query,
        "api=SYNO.FotoTeam.Browse.Person&method=list&version=1&offset=0&limit=4"
    );
}

#[test]
fn query_for_settings() {
    assert_eq!(
        client().get_user_settings_request().query,
        "api=SYNO.Foto.Setting.User&method=get&version=1"
    );
    assert_eq!(
        client().get_team_space_settings_request().query,
        "api=SYNO.Foto.Setting.TeamSpace&method=get&version=1"
    );
}

#[test]
fn query_for_suggestions_and_users_and_folders() {
    assert_eq!(
        client().suggest_albums_request("Summer").query,
        "api=SYNO.Foto.Search.Search&method=suggest&version=6&keyword=Summer"
    );
    assert_eq!(
        client().get_users_request(&vec![3, 5]).query,
        "api=SYNO.Foto.UserInfo&method=get&version=1&id=[3,5]"
    );
    assert_eq!(
        client().get_folder_by_id_request(9, Space::Shared).query,
        "api=SYNO.FotoTeam.Browse.Folder&method=get&version=1&id=9"
    );
    assert_eq!(
        client().get_folder_by_name_request("/Trips").query,
        "api=SYNO.Foto.Browse.Folder&method=get&version=1&name=/Trips"
    );
}

#[test]
fn copy_request_is_a_post_with_form_fields() {
    let r = client().copy_photos_request(&vec![11, 12], Space::Personal, 7);
    assert!(r.post);
    assert_eq!(r.query, "api=SYNO.Foto.BackgroundTask.File");
    let form: Vec<(String, String)> = r.form;
    assert_eq!(form[0], ("method".to_string(), "copy".to_string()));
    assert_eq!(form[1], ("version".to_string(), "1".to_string()));
    assert_eq!(form[2], ("target_folder_id".to_string(), "7".to_string()));
    assert_eq!(form[3], ("item_id".to_string(), "[11,12]".to_string()));
    assert_eq!(form[4], ("action".to_string(), "skip".to_string()));
    assert_eq!(form[5], ("folder_id".to_string(), "[]".to_string()));
    assert_eq!(form.len(), 6);
}

#[test]
fn shared_copy_uses_the_team_endpoint() {
    let r = client().copy_photos_request(&vec![2], Space::Shared, 7);
    assert_eq!(r.query, "api=SYNO.FotoTeam.BackgroundTask.File");
}

#[test]
fn create_folder_is_a_post() {
    let r = client().create_folder_request("Trips", 1);
    assert!(r.post);
    assert_eq!(r.query, "api=SYNO.Foto.Browse.Folder");
    assert_eq!(r.form[2], ("name".to_string(), "Trips".to_string()));
    assert_eq!(r.form[3], ("target_id".to_string(), "1".to_string()));
}

#[test]
fn task_status_query_brackets_the_ids() {
    let r = client().get_task_status_request(&vec![4]);
    assert_eq!(
        r.query,
        "api=SYNO.Foto.BackgroundTask.Info&method=get_status&version=1&id=[4]"
    );
}

#[test]
fn item_queries_follow_the_album_variant() {
    let owned = Album::Normal(AlbumInfo {
        id: 3,
        name: "Mine".to_string(),
        passphrase: String::new(),
        item_count: 8,
    });
    assert_eq!(
        client().list_items_request(&owned, 8).query,
        "api=SYNO.Foto.Browse.Item&method=list&version=1&album_id=3&offset=0&limit=8"
    );
    let shared = Album::Normal(AlbumInfo {
        id: 3,
        name: "Theirs".to_string(),
        passphrase: "secret".to_string(),
        item_count: 2,
    });
    assert_eq!(
        client().list_items_request(&shared, 2).query,
        "api=SYNO.Foto.Browse.Item&method=list&version=1&passphrase=secret&offset=0&limit=2"
    );
    let face = Album::Person(
        PersonInfo { id: 12, name: "Grandma".to_string(), item_count: 4 },
        Space::Shared,
    );
    assert_eq!(
        client().list_items_request(&face, 4).query,
        "api=SYNO.FotoTeam.Browse.Item&method=list&version=1&person_id=12&offset=0&limit=4"
    );
}

#[test]
fn entry_path_trims_trailing_slashes() {
    assert_eq!(entry_path("/photo/"), "/photo/webapi/entry.cgi");
    assert_eq!(entry_path("/"), "/webapi/entry.cgi");
    assert_eq!(entry_path(""), "/webapi/entry.cgi");
    assert_eq!(entry_path("/a/b"), "/a/b/webapi/entry.cgi");
}

#[test]
fn envelope_rules() {
    assert_eq!(envelope_outcome(true, None, true), Ok(()));
    assert_eq!(envelope_outcome(true, Some(642), true), Err(ApiError::Dsm(642)));
    assert_eq!(envelope_outcome(false, Some(403), false), Err(ApiError::Dsm(403)));
    assert_eq!(envelope_outcome(false, None, true), Err(ApiError::Protocol));
    assert_eq!(envelope_outcome(true, None, false), Err(ApiError::Protocol));
}

#[test]
fn status_and_error_codes() {
    assert!(http_status_ok(200));
    assert!(http_status_ok(299));
    assert!(!http_status_ok(199));
    assert!(!http_status_ok(302));
    assert!(!http_status_ok(500));
    assert!(is_mfa_code(403));
    assert!(is_mfa_code(406));
    assert!(!is_mfa_code(400));
    assert!(is_no_access_code(642));
    assert!(!is_no_access_code(609));
}

#[test]
fn space_endpoints_match_the_api_crate() {
    assert_eq!(Space::Personal.browse_person_api(), syno_api::foto::browse::person::API);
    assert_eq!(Space::Shared.browse_item_api(), syno_api::foto_team::browse::item::API);
    assert_eq!(Space::Personal.browse_folder_api(), "SYNO.Foto.Browse.Folder");
    assert_eq!(Space::Shared.background_file_api(), "SYNO.FotoTeam.BackgroundTask.File");
}

#[test]
fn text_helpers() {
    assert!(eq_ignore_ascii_case("Grandma", "gRANDMA"));
    assert!(eq_ignore_ascii_case("", ""));
    assert!(!eq_ignore_ascii_case("Grandma", "Grandpa"));
    assert!(!eq_ignore_ascii_case("abc", "abcd"));
    assert!(str_eq("none", "none"));
    assert!(!str_eq("none", "None"));
    assert!(str_is_blank("  \t "));
    assert!(str_is_blank(""));
    assert!(!str_is_blank(" x "));
    assert_eq!(u32_to_dec(0), "0");
    assert_eq!(u32_to_dec(7), "7");
    assert_eq!(u32_to_dec(90123), "90123");
    assert_eq!(u64_to_dec(18446744073709551615), "18446744073709551615");
    assert_eq!(ids_list_param(&vec![]), "[]");
    assert_eq!(ids_list_param(&vec![42]), "[42]");
    assert_eq!(ids_list_param(&vec![1, 2, 3]), "[1,2,3]");
}
