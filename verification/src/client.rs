//! The session client: one verified request builder per API operation, plus
//! the plain data types in which the embedding program hands responses back.
//! Every builder pins the exact endpoint, method, version and parameters of
//! the wire request it produces.

use vstd::prelude::*;
use crate::album::Album;
use crate::api::{
    ApiParams, Space, WireRequest, get_request, param_views, post_request, spec_form,
    spec_post_query, spec_query,
};
use crate::conf::Session;
use crate::text::{dec_chars, u32_to_dec};

verus! {

/// The account settings the workflows branch on.
#[derive(Debug)]
pub struct UserSettings {
    /// The home service must be enabled for the personal space to exist.
    pub enable_home_service: bool,
    /// Person albums are available in the personal space.
    pub enable_person: bool,
    /// The account's shared space permission; `"none"` means no access.
    pub team_space_permission: String,
}

/// The shared space settings the workflows branch on.
#[derive(Debug)]
pub struct TeamSpaceSettings {
    pub enabled: bool,
    /// Person albums are available in the shared space.
    pub enable_person: Option<bool>,
}

/// A photo item of an album.
#[derive(Debug)]
pub struct ItemInfo {
    pub id: u32,
    pub filename: String,
    pub folder_id: u32,
    /// Zero marks an item owned by the shared space rather than a user.
    pub owner_user_id: u32,
}

impl Clone for ItemInfo {
    fn clone(&self) -> (r: Self)
        ensures
            r == *self,
    {
        ItemInfo {
            id: self.id,
            filename: self.filename.clone(),
            folder_id: self.folder_id,
            owner_user_id: self.owner_user_id,
        }
    }
}

/// A folder of either space.
#[derive(Debug)]
pub struct FolderInfo {
    pub id: u32,
    pub name: String,
}

impl Clone for FolderInfo {
    fn clone(&self) -> (r: Self)
        ensures
            r == *self,
    {
        FolderInfo { id: self.id, name: self.name.clone() }
    }
}

/// A user as the user info endpoint reports it.
#[derive(Debug)]
pub struct UserInfo {
    pub id: u32,
    pub name: String,
}

impl Clone for UserInfo {
    fn clone(&self) -> (r: Self)
        ensures
            r == *self,
    {
        UserInfo { id: self.id, name: self.name.clone() }
    }
}

/// One asynchronous copy task as the task status endpoint reports it.
#[derive(Debug)]
pub struct TaskInfo {
    pub id: u32,
    pub status: String,
    pub total: u32,
    pub completion: u32,
    pub skip: u32,
    pub error: u32,
}

impl Clone for TaskInfo {
    fn clone(&self) -> (r: Self)
        ensures
            r == *self,
    {
        TaskInfo {
            id: self.id,
            status: self.status.clone(),
            total: self.total,
            completion: self.completion,
            skip: self.skip,
            error: self.error,
        }
    }
}

impl TaskInfo {
    /// What the counters of a reported task always satisfy: the skipped and
    /// failed items are part of the completed ones, and the completed,
    /// skipped and failed items together never exceed the task's total.
    pub open spec fn wf(&self) -> bool {
        self.skip + self.error <= self.completion && self.completion + self.skip + self.error
            <= self.total
    }
}

/// Appends one parameter pair.
pub(crate) fn push_param(params: &mut Vec<(String, String)>, k: &str, v: String)
    ensures
        param_views(final(params)@) == param_views(old(params)@).push((k@, v@)),
{
    let ghost vg = v@;
    params.push((k.to_owned(), v));
    proof {
        let lhs = param_views(params@);
        let rhs = param_views(old(params)@).push((k@, vg));
        assert forall|j: int| 0 <= j < lhs.len() implies lhs[j] == rhs[j] by {
            assert(lhs[j] == (params@[j].0@, params@[j].1@));
            if j < old(params)@.len() {
                assert(params@[j] == old(params)@[j]);
                assert(param_views(old(params)@)[j] == (old(params)@[j].0@, old(params)@[j].1@));
            }
        }
        assert(lhs =~= rhs);
    }
}

/// The empty parameter list.
pub(crate) fn params0() -> (r: Vec<(String, String)>)
    ensures
        param_views(r@) == Seq::<(Seq<char>, Seq<char>)>::empty(),
{
    let r: Vec<(String, String)> = Vec::new();
    proof {
        assert(param_views(r@) =~= Seq::<(Seq<char>, Seq<char>)>::empty());
    }
    r
}

/// A list of one parameter pair.
pub(crate) fn params1(k1: &str, v1: String) -> (r: Vec<(String, String)>)
    ensures
        param_views(r@) == seq![(k1@, v1@)],
{
    let ghost g1 = v1@;
    let mut r = params0();
    push_param(&mut r, k1, v1);
    proof {
        assert(param_views(r@) =~= seq![(k1@, g1)]);
    }
    r
}

/// A list of two parameter pairs.
pub(crate) fn params2(k1: &str, v1: String, k2: &str, v2: String) -> (r: Vec<(String, String)>)
    ensures
        param_views(r@) == seq![(k1@, v1@), (k2@, v2@)],
{
    let ghost g1 = v1@;
    let ghost g2 = v2@;
    let mut r = params0();
    push_param(&mut r, k1, v1);
    push_param(&mut r, k2, v2);
    proof {
        assert(param_views(r@) =~= seq![(k1@, g1), (k2@, g2)]);
    }
    r
}

/// A list of three parameter pairs.
pub(crate) fn params3(k1: &str, v1: String, k2: &str, v2: String, k3: &str, v3: String) -> (r: Vec<
    (String, String),
>)
    ensures
        param_views(r@) == seq![(k1@, v1@), (k2@, v2@), (k3@, v3@)],
{
    let ghost g3 = v3@;
    let mut r = params2(k1, v1, k2, v2);
    let ghost pre = param_views(r@);
    push_param(&mut r, k3, v3);
    proof {
        assert(param_views(r@) =~= pre.push((k3@, g3)));
        assert(pre.push((k3@, g3)) =~= seq![pre[0], pre[1], (k3@, g3)]);
    }
    r
}

/// A list of four parameter pairs.
pub(crate) fn params4(
    k1: &str,
    v1: String,
    k2: &str,
    v2: String,
    k3: &str,
    v3: String,
    k4: &str,
    v4: String,
) -> (r: Vec<(String, String)>)
    ensures
        param_views(r@) == seq![(k1@, v1@), (k2@, v2@), (k3@, v3@), (k4@, v4@)],
{
    let ghost g4 = v4@;
    let mut r = params3(k1, v1, k2, v2, k3, v3);
    let ghost pre = param_views(r@);
    push_param(&mut r, k4, v4);
    proof {
        assert(param_views(r@) =~= pre.push((k4@, g4)));
        assert(pre.push((k4@, g4)) =~= seq![pre[0], pre[1], pre[2], (k4@, g4)]);
    }
    r
}

/// The decimal renderings of a list of ids, separated by commas.
pub open spec fn ids_chars(ids: Seq<u32>) -> Seq<char>
    decreases ids.len(),
{
    if ids.len() == 0 {
        Seq::empty()
    } else if ids.len() == 1 {
        dec_chars(ids[0] as int)
    } else {
        ids_chars(ids.drop_last()) + ","@ + dec_chars(ids.last() as int)
    }
}

/// A comma-separated id list in brackets, as the copy and status endpoints
/// expect it.
pub open spec fn bracketed_ids(ids: Seq<u32>) -> Seq<char> {
    "["@ + ids_chars(ids) + "]"@
}

/// Renders `[id,id,...]` for a parameter value.
pub fn ids_list_param(ids: &Vec<u32>) -> (r: String)
    ensures
        r@ == bracketed_ids(ids@),
{
    let mut inner = String::new();
    let mut i: usize = 0;
    proof {
        assert(ids@.take(0) =~= Seq::<u32>::empty());
    }
    while i < ids.len()
        invariant
            0 <= i <= ids@.len(),
            inner@ == ids_chars(ids@.take(i as int)),
        decreases ids@.len() - i,
    {
        if i > 0 {
            inner.append(",");
        }
        let d = u32_to_dec(ids[i]);
        inner.append(d.as_str());
        proof {
            let t = ids@.take(i + 1);
            assert(t.drop_last() =~= ids@.take(i as int));
            assert(t.last() == ids@[i as int]);
            if i == 0 {
                assert(inner@ =~= ids_chars(t));
            } else {
                assert(inner@ =~= ids_chars(t));
            }
        }
        i += 1;
    }
    proof {
        assert(ids@.take(ids@.len() as int) =~= ids@);
    }
    let mut r = String::new();
    r.append("[");
    r.append(inner.as_str());
    r.append("]");
    proof {
        assert(r@ =~= bracketed_ids(ids@));
    }
    r
}

/// Issues requests for one signed-in session. The stored address is the one
/// the embedding program sends each request to.
#[derive(Debug)]
pub struct SessionClient {
    pub dsm_url: String,
}

impl SessionClient {
    pub fn new(session: &Session) -> (r: Self)
        ensures
            r.dsm_url@ == session.url@,
    {
        SessionClient { dsm_url: session.url.clone() }
    }

    /// The request that fetches the account's user settings.
    pub fn get_user_settings_request(&self) -> (r: WireRequest)
        ensures
            !r.post,
            r.query@ == spec_query(
                "SYNO.Foto.Setting.User"@,
                "get"@,
                1,
                Seq::<(Seq<char>, Seq<char>)>::empty(),
            ),
    {
        get_request(ApiParams::new(crate::api::user_settings_api(), "get", 1), params0())
    }

    /// The request that fetches the shared space settings.
    pub fn get_team_space_settings_request(&self) -> (r: WireRequest)
        ensures
            !r.post,
            r.query@ == spec_query(
                "SYNO.Foto.Setting.TeamSpace"@,
                "get"@,
                1,
                Seq::<(Seq<char>, Seq<char>)>::empty(),
            ),
    {
        get_request(ApiParams::new(crate::api::team_space_settings_api(), "get", 1), params0())
    }

    /// The request that counts the albums the account owns.
    pub fn count_owned_albums_request(&self) -> (r: WireRequest)
        ensures
            !r.post,
            r.query@ == spec_query(
                "SYNO.Foto.Browse.Album"@,
                "count"@,
                2,
                Seq::<(Seq<char>, Seq<char>)>::empty(),
            ),
    {
        get_request(ApiParams::new(crate::api::album_browse_api(), "count", 2), params0())
    }

    /// The request that lists the first `limit` owned albums.
    pub fn list_owned_albums_request(&self, limit: u32) -> (r: WireRequest)
        ensures
            !r.post,
            r.query@ == spec_query(
                "SYNO.Foto.Browse.Album"@,
                "list"@,
                2,
                seq![("offset"@, "0"@), ("limit"@, dec_chars(limit as int))],
            ),
    {
        get_request(
            ApiParams::new(crate::api::album_browse_api(), "list", 2),
            params2("offset", "0".to_owned(), "limit", u32_to_dec(limit)),
        )
    }

    /// The request that lists one page of the albums shared with the account.
    pub fn list_shared_with_me_albums_request(&self, offset: u32, limit: u32) -> (r: WireRequest)
        ensures
            !r.post,
            r.query@ == spec_query(
                "SYNO.Foto.Sharing.Misc"@,
                "list_shared_with_me_album"@,
                2,
                seq![
                    ("offset"@, dec_chars(offset as int)),
                    ("limit"@, dec_chars(limit as int)),
                ],
            ),
    {
        get_request(
            ApiParams::new(crate::api::sharing_misc_api(), "list_shared_with_me_album", 2),
            params2("offset", u32_to_dec(offset), "limit", u32_to_dec(limit)),
        )
    }

    /// The request that counts the person albums of a space.
    pub fn count_people_request(&self, space: Space) -> (r: WireRequest)
        ensures
            !r.post,
            r.query@ == spec_query(
                crate::api::spec_person_api(space),
                "count"@,
                2,
                seq![("show_more"@, "true"@)],
            ),
    {
        get_request(
            ApiParams::new(space.browse_person_api(), "count", 2),
            params1("show_more", "true".to_owned()),
        )
    }

    /// The request that lists the first `limit` person albums of a space.
    pub fn list_people_request(&self, space: Space, limit: u32) -> (r: WireRequest)
        ensures
            !r.post,
            r.query@ == spec_query(
                crate::api::spec_person_api(space),
                "list"@,
                1,
                seq![("offset"@, "0"@), ("limit"@, dec_chars(limit as int))],
            ),
    {
        get_request(
            ApiParams::new(space.browse_person_api(), "list", 1),
            params2("offset", "0".to_owned(), "limit", u32_to_dec(limit)),
        )
    }

    /// The request that lists the first `limit` items of an album. The album
    /// chooses both the endpoint (by its variant and space) and its own
    /// identification parameter.
    pub fn list_items_request(&self, album: &Album, limit: u32) -> (r: WireRequest)
        ensures
            !r.post,
            r.query@ == spec_query(
                (match album {
                    Album::Normal(_) => "SYNO.Foto.Browse.Item"@,
                    Album::Person(_, space) => crate::api::spec_item_api(*space),
                }),
                "list"@,
                1,
                seq![
                    album.spec_id_param(),
                    ("offset"@, "0"@),
                    ("limit"@, dec_chars(limit as int)),
                ],
            ),
    {
        let (key, value) = album.id_param();
        let api = match album {
            Album::Normal(_) => crate::api::item_browse_api(),
            Album::Person(_, space) => space.browse_item_api(),
        };
        get_request(
            ApiParams::new(api, "list", 1),
            params3(key, value, "offset", "0".to_owned(), "limit", u32_to_dec(limit)),
        )
    }

    /// The request that asks for album suggestions by keyword. The endpoint
    /// is unreliable on the server side; callers treat its outcome as best
    /// effort.
    pub fn suggest_albums_request(&self, album_name: &str) -> (r: WireRequest)
        ensures
            !r.post,
            r.query@ == spec_query(
                "SYNO.Foto.Search.Search"@,
                "suggest"@,
                6,
                seq![("keyword"@, album_name@)],
            ),
    {
        get_request(
            ApiParams::new(crate::api::search_api(), "suggest", 6),
            params1("keyword", album_name.to_owned()),
        )
    }

    /// The request that looks a personal space folder up by its path.
    pub fn get_folder_by_name_request(&self, name: &str) -> (r: WireRequest)
        ensures
            !r.post,
            r.query@ == spec_query(
                "SYNO.Foto.Browse.Folder"@,
                "get"@,
                1,
                seq![("name"@, name@)],
            ),
    {
        get_request(
            ApiParams::new(crate::api::folder_browse_api(), "get", 1),
            params1("name", name.to_owned()),
        )
    }

    /// The request that creates a personal space folder under a parent.
    pub fn create_folder_request(&self, name: &str, parent_id: u32) -> (r: WireRequest)
        ensures
            r.post,
            r.query@ == spec_post_query("SYNO.Foto.Browse.Folder"@),
            param_views(r.form@) == spec_form(
                "create"@,
                1,
                seq![("name"@, name@), ("target_id"@, dec_chars(parent_id as int))],
            ),
    {
        post_request(
            ApiParams::new(crate::api::folder_browse_api(), "create", 1),
            params2("name", name.to_owned(), "target_id", u32_to_dec(parent_id)),
        )
    }

    /// The request that submits one copy task for the given photos of one
    /// space into a target folder, skipping items that already exist.
    pub fn copy_photos_request(
        &self,
        photo_ids: &Vec<u32>,
        photos_space: Space,
        target_folder_id: u32,
    ) -> (r: WireRequest)
        requires
            photo_ids@.len() > 0,
        ensures
            r.post,
            r.query@ == spec_post_query(crate::api::spec_copy_api(photos_space)),
            param_views(r.form@) == spec_form(
                "copy"@,
                1,
                seq![
                    ("target_folder_id"@, dec_chars(target_folder_id as int)),
                    ("item_id"@, bracketed_ids(photo_ids@)),
                    ("action"@, "skip"@),
                    ("folder_id"@, "[]"@),
                ],
            ),
    {
        post_request(
            ApiParams::new(photos_space.background_file_api(), "copy", 1),
            params4(
                "target_folder_id",
                u32_to_dec(target_folder_id),
                "item_id",
                ids_list_param(photo_ids),
                "action",
                "skip".to_owned(),
                "folder_id",
                "[]".to_owned(),
            ),
        )
    }

    /// The request that polls the status of the given copy tasks.
    pub fn get_task_status_request(&self, task_ids: &Vec<u32>) -> (r: WireRequest)
        requires
            task_ids@.len() > 0,
        ensures
            !r.post,
            r.query@ == spec_query(
                "SYNO.Foto.BackgroundTask.Info"@,
                "get_status"@,
                1,
                seq![("id"@, bracketed_ids(task_ids@))],
            ),
    {
        get_request(
            ApiParams::new(crate::api::background_info_api(), "get_status", 1),
            params1("id", ids_list_param(task_ids)),
        )
    }

    /// The request that looks a folder up by id in one space.
    pub fn get_folder_by_id_request(&self, id: u32, space: Space) -> (r: WireRequest)
        ensures
            !r.post,
            r.query@ == spec_query(
                crate::api::spec_folder_api(space),
                "get"@,
                1,
                seq![("id"@, dec_chars(id as int))],
            ),
    {
        get_request(
            ApiParams::new(space.browse_folder_api(), "get", 1),
            params1("id", u32_to_dec(id)),
        )
    }

    /// The request that fetches the users with the given ids.
    pub fn get_users_request(&self, user_ids: &Vec<u32>) -> (r: WireRequest)
        requires
            user_ids@.len() > 0,
        ensures
            !r.post,
            r.query@ == spec_query(
                "SYNO.Foto.UserInfo"@,
                "get"@,
                1,
                seq![("id"@, bracketed_ids(user_ids@))],
            ),
    {
        get_request(
            ApiParams::new(crate::api::user_info_api(), "get", 1),
            params1("id", ids_list_param(user_ids)),
        )
    }
}

} // verus!
