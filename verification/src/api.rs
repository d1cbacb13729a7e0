//! The wire protocol layer: endpoint identifiers, request building for the
//! `webapi/entry.cgi` entry point, response-envelope decoding, and the domain
//! error codes the workflows branch on.
//!
//! A request is either a GET, carried entirely by a query string of the form
//! `api=<api>&method=<method>&version=<version>&k=v...`, or a POST, whose
//! query holds only `api=<api>` while `method`, `version` and the remaining
//! parameters travel as form fields.

use vstd::prelude::*;
use crate::text::dec_chars;

verus! {

/// Which space of the photo library an operation addresses. Most browse
/// endpoints exist twice, once per space.
#[derive(Clone, Copy, Debug, PartialEq, Eq, Structural)]
pub enum Space {
    Personal,
    Shared,
}

/// Relies on syno_api::foto::browse::album::API: the album browse endpoint.
#[verifier::external_body]
pub(crate) fn album_browse_api() -> (r: &'static str)
    ensures
        r@ == "SYNO.Foto.Browse.Album"@,
{
    syno_api::foto::browse::album::API
}

/// Relies on syno_api::foto::sharing::misc::API: the sharing endpoint that
/// lists albums shared with the account.
#[verifier::external_body]
pub(crate) fn sharing_misc_api() -> (r: &'static str)
    ensures
        r@ == "SYNO.Foto.Sharing.Misc"@,
{
    syno_api::foto::sharing::misc::API
}

/// Relies on syno_api::foto::browse::person::API: the person browse endpoint
/// of the personal space.
#[verifier::external_body]
pub(crate) fn person_browse_api() -> (r: &'static str)
    ensures
        r@ == "SYNO.Foto.Browse.Person"@,
{
    syno_api::foto::browse::person::API
}

/// Relies on syno_api::foto_team::browse::person::API: the person browse
/// endpoint of the shared space.
#[verifier::external_body]
pub(crate) fn team_person_browse_api() -> (r: &'static str)
    ensures
        r@ == "SYNO.FotoTeam.Browse.Person"@,
{
    syno_api::foto_team::browse::person::API
}

/// Relies on syno_api::foto::browse::item::API: the item browse endpoint of
/// the personal space.
#[verifier::external_body]
pub(crate) fn item_browse_api() -> (r: &'static str)
    ensures
        r@ == "SYNO.Foto.Browse.Item"@,
{
    syno_api::foto::browse::item::API
}

/// Relies on syno_api::foto_team::browse::item::API: the item browse endpoint
/// of the shared space.
#[verifier::external_body]
pub(crate) fn team_item_browse_api() -> (r: &'static str)
    ensures
        r@ == "SYNO.FotoTeam.Browse.Item"@,
{
    syno_api::foto_team::browse::item::API
}

/// Relies on syno_api::foto::browse::folder::API: the folder browse endpoint
/// of the personal space.
#[verifier::external_body]
pub(crate) fn folder_browse_api() -> (r: &'static str)
    ensures
        r@ == "SYNO.Foto.Browse.Folder"@,
{
    syno_api::foto::browse::folder::API
}

/// Relies on syno_api::foto_team::browse::folder::API: the folder browse
/// endpoint of the shared space.
#[verifier::external_body]
pub(crate) fn team_folder_browse_api() -> (r: &'static str)
    ensures
        r@ == "SYNO.FotoTeam.Browse.Folder"@,
{
    syno_api::foto_team::browse::folder::API
}

/// Relies on syno_api::foto::setting::user::API: the user settings endpoint.
#[verifier::external_body]
pub(crate) fn user_settings_api() -> (r: &'static str)
    ensures
        r@ == "SYNO.Foto.Setting.User"@,
{
    syno_api::foto::setting::user::API
}

/// Relies on syno_api::foto::setting::team_space::API: the shared space
/// settings endpoint.
#[verifier::external_body]
pub(crate) fn team_space_settings_api() -> (r: &'static str)
    ensures
        r@ == "SYNO.Foto.Setting.TeamSpace"@,
{
    syno_api::foto::setting::team_space::API
}

/// Relies on syno_api::foto::search::API: the album suggestion endpoint.
#[verifier::external_body]
pub(crate) fn search_api() -> (r: &'static str)
    ensures
        r@ == "SYNO.Foto.Search.Search"@,
{
    syno_api::foto::search::API
}

/// Relies on syno_api::foto::user_info::API: the user info endpoint.
#[verifier::external_body]
pub(crate) fn user_info_api() -> (r: &'static str)
    ensures
        r@ == "SYNO.Foto.UserInfo"@,
{
    syno_api::foto::user_info::API
}

/// Relies on syno_api::foto::background_task::file::API: the personal space
/// photo-copy endpoint.
#[verifier::external_body]
pub(crate) fn background_file_api() -> (r: &'static str)
    ensures
        r@ == "SYNO.Foto.BackgroundTask.File"@,
{
    syno_api::foto::background_task::file::API
}

/// Relies on syno_api::foto_team::background_task::file::API: the shared
/// space photo-copy endpoint.
#[verifier::external_body]
pub(crate) fn team_background_file_api() -> (r: &'static str)
    ensures
        r@ == "SYNO.FotoTeam.BackgroundTask.File"@,
{
    syno_api::foto_team::background_task::file::API
}

/// Relies on syno_api::foto::background_task::info::API: the copy-task status
/// endpoint.
#[verifier::external_body]
pub(crate) fn background_info_api() -> (r: &'static str)
    ensures
        r@ == "SYNO.Foto.BackgroundTask.Info"@,
{
    syno_api::foto::background_task::info::API
}

/// Relies on syno_api::auth::API: the authentication endpoint.
#[verifier::external_body]
pub(crate) fn auth_api() -> (r: &'static str)
    ensures
        r@ == "SYNO.API.Auth"@,
{
    syno_api::auth::API
}

/// The person browse endpoint of a space.
pub open spec fn spec_person_api(s: Space) -> Seq<char> {
    match s {
        Space::Personal => "SYNO.Foto.Browse.Person"@,
        Space::Shared => "SYNO.FotoTeam.Browse.Person"@,
    }
}

/// The item browse endpoint of a space.
pub open spec fn spec_item_api(s: Space) -> Seq<char> {
    match s {
        Space::Personal => "SYNO.Foto.Browse.Item"@,
        Space::Shared => "SYNO.FotoTeam.Browse.Item"@,
    }
}

/// The folder browse endpoint of a space.
pub open spec fn spec_folder_api(s: Space) -> Seq<char> {
    match s {
        Space::Personal => "SYNO.Foto.Browse.Folder"@,
        Space::Shared => "SYNO.FotoTeam.Browse.Folder"@,
    }
}

/// The photo-copy endpoint of a space.
pub open spec fn spec_copy_api(s: Space) -> Seq<char> {
    match s {
        Space::Personal => "SYNO.Foto.BackgroundTask.File"@,
        Space::Shared => "SYNO.FotoTeam.BackgroundTask.File"@,
    }
}

impl Space {
    /// The person browse endpoint for this space.
    pub fn browse_person_api(&self) -> (r: &'static str)
        ensures
            r@ == spec_person_api(*self),
    {
        match self {
            Space::Personal => person_browse_api(),
            Space::Shared => team_person_browse_api(),
        }
    }

    /// The item browse endpoint for this space.
    pub fn browse_item_api(&self) -> (r: &'static str)
        ensures
            r@ == spec_item_api(*self),
    {
        match self {
            Space::Personal => item_browse_api(),
            Space::Shared => team_item_browse_api(),
        }
    }

    /// The folder browse endpoint for this space.
    pub fn browse_folder_api(&self) -> (r: &'static str)
        ensures
            r@ == spec_folder_api(*self),
    {
        match self {
            Space::Personal => folder_browse_api(),
            Space::Shared => team_folder_browse_api(),
        }
    }

    /// The photo-copy endpoint for this space.
    pub fn background_file_api(&self) -> (r: &'static str)
        ensures
            r@ == spec_copy_api(*self),
    {
        match self {
            Space::Personal => background_file_api(),
            Space::Shared => team_background_file_api(),
        }
    }
}

/// The parameters every API call carries: endpoint identifier, method name
/// and method version.
#[derive(Clone, Copy, Debug)]
pub struct ApiParams<'a> {
    pub api: &'a str,
    pub method: &'a str,
    pub version: u8,
}

impl<'a> ApiParams<'a> {
    pub fn new(api: &'a str, method: &'a str, version: u8) -> (r: Self)
        ensures
            r.api@ == api@,
            r.method@ == method@,
            r.version == version,
    {
        ApiParams { api, method, version }
    }
}

/// A fully assembled request, ready for the transport: the path below the
/// base URL, a query string, and form fields for a POST.
#[derive(Debug)]
pub struct WireRequest {
    pub post: bool,
    pub query: String,
    pub form: Vec<(String, String)>,
}

/// One `&key=value` query fragment.
pub open spec fn pair_fragment(k: Seq<char>, v: Seq<char>) -> Seq<char> {
    "&"@ + k + "="@ + v
}

/// The query fragments of a parameter list, concatenated in order.
pub open spec fn params_fragments(params: Seq<(Seq<char>, Seq<char>)>) -> Seq<char>
    decreases params.len(),
{
    if params.len() == 0 {
        Seq::empty()
    } else {
        params_fragments(params.drop_last()) + pair_fragment(
            params.last().0,
            params.last().1,
        )
    }
}

/// The views of a list of owned parameter pairs.
pub open spec fn param_views(params: Seq<(String, String)>) -> Seq<(Seq<char>, Seq<char>)> {
    params.map_values(|p: (String, String)| (p.0@, p.1@))
}

/// The full GET query string for an API call.
pub open spec fn spec_query(
    api: Seq<char>,
    method: Seq<char>,
    version: int,
    params: Seq<(Seq<char>, Seq<char>)>,
) -> Seq<char> {
    "api="@ + api + "&method="@ + method + "&version="@ + dec_chars(version) + params_fragments(
        params,
    )
}

/// Assembles the query string `api=..&method=..&version=..` followed by one
/// `&key=value` fragment per extra parameter, in order.
pub fn build_query(common: ApiParams<'_>, params: &Vec<(String, String)>) -> (r: String)
    ensures
        r@ == spec_query(common.api@, common.method@, common.version as int, param_views(params@)),
{
    let mut r = String::new();
    r.append("api=");
    r.append(common.api);
    r.append("&method=");
    r.append(common.method);
    r.append("&version=");
    let version = crate::text::u32_to_dec(common.version as u32);
    r.append(version.as_str());
    let mut i: usize = 0;
    while i < params.len()
        invariant
            0 <= i <= params.len(),
            r@ == spec_query(
                common.api@,
                common.method@,
                common.version as int,
                param_views(params@).take(i as int),
            ),
        decreases params.len() - i,
    {
        let ghost prefix = r@;
        r.append("&");
        r.append(params[i].0.as_str());
        r.append("=");
        r.append(params[i].1.as_str());
        proof {
            let pv = param_views(params@);
            assert(pv.take(i + 1).drop_last() =~= pv.take(i as int));
            assert(r@ =~= spec_query(
                common.api@,
                common.method@,
                common.version as int,
                pv.take(i + 1),
            ));
        }
        i += 1;
    }
    proof {
        assert(param_views(params@).take(params@.len() as int) =~= param_views(params@));
    }
    r
}

/// The form fields of a POST: `method` and `version` first, then the extra
/// parameters in order.
pub open spec fn spec_form(
    method: Seq<char>,
    version: int,
    params: Seq<(Seq<char>, Seq<char>)>,
) -> Seq<(Seq<char>, Seq<char>)> {
    seq![("method"@, method), ("version"@, dec_chars(version))] + params
}

/// Assembles the form-field list for a POST request.
pub fn build_form(common: ApiParams<'_>, params: Vec<(String, String)>) -> (r: Vec<
    (String, String),
>)
    ensures
        param_views(r@) == spec_form(
            common.method@,
            common.version as int,
            param_views(params@),
        ),
{
    let mut r: Vec<(String, String)> = Vec::new();
    r.push(("method".to_owned(), common.method.to_owned()));
    r.push(("version".to_owned(), crate::text::u32_to_dec(common.version as u32)));
    let mut i: usize = 0;
    while i < params.len()
        invariant
            0 <= i <= params.len(),
            param_views(r@) =~~= spec_form(
                common.method@,
                common.version as int,
                param_views(params@).take(i as int),
            ),
        decreases params.len() - i,
    {
        let (k, v) = (params[i].0.clone(), params[i].1.clone());
        let ghost old_r = r@;
        let ghost pv = param_views(params@);
        r.push((k, v));
        proof {
            let lhs = param_views(r@);
            let rhs = spec_form(common.method@, common.version as int, pv.take(i + 1));
            assert(pv.len() == params@.len());
            assert(param_views(old_r).len() == old_r.len());
            assert(old_r.len() == 2 + i);
            assert(rhs.len() == 3 + i);
            assert forall|j: int| 0 <= j < lhs.len() implies lhs[j] == rhs[j] by {
                assert(lhs[j] == (r@[j].0@, r@[j].1@));
                if j < old_r.len() {
                    assert(r@[j] == old_r[j]);
                    assert(param_views(old_r)[j] == (old_r[j].0@, old_r[j].1@));
                    assert(spec_form(
                        common.method@,
                        common.version as int,
                        pv.take(i as int),
                    )[j] == rhs[j]);
                } else {
                    assert(r@[j] == (k, v));
                    assert(pv[i as int] == (params@[i as int].0@, params@[i as int].1@));
                    assert(rhs[j] == pv.take(i + 1)[i as int]);
                }
            }
            assert(lhs =~= rhs);
        }
        i += 1;
    }
    proof {
        assert(param_views(params@).take(params@.len() as int) =~= param_views(params@));
    }
    r
}

/// The query string of a POST request: the endpoint identifier alone.
pub open spec fn spec_post_query(api: Seq<char>) -> Seq<char> {
    "api="@ + api
}

/// Assembles a complete GET request for the transport.
pub fn get_request(common: ApiParams<'_>, params: Vec<(String, String)>) -> (r: WireRequest)
    ensures
        !r.post,
        r.query@ == spec_query(
            common.api@,
            common.method@,
            common.version as int,
            param_views(params@),
        ),
        r.form@.len() == 0,
{
    let query = build_query(common, &params);
    WireRequest { post: false, query, form: Vec::new() }
}

/// Assembles a complete POST request for the transport.
pub fn post_request(common: ApiParams<'_>, params: Vec<(String, String)>) -> (r: WireRequest)
    ensures
        r.post,
        r.query@ == spec_post_query(common.api@),
        param_views(r.form@) == spec_form(
            common.method@,
            common.version as int,
            param_views(params@),
        ),
{
    let mut query = String::new();
    query.append("api=");
    query.append(common.api);
    let form = build_form(common, params);
    WireRequest { post: true, query, form }
}

/// Appends the API entry point to a base path whose trailing slashes are
/// dropped first.
pub fn entry_path(base_path: &str) -> (r: String)
    ensures
        r@ == crate::text::drop_trailing_slashes(base_path@) + "/webapi/entry.cgi"@,
{
    let prefix = crate::text::trim_trailing_slashes(base_path);
    let mut r = String::new();
    r.append(prefix);
    r.append("/webapi/entry.cgi");
    r
}

/// An error reported by one API call: a transport failure with its HTTP
/// status, a domain error with its numeric code from the response envelope,
/// or a malformed envelope.
#[derive(Clone, Copy, Debug, PartialEq, Eq, Structural)]
pub enum ApiError {
    Http(u16),
    Dsm(u16),
    Protocol,
}

/// An HTTP status in the success range.
pub open spec fn spec_http_ok(status: int) -> bool {
    200 <= status < 300
}

/// True when an HTTP status code reports success.
pub fn http_status_ok(status: u16) -> (r: bool)
    ensures
        r == spec_http_ok(status as int),
{
    200 <= status && status < 300
}

/// Decides what a decoded response envelope means: a reported error code
/// always wins; otherwise the call succeeded only if the envelope says so and
/// carries data; anything else is a protocol mismatch.
pub fn envelope_outcome(success: bool, error_code: Option<u16>, has_data: bool) -> (r: Result<
    (),
    ApiError,
>)
    ensures
        error_code matches Some(c) ==> r == Err::<(), ApiError>(ApiError::Dsm(c)),
        error_code is None && success && has_data ==> r == Ok::<(), ApiError>(()),
        error_code is None && !(success && has_data) ==> r == Err::<(), ApiError>(
            ApiError::Protocol,
        ),
{
    match error_code {
        Some(c) => Err(ApiError::Dsm(c)),
        None => {
            if success && has_data {
                Ok(())
            } else {
                Err(ApiError::Protocol)
            }
        },
    }
}

/// The authentication error codes that request a second factor: an OTP code
/// is required, or multi-factor authentication is being enforced.
pub open spec fn spec_is_mfa_code(code: u16) -> bool {
    code == 403 || code == 406
}

/// True for the two domain error codes on which the login flow prompts for an
/// OTP code and retries.
pub fn is_mfa_code(code: u16) -> (r: bool)
    ensures
        r == spec_is_mfa_code(code),
{
    code == 403 || code == 406
}

/// The photo domain error code meaning "no access or not found".
pub open spec fn spec_is_no_access_code(code: u16) -> bool {
    code == 642
}

/// True for the combined "no access or not found" photo error code.
pub fn is_no_access_code(code: u16) -> (r: bool)
    ensures
        r == spec_is_no_access_code(code),
{
    code == 642
}

} // verus!
