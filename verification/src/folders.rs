//! Folder resolution for the listing workflow: which space to look a folder
//! id up in, the bookkeeping that guarantees every id ends with an outcome,
//! and the lines the listing prints for each photo.

use vstd::prelude::*;
use crate::api::ApiError;
use crate::client::{FolderInfo, ItemInfo, UserInfo, UserSettings};
use crate::text::{drop_trailing_slashes, str_eq};

verus! {

/// How one folder id is to be resolved, given the account's entitlements.
#[derive(Clone, Copy, Debug, PartialEq, Eq, Structural)]
pub enum LookupPlan {
    /// Neither space is reachable: every lookup fails with "no access".
    NoAccess,
    /// Only the personal space is reachable.
    PersonalOnly,
    /// Only the shared space is reachable.
    SharedOnly,
    /// Try the personal space; on any failure fall back to the shared space.
    PersonalThenShared,
}

/// The per-id resolution policy: the home service opens the personal space,
/// any shared space permission other than `"none"` opens the shared space.
pub fn folder_lookup_plan(user_settings: &UserSettings) -> (r: LookupPlan)
    ensures
        !user_settings.enable_home_service && user_settings.team_space_permission@ == "none"@
            ==> r == LookupPlan::NoAccess,
        user_settings.enable_home_service && user_settings.team_space_permission@ == "none"@
            ==> r == LookupPlan::PersonalOnly,
        !user_settings.enable_home_service && user_settings.team_space_permission@ != "none"@
            ==> r == LookupPlan::SharedOnly,
        user_settings.enable_home_service && user_settings.team_space_permission@ != "none"@
            ==> r == LookupPlan::PersonalThenShared,
{
    let none = str_eq(user_settings.team_space_permission.as_str(), "none");
    if !user_settings.enable_home_service && none {
        LookupPlan::NoAccess
    } else if user_settings.enable_home_service && none {
        LookupPlan::PersonalOnly
    } else if !user_settings.enable_home_service {
        LookupPlan::SharedOnly
    } else {
        LookupPlan::PersonalThenShared
    }
}

/// True when a sequence of ids holds no repeats.
pub open spec fn distinct_ids(ids: Seq<u32>) -> bool {
    ids.no_duplicates()
}

/// True when `ids` holds `x`.
fn contains_id(ids: &Vec<u32>, x: u32) -> (r: bool)
    ensures
        r == ids@.contains(x),
{
    let mut i: usize = 0;
    while i < ids.len()
        invariant
            0 <= i <= ids@.len(),
            forall|j: int| 0 <= j < i ==> ids@[j] != x,
        decreases ids@.len() - i,
    {
        if ids[i] == x {
            return true;
        }
        i += 1;
    }
    false
}

/// The distinct folder ids referenced by an item list, each exactly once, in
/// first-appearance order.
pub fn distinct_folder_ids(items: &Vec<ItemInfo>) -> (r: Vec<u32>)
    ensures
        distinct_ids(r@),
        forall|x: u32|
            r@.contains(x) <==> (exists|j: int|
                0 <= j < items@.len() && (#[trigger] items@[j]).folder_id == x),
{
    let mut r: Vec<u32> = Vec::new();
    let mut i: usize = 0;
    while i < items.len()
        invariant
            0 <= i <= items@.len(),
            distinct_ids(r@),
            forall|x: u32|
                r@.contains(x) <==> (exists|j: int|
                    0 <= j < i && (#[trigger] items@[j]).folder_id == x),
        decreases items@.len() - i,
    {
        let id = items[i].folder_id;
        if !contains_id(&r, id) {
            let ghost old_r = r@;
            r.push(id);
            proof {
                assert forall|x: u32| r@.contains(x) implies (exists|j: int|
                    0 <= j < i + 1 && (#[trigger] items@[j]).folder_id == x) by {
                    if old_r.contains(x) {
                    } else {
                        assert(r@.last() == id);
                        assert(x == id);
                        assert(items@[i as int].folder_id == x);
                    }
                }
                assert forall|x: u32|
                    (exists|j: int|
                        0 <= j < i + 1 && (#[trigger] items@[j]).folder_id == x) implies r@.contains(
                    x,
                ) by {
                    let j = choose|j: int|
                        0 <= j < i + 1 && (#[trigger] items@[j]).folder_id == x;
                    if j < i {
                        assert(old_r.contains(x));
                        let w = choose|w: int| 0 <= w < old_r.len() && old_r[w] == x;
                        assert(r@[w] == x);
                    } else {
                        assert(r@.last() == x);
                    }
                }
            }
        } else {
            proof {
                assert forall|x: u32|
                    (exists|j: int|
                        0 <= j < i + 1 && (#[trigger] items@[j]).folder_id == x) implies r@.contains(
                    x,
                ) by {
                    let j = choose|j: int|
                        0 <= j < i + 1 && (#[trigger] items@[j]).folder_id == x;
                    if j == i {
                        assert(items@[i as int].folder_id == id);
                    }
                }
            }
        }
        i += 1;
    }
    r
}

/// The distinct owner ids of an item list, each exactly once, in
/// first-appearance order.
pub fn distinct_owner_ids(items: &Vec<ItemInfo>) -> (r: Vec<u32>)
    ensures
        distinct_ids(r@),
        forall|x: u32|
            r@.contains(x) <==> (exists|j: int|
                0 <= j < items@.len() && (#[trigger] items@[j]).owner_user_id == x),
{
    let mut r: Vec<u32> = Vec::new();
    let mut i: usize = 0;
    while i < items.len()
        invariant
            0 <= i <= items@.len(),
            distinct_ids(r@),
            forall|x: u32|
                r@.contains(x) <==> (exists|j: int|
                    0 <= j < i && (#[trigger] items@[j]).owner_user_id == x),
        decreases items@.len() - i,
    {
        let id = items[i].owner_user_id;
        if !contains_id(&r, id) {
            let ghost old_r = r@;
            r.push(id);
            proof {
                assert forall|x: u32| r@.contains(x) implies (exists|j: int|
                    0 <= j < i + 1 && (#[trigger] items@[j]).owner_user_id == x) by {
                    if old_r.contains(x) {
                    } else {
                        assert(r@.last() == id);
                        assert(x == id);
                        assert(items@[i as int].owner_user_id == x);
                    }
                }
                assert forall|x: u32|
                    (exists|j: int|
                        0 <= j < i + 1 && (#[trigger] items@[j]).owner_user_id == x) implies r@.contains(
                    x,
                ) by {
                    let j = choose|j: int|
                        0 <= j < i + 1 && (#[trigger] items@[j]).owner_user_id == x;
                    if j < i {
                        assert(old_r.contains(x));
                        let w = choose|w: int| 0 <= w < old_r.len() && old_r[w] == x;
                        assert(r@[w] == x);
                    } else {
                        assert(r@.last() == x);
                    }
                }
            }
        } else {
            proof {
                assert forall|x: u32|
                    (exists|j: int|
                        0 <= j < i + 1 && (#[trigger] items@[j]).owner_user_id == x) implies r@.contains(
                    x,
                ) by {
                    let j = choose|j: int|
                        0 <= j < i + 1 && (#[trigger] items@[j]).owner_user_id == x;
                    if j == i {
                        assert(items@[i as int].owner_user_id == id);
                    }
                }
            }
        }
        i += 1;
    }
    r
}

/// The keys of a list of outcomes, in order.
pub open spec fn outcome_keys(rs: Seq<(u32, Result<FolderInfo, ApiError>)>) -> Seq<u32> {
    rs.map_values(|p: (u32, Result<FolderInfo, ApiError>)| p.0)
}

/// The bookkeeping of the concurrent folder lookups: every input id is either
/// still pending or already carries an outcome — a resolved folder or the
/// error the lookup ended with. A failure on one id never discards another.
#[derive(Debug)]
pub struct FolderResolution {
    /// Ids without an outcome yet.
    pub pending: Vec<u32>,
    /// Outcomes recorded so far, keyed by id.
    pub results: Vec<(u32, Result<FolderInfo, ApiError>)>,
}

impl FolderResolution {
    /// Pending ids and recorded keys are distinct and disjoint.
    pub open spec fn wf(&self) -> bool {
        &&& distinct_ids(self.pending@)
        &&& distinct_ids(outcome_keys(self.results@))
        &&& forall|i: int, j: int|
            0 <= i < self.pending@.len() && 0 <= j < self.results@.len() ==> self.pending@[i]
                != self.results@[j].0
    }

    /// The ids the resolution was started with, pending or resolved.
    pub open spec fn id_set(&self) -> Set<u32> {
        self.pending@.to_set().union(outcome_keys(self.results@).to_set())
    }

    /// Starts a resolution over distinct folder ids.
    pub fn new(ids: Vec<u32>) -> (r: Self)
        requires
            distinct_ids(ids@),
        ensures
            r.wf(),
            r.pending == ids,
            r.results@.len() == 0,
            r.id_set() == ids@.to_set(),
    {
        let r = FolderResolution { pending: ids, results: Vec::new() };
        proof {
            assert(outcome_keys(r.results@) =~= Seq::<u32>::empty());
            assert(r.id_set() =~= r.pending@.to_set());
        }
        r
    }

    /// True when every id has an outcome.
    pub fn is_done(&self) -> (r: bool)
        ensures
            r == (self.pending@.len() == 0),
    {
        self.pending.len() == 0
    }

    /// Records the outcome of one pending id: the id moves from the pending
    /// side to the results, which keep every outcome already recorded. The
    /// set of ids tracked never changes.
    pub fn record(&mut self, id: u32, outcome: Result<FolderInfo, ApiError>)
        requires
            old(self).wf(),
            old(self).pending@.contains(id),
        ensures
            final(self).wf(),
            final(self).results@ == old(self).results@.push((id, outcome)),
            exists|i: int|
                {
                    &&& 0 <= i < old(self).pending@.len()
                    &&& old(self).pending@[i] == id
                    &&& final(self).pending@ == old(self).pending@.remove(i)
                },
            final(self).id_set() == old(self).id_set(),
    {
        let ghost old_pending = self.pending@;
        let ghost old_results = self.results@;
        let mut i: usize = 0;
        let n = self.pending.len();
        while i < n
            invariant
                n == self.pending@.len(),
                0 <= i <= n,
                forall|j: int| 0 <= j < i ==> self.pending@[j] != id,
                self.pending@.contains(id),
                self == old(self),
                old_pending == self.pending@,
                old_results == self.results@,
                old(self).wf(),
            decreases n - i,
        {
            if self.pending[i] == id {
                self.pending.remove(i);
                self.results.push((id, outcome));
                proof {
                    old_pending.remove_ensures(i as int);
                    assert(self.pending@ =~= old_pending.remove(i as int));
                    let keys = outcome_keys(self.results@);
                    assert forall|x: int| 0 <= x < keys.len() implies keys[x] == (if x
                        < old_results.len() {
                        outcome_keys(old_results)[x]
                    } else {
                        id
                    }) by {
                        if x < old_results.len() {
                            assert(self.results@[x] == old_results[x]);
                        } else {
                            assert(self.results@[x] == (id, outcome));
                        }
                    }
                    assert(distinct_ids(keys));
                    assert forall|a: int, b: int|
                        0 <= a < self.pending@.len() && 0 <= b < self.results@.len() implies self
                        .pending@[a] != self.results@[b].0 by {
                        let aa: int = if a < i { a } else { a + 1 };
                        assert(self.pending@[a] == old_pending[aa]);
                        if b < old_results.len() {
                            assert(self.results@[b] == old_results[b]);
                        } else {
                            assert(self.results@[b].0 == id);
                            assert(old_pending[i as int] == id);
                        }
                    }
                    assert forall|a: int, b: int|
                        0 <= a < b < self.pending@.len() implies self.pending@[a] != self
                        .pending@[b] by {
                        let aa: int = if a < i { a } else { a + 1 };
                        let bb: int = if b < i { b } else { b + 1 };
                        assert(self.pending@[a] == old_pending[aa]);
                        assert(self.pending@[b] == old_pending[bb]);
                    }
                    assert(self.id_set() =~= old(self).id_set()) by {
                        assert forall|x: u32| old(self).id_set().contains(x) implies self
                            .id_set().contains(x) by {
                            if old_pending.to_set().contains(x) {
                                let w = choose|w: int|
                                    0 <= w < old_pending.len() && old_pending[w] == x;
                                if w == i {
                                    assert(outcome_keys(self.results@).last() == x);
                                    assert(outcome_keys(self.results@).contains(x));
                                } else {
                                    let ww: int = if w < i {
                                        w
                                    } else {
                                        w - 1
                                    };
                                    assert(self.pending@[ww] == x);
                                    assert(self.pending@.contains(x));
                                }
                            } else {
                                let w = choose|w: int|
                                    0 <= w < outcome_keys(old_results).len() && outcome_keys(
                                        old_results,
                                    )[w] == x;
                                assert(outcome_keys(self.results@)[w] == x);
                                assert(outcome_keys(self.results@).contains(x));
                            }
                        }
                        assert forall|x: u32| self.id_set().contains(x) implies old(
                            self,
                        ).id_set().contains(x) by {
                            if self.pending@.to_set().contains(x) {
                                let w = choose|w: int|
                                    0 <= w < self.pending@.len() && self.pending@[w] == x;
                                let ww: int = if w < i {
                                    w
                                } else {
                                    w + 1
                                };
                                assert(old_pending[ww] == x);
                                assert(old_pending.contains(x));
                            } else {
                                let w = choose|w: int|
                                    0 <= w < outcome_keys(self.results@).len() && outcome_keys(
                                        self.results@,
                                    )[w] == x;
                                if w < old_results.len() {
                                    assert(outcome_keys(old_results)[w] == x);
                                    assert(outcome_keys(old_results).contains(x));
                                } else {
                                    assert(x == id);
                                    assert(old_pending.contains(x));
                                }
                            }
                        }
                    }
                }
                return ;
            }
            i += 1;
        }
        proof {
            assert(false);
        }
    }
}

/// Folder resolution never loses an id: once nothing is pending, the recorded
/// keys are exactly the ids the resolution began with, one outcome per input
/// id.
pub proof fn lemma_resolution_complete(r: FolderResolution, ids: Seq<u32>)
    requires
        r.wf(),
        r.pending@.len() == 0,
        r.id_set() == ids.to_set(),
        distinct_ids(ids),
    ensures
        outcome_keys(r.results@).to_set() == ids.to_set(),
        r.results@.len() == ids.len(),
{
    assert(r.pending@.to_set() =~= Set::<u32>::empty());
    assert(outcome_keys(r.results@).to_set() =~= ids.to_set());
    outcome_keys(r.results@).unique_seq_to_set();
    ids.unique_seq_to_set();
    assert(outcome_keys(r.results@).len() == r.results@.len());
}

/// The index of the outcome recorded for a folder id.
pub fn find_outcome(results: &Vec<(u32, Result<FolderInfo, ApiError>)>, folder_id: u32) -> (r:
    Option<usize>)
    ensures
        match r {
            Some(i) => i < results@.len() && results@[i as int].0 == folder_id,
            None => forall|j: int| 0 <= j < results@.len() ==> results@[j].0 != folder_id,
        },
{
    let mut i: usize = 0;
    while i < results.len()
        invariant
            0 <= i <= results@.len(),
            forall|j: int| 0 <= j < i ==> results@[j].0 != folder_id,
        decreases results@.len() - i,
    {
        if results[i].0 == folder_id {
            return Some(i);
        }
        i += 1;
    }
    None
}

/// The index of the first fetched user with the given id.
pub fn find_user(users: &Vec<UserInfo>, id: u32) -> (r: Option<usize>)
    ensures
        match r {
            Some(i) => i < users@.len() && users@[i as int].id == id,
            None => forall|j: int| 0 <= j < users@.len() ==> users@[j].id != id,
        },
{
    let mut i: usize = 0;
    while i < users.len()
        invariant
            0 <= i <= users@.len(),
            forall|j: int| 0 <= j < i ==> users@[j].id != id,
        decreases users@.len() - i,
    {
        if users[i].id == id {
            return Some(i);
        }
        i += 1;
    }
    None
}

/// An owner name reported as a service path marks a photo owned by the shared
/// space rather than a user.
pub open spec fn is_shared_space_owner(name: Seq<char>) -> bool {
    name.len() >= 7 && name.take(7) == "/volume"@ && name.len() >= 6 && name.skip(
        name.len() - 6,
    ) == "/photo"@
}

/// The name shown as a photo's owner: the shared space marker replaces a
/// service-path owner, any other owner keeps its name.
pub fn display_owner(owner_name: &str) -> (r: String)
    ensures
        is_shared_space_owner(owner_name@) ==> r@ == "Shared Space"@,
        !is_shared_space_owner(owner_name@) ==> r@ == owner_name@,
{
    let len = owner_name.unicode_len();
    let mut shared = false;
    if len >= 7 {
        let head = owner_name.substring_char(0, 7);
        let tail = owner_name.substring_char(len - 6, len);
        if str_eq(head, "/volume") && str_eq(tail, "/photo") {
            shared = true;
        }
        proof {
            assert(head@ =~= owner_name@.take(7));
            assert(tail@ =~= owner_name@.skip(owner_name@.len() - 6));
        }
    }
    if shared {
        "Shared Space".to_owned()
    } else {
        owner_name.to_owned()
    }
}

/// The on-disk prefix of a photo's location: the shared space service folder,
/// or the owner's home service folder.
pub open spec fn spec_location_prefix(owner_display: Seq<char>) -> Seq<char> {
    if owner_display == "Shared Space"@ {
        "/var/services/photo"@
    } else {
        "/var/services/homes/"@ + owner_display + "/Photos"@
    }
}

/// The printed location of one resolved photo: the owner's service prefix,
/// the folder path without its trailing slashes, and the file name.
pub fn photo_location_line(filename: &str, owner_display: &str, folder_name: &str) -> (r: String)
    ensures
        r@ == spec_location_prefix(owner_display@) + drop_trailing_slashes(folder_name@) + "/"@
            + filename@,
{
    let mut r = String::new();
    if str_eq(owner_display, "Shared Space") {
        r.append("/var/services/photo");
    } else {
        r.append("/var/services/homes/");
        r.append(owner_display);
        r.append("/Photos");
    }
    let sub = crate::text::trim_trailing_slashes(folder_name);
    r.append(sub);
    r.append("/");
    r.append(filename);
    r
}

/// The friendlier message for the combined "no access or not found" domain
/// error, naming the photo's owner.
pub fn no_access_message(owner_display: &str) -> (r: String)
    ensures
        r@ == "no access (owned by "@ + owner_display@ + ")"@,
{
    let mut r = String::new();
    r.append("no access (owned by ");
    r.append(owner_display);
    r.append(")");
    r
}

/// The printed line for a photo whose folder could not be resolved.
pub fn photo_error_line(filename: &str, message: &str) -> (r: String)
    ensures
        r@ == "Error: "@ + message@ + " '"@ + filename@ + "'"@,
{
    let mut r = String::new();
    r.append("Error: ");
    r.append(message);
    r.append(" '");
    r.append(filename);
    r.append("'");
    r
}

} // verus!
