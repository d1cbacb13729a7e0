//! Folder paths in the personal space: normalizing what the user typed,
//! splitting a path into its segments, and the step-by-step walk that
//! resolves or creates a folder path one segment at a time.

use vstd::prelude::*;
use crate::client::FolderInfo;
use crate::text::{drop_trailing_slashes, is_blank, is_space, is_space_char,
    lemma_drop_trailing_slashes, str_is_blank};

verus! {

/// Leading whitespace dropped.
pub open spec fn drop_leading_spaces(s: Seq<char>) -> Seq<char>
    decreases s.len(),
{
    if s.len() > 0 && is_space(s[0]) {
        drop_leading_spaces(s.drop_first())
    } else {
        s
    }
}

/// Trailing whitespace dropped.
pub open spec fn drop_trailing_spaces(s: Seq<char>) -> Seq<char>
    decreases s.len(),
{
    if s.len() > 0 && is_space(s.last()) {
        drop_trailing_spaces(s.drop_last())
    } else {
        s
    }
}

/// Leading slashes dropped.
pub open spec fn drop_leading_slashes(s: Seq<char>) -> Seq<char>
    decreases s.len(),
{
    if s.len() > 0 && s[0] == '/' {
        drop_leading_slashes(s.drop_first())
    } else {
        s
    }
}

/// The user's folder path as the export sends it to the API: whitespace
/// trimmed, then slashes trimmed from both ends, then rooted with one leading
/// slash.
pub open spec fn spec_normalized_path(s: Seq<char>) -> Seq<char> {
    "/"@ + drop_leading_slashes(
        drop_trailing_slashes(drop_trailing_spaces(drop_leading_spaces(s))),
    )
}

proof fn lemma_drop_leading_spaces(s: Seq<char>, lo: int)
    requires
        0 <= lo <= s.len(),
        forall|k: int| 0 <= k < lo ==> is_space(s[k]),
        lo == s.len() || !is_space(s[lo]),
    ensures
        drop_leading_spaces(s) == s.skip(lo),
    decreases lo,
{
    if lo > 0 {
        lemma_drop_leading_spaces(s.drop_first(), lo - 1);
        assert(s.drop_first().skip(lo - 1) =~= s.skip(lo));
    } else {
        assert(s.skip(0) =~= s);
    }
}

proof fn lemma_drop_trailing_spaces(s: Seq<char>, hi: int)
    requires
        0 <= hi <= s.len(),
        forall|k: int| hi <= k < s.len() ==> is_space(s[k]),
        hi == 0 || !is_space(s[hi - 1]),
    ensures
        drop_trailing_spaces(s) == s.take(hi),
    decreases s.len(),
{
    if s.len() == 0 {
        assert(s.take(hi) =~= s);
    } else if is_space(s.last()) {
        assert(hi < s.len());
        lemma_drop_trailing_spaces(s.drop_last(), hi);
        assert(s.drop_last().take(hi) =~= s.take(hi));
    } else {
        assert(hi == s.len());
        assert(s.take(hi) =~= s);
    }
}

proof fn lemma_drop_leading_slashes(s: Seq<char>, lo: int)
    requires
        0 <= lo <= s.len(),
        forall|k: int| 0 <= k < lo ==> s[k] == '/',
        lo == s.len() || s[lo] != '/',
    ensures
        drop_leading_slashes(s) == s.skip(lo),
    decreases lo,
{
    if lo > 0 {
        lemma_drop_leading_slashes(s.drop_first(), lo - 1);
        assert(s.drop_first().skip(lo - 1) =~= s.skip(lo));
    } else {
        assert(s.skip(0) =~= s);
    }
}

/// Normalizes the user's folder path: whitespace and slashes trimmed from the
/// ends, one leading slash added back.
pub fn normalize_folder_path(p: &str) -> (r: String)
    ensures
        r@ == spec_normalized_path(p@),
{
    let len = p.unicode_len();
    let mut lo: usize = 0;
    while lo < len && is_space_char(p.get_char(lo))
        invariant
            len == p@.len(),
            0 <= lo <= len,
            forall|k: int| 0 <= k < lo ==> is_space(p@[k]),
        decreases len - lo,
    {
        lo += 1;
    }
    let mut hi: usize = len;
    while hi > lo && is_space_char(p.get_char(hi - 1))
        invariant
            len == p@.len(),
            lo <= hi <= len,
            forall|k: int| hi <= k < len ==> is_space(p@[k]),
            forall|k: int| 0 <= k < lo ==> is_space(p@[k]),
            lo == len || !is_space(p@[lo as int]),
        decreases hi,
    {
        hi -= 1;
    }
    let trimmed = p.substring_char(lo, hi);
    proof {
        let t1 = p@.skip(lo as int);
        lemma_drop_leading_spaces(p@, lo as int);
        assert(forall|k: int| hi - lo <= k < t1.len() ==> is_space(#[trigger] t1[k]));
        assert(hi - lo == 0 || !is_space(t1[hi - lo - 1]));
        lemma_drop_trailing_spaces(t1, hi - lo);
        assert(trimmed@ =~= t1.take(hi - lo));
    }
    // trimmed@ == drop_trailing_spaces(drop_leading_spaces(p@))
    let tlen = trimmed.unicode_len();
    let mut shi: usize = tlen;
    while shi > 0 && trimmed.get_char(shi - 1) == '/'
        invariant
            tlen == trimmed@.len(),
            0 <= shi <= tlen,
            forall|k: int| shi <= k < tlen ==> trimmed@[k] == '/',
        decreases shi,
    {
        shi -= 1;
    }
    let mut slo: usize = 0;
    while slo < shi && trimmed.get_char(slo) == '/'
        invariant
            tlen == trimmed@.len(),
            0 <= slo <= shi <= tlen,
            forall|k: int| shi <= k < tlen ==> trimmed@[k] == '/',
            shi == 0 || trimmed@[shi - 1] != '/',
            forall|k: int| 0 <= k < slo ==> trimmed@[k] == '/',
        decreases shi - slo,
    {
        slo += 1;
    }
    let core = trimmed.substring_char(slo, shi);
    proof {
        let t2 = drop_trailing_slashes(trimmed@);
        lemma_drop_trailing_slashes(trimmed@, shi as int);
        assert(t2 == trimmed@.take(shi as int));
        assert(forall|k: int| 0 <= k < slo ==> #[trigger] t2[k] == '/');
        assert(slo == t2.len() || t2[slo as int] != '/');
        lemma_drop_leading_slashes(t2, slo as int);
        assert(core@ =~= t2.skip(slo as int));
    }
    let mut r = String::new();
    r.append("/");
    r.append(core);
    r
}

/// The index of the first slash, or the length when there is none.
pub open spec fn first_slash(s: Seq<char>) -> nat
    decreases s.len(),
{
    if s.len() == 0 {
        0
    } else if s[0] == '/' {
        0
    } else {
        (1 + first_slash(s.drop_first())) as nat
    }
}

proof fn lemma_first_slash_at(t: Seq<char>, m: int)
    requires
        0 <= m <= t.len(),
        forall|k: int| 0 <= k < m ==> t[k] != '/',
        m == t.len() || t[m] == '/',
    ensures
        first_slash(t) == m,
    decreases m,
{
    if m == 0 {
    } else {
        let rest = t.drop_first();
        assert(forall|k: int| 1 <= k < t.len() ==> t[k] == #[trigger] rest[k - 1]);
        lemma_first_slash_at(rest, m - 1);
    }
}

/// The maximal slash-free runs of a path, in order: splitting on `/` with
/// empty pieces dropped.
pub open spec fn split_nonempty(s: Seq<char>) -> Seq<Seq<char>>
    decreases s.len(),
{
    if s.len() == 0 {
        Seq::empty()
    } else if s[0] == '/' {
        split_nonempty(s.drop_first())
    } else {
        let k: int = if first_slash(s) as int <= s.len() as int {
            first_slash(s) as int
        } else {
            s.len() as int
        };
        seq![s.take(k)] + split_nonempty(s.skip(k))
    }
}

/// The views of a vector of owned segments.
pub open spec fn seg_views(v: Seq<String>) -> Seq<Seq<char>> {
    v.map_values(|x: String| x@)
}

/// Splits a path into its non-empty segments, in order.
pub fn path_segments(path: &str) -> (r: Vec<String>)
    ensures
        seg_views(r@) == split_nonempty(path@),
{
    let len = path.unicode_len();
    let mut r: Vec<String> = Vec::new();
    let mut i: usize = 0;
    proof {
        assert(seg_views(r@) =~= Seq::<Seq<char>>::empty());
        assert(path@.skip(0) =~= path@);
    }
    while i < len
        invariant
            len == path@.len(),
            0 <= i <= len,
            split_nonempty(path@) == seg_views(r@) + split_nonempty(path@.skip(i as int)),
        decreases len - i,
    {
        if path.get_char(i) == '/' {
            proof {
                let suf = path@.skip(i as int);
                assert(suf[0] == path@[i as int]);
                assert(suf.drop_first() =~= path@.skip(i + 1));
                assert(split_nonempty(path@.skip(i as int)) == split_nonempty(
                    path@.skip(i + 1),
                ));
            }
            i += 1;
        } else {
            let mut j: usize = i;
            while j < len && path.get_char(j) != '/'
                invariant
                    len == path@.len(),
                    i <= j <= len,
                    forall|k: int| i <= k < j ==> path@[k] != '/',
                decreases len - j,
            {
                j += 1;
            }
            let seg = path.substring_char(i, j);
            let ghost old_r = r@;
            r.push(seg.to_owned());
            proof {
                let suf = path@.skip(i as int);
                assert(forall|k: int|
                    0 <= k < suf.len() ==> #[trigger] suf[k] == path@[k + i]);
                lemma_first_slash_at(suf, j - i);
                assert(first_slash(suf) == j - i);
                assert(suf[0] != '/');
                assert(suf.take(j - i) =~= path@.subrange(i as int, j as int));
                assert(suf.skip(j - i) =~= path@.skip(j as int));
                assert(split_nonempty(suf) == seq![path@.subrange(i as int, j as int)]
                    + split_nonempty(path@.skip(j as int)));
                assert(seg@ == path@.subrange(i as int, j as int));
                assert(seg_views(r@) =~= seg_views(old_r).push(seg@));
                assert(seg_views(old_r) + split_nonempty(suf) =~= seg_views(r@)
                    + split_nonempty(path@.skip(j as int)));
            }
            i = j;
        }
    }
    proof {
        assert(path@.skip(len as int) =~= Seq::<char>::empty());
        assert(split_nonempty(Seq::<char>::empty()) =~= Seq::<Seq<char>>::empty());
        assert(seg_views(r@) + split_nonempty(path@.skip(len as int)) =~= seg_views(r@));
    }
    r
}

/// True when every segment has substance: none is made of whitespace only. A
/// path with a whitespace-only segment is not a valid folder path.
pub fn segments_valid(segments: &Vec<String>) -> (r: bool)
    ensures
        r == (forall|k: int|
            0 <= k < segments@.len() ==> !is_blank((#[trigger] segments@[k])@)),
{
    let mut k: usize = 0;
    while k < segments.len()
        invariant
            0 <= k <= segments@.len(),
            forall|j: int| 0 <= j < k ==> !is_blank((#[trigger] segments@[j])@),
        decreases segments@.len() - k,
    {
        if str_is_blank(segments[k].as_str()) {
            return false;
        }
        k += 1;
    }
    true
}

/// The path assembled from the first `n` segments, each rooted by a slash.
pub open spec fn segs_path(segs: Seq<Seq<char>>, n: int) -> Seq<char>
    decreases n,
{
    if n <= 0 {
        Seq::empty()
    } else {
        segs_path(segs, n - 1) + "/"@ + segs[n - 1]
    }
}

/// The walk that resolves or creates a folder path segment by segment: as
/// long as a prefix of the path may exist the walk asks for a lookup of the
/// next longer prefix; from the first missing prefix on it asks to create
/// each remaining segment under the folder reached so far.
#[derive(Debug)]
pub struct CreateWalk {
    pub segments: Vec<String>,
    /// How many segments are resolved or created so far.
    pub idx: usize,
    /// The path assembled from the first `idx` segments.
    pub path_so_far: String,
    /// True while the walk is still looking prefixes up; false from the first
    /// missing prefix on, when every further segment must be created.
    pub probing: bool,
    /// The folder the walk reached last: the parent of whatever comes next.
    pub current: FolderInfo,
}

impl CreateWalk {
    pub open spec fn wf(&self) -> bool {
        self.idx <= self.segments@.len() && self.path_so_far@ == segs_path(
            seg_views(self.segments@),
            self.idx as int,
        )
    }

    /// Strictly decreases with every recorded step: the walk ends.
    pub open spec fn measure(&self) -> int {
        2 * (self.segments@.len() - self.idx) + (if self.probing {
            1int
        } else {
            0int
        })
    }

    /// Starts the walk at the root folder.
    pub fn new(segments: Vec<String>, root: FolderInfo) -> (r: Self)
        ensures
            r.wf(),
            r.segments == segments,
            r.idx == 0,
            r.probing,
            r.current == root,
    {
        let w = CreateWalk {
            segments,
            idx: 0,
            path_so_far: String::new(),
            probing: true,
            current: root,
        };
        w
    }

    /// True when every segment is resolved or created: `current` is the
    /// walk's result.
    pub fn is_done(&self) -> (r: bool)
        ensures
            r == (self.idx == self.segments@.len()),
    {
        self.idx == self.segments.len()
    }

    /// True while the next step is a lookup rather than a creation.
    pub fn needs_lookup(&self) -> (r: bool)
        ensures
            r == self.probing,
    {
        self.probing
    }

    /// The path of the next prefix to look up.
    pub fn lookup_path(&self) -> (r: String)
        requires
            self.wf(),
            self.idx < self.segments@.len(),
        ensures
            r@ == segs_path(seg_views(self.segments@), self.idx + 1),
    {
        let mut r = self.path_so_far.clone();
        r.append("/");
        r.append(self.segments[self.idx].as_str());
        r
    }

    /// The segment to create next and the id of its parent folder.
    pub fn create_args(&self) -> (r: (String, u32))
        requires
            self.idx < self.segments@.len(),
        ensures
            r.0@ == seg_views(self.segments@)[self.idx as int],
            r.1 == self.current.id,
    {
        (self.segments[self.idx].clone(), self.current.id)
    }

    /// Records the outcome of looking the next prefix up: a found folder
    /// advances the walk past its segment; a missing one switches the walk to
    /// creating, without advancing.
    pub fn record_lookup(&mut self, found: Option<FolderInfo>)
        requires
            old(self).wf(),
            old(self).probing,
            old(self).idx < old(self).segments@.len(),
        ensures
            final(self).wf(),
            final(self).segments == old(self).segments,
            final(self).measure() < old(self).measure(),
            match found {
                Some(f) => final(self).current == f && final(self).idx == old(self).idx + 1
                    && final(self).probing,
                None => final(self).current == old(self).current && final(self).idx == old(
                    self,
                ).idx && !final(self).probing,
            },
    {
        match found {
            Some(f) => {
                let p = self.lookup_path();
                let n = self.segments.len();
                self.path_so_far = p;
                self.current = f;
                assert(self.idx < n);
                self.idx = self.idx + 1;
            },
            None => {
                self.probing = false;
            },
        }
    }

    /// Records the folder just created for the current segment: the walk
    /// advances past it with the new folder as parent of what follows.
    pub fn record_created(&mut self, folder: FolderInfo)
        requires
            old(self).wf(),
            !old(self).probing,
            old(self).idx < old(self).segments@.len(),
        ensures
            final(self).wf(),
            final(self).segments == old(self).segments,
            final(self).measure() < old(self).measure(),
            final(self).current == folder,
            final(self).idx == old(self).idx + 1,
            !final(self).probing,
    {
        let p = self.lookup_path();
        let n = self.segments.len();
        self.path_so_far = p;
        self.current = folder;
        assert(self.idx < n);
        self.idx = self.idx + 1;
    }
}

} // verus!
