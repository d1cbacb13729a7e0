//! The client's configuration record: the signed-in session, and the device
//! ids remembered per DSM address so that a second factor can be skipped on
//! later logins. The embedding program loads and saves this record; every
//! rule about its contents lives here.

use vstd::prelude::*;
use crate::text::{is_blank, str_is_blank};

verus! {

/// A device identifier returned by a login with "remember this device"; never
/// blank.
#[derive(Debug)]
pub struct DeviceId {
    value: String,
}

impl View for DeviceId {
    type V = Seq<char>;

    closed spec fn view(&self) -> Seq<char> {
        self.value@
    }
}

impl Clone for DeviceId {
    fn clone(&self) -> (r: Self)
        ensures
            r@ == self@,
    {
        DeviceId { value: self.value.clone() }
    }
}

impl DeviceId {
    /// Accepts any value that is not blank.
    pub fn new(value: String) -> (r: Option<Self>)
        ensures
            match r {
                Some(d) => d@ == value@ && !is_blank(value@),
                None => is_blank(value@),
            },
    {
        if str_is_blank(value.as_str()) {
            None
        } else {
            Some(DeviceId { value })
        }
    }

    pub fn as_str(&self) -> (r: &str)
        ensures
            r@ == self@,
    {
        self.value.as_str()
    }
}

/// A signed-in session: the DSM address it was opened against and the opaque
/// session credential the server returned.
#[derive(Debug)]
pub struct Session {
    pub url: String,
    pub cookie: String,
}

impl Clone for Session {
    fn clone(&self) -> (r: Self)
        ensures
            r.url@ == self.url@,
            r.cookie@ == self.cookie@,
    {
        Session { url: self.url.clone(), cookie: self.cookie.clone() }
    }
}

/// The device id stored under a key, taking the first entry whose key
/// matches.
pub open spec fn lookup(ids: Seq<(String, DeviceId)>, key: Seq<char>) -> Option<Seq<char>>
    decreases ids.len(),
{
    if ids.len() == 0 {
        None
    } else if ids[0].0@ == key {
        Some(ids[0].1@)
    } else {
        lookup(ids.drop_first(), key)
    }
}

/// Every key occurs at most once.
pub open spec fn unique_keys(ids: Seq<(String, DeviceId)>) -> bool {
    forall|i: int, j: int| 0 <= i < j < ids.len() ==> ids[i].0@ != ids[j].0@
}

proof fn lemma_lookup_skip(ids: Seq<(String, DeviceId)>, key: Seq<char>, i: int)
    requires
        0 <= i <= ids.len(),
        forall|j: int| 0 <= j < i ==> ids[j].0@ != key,
    ensures
        lookup(ids, key) == lookup(ids.skip(i), key),
    decreases i,
{
    if i > 0 {
        lemma_lookup_skip(ids.drop_first(), key, i - 1);
        assert(ids.drop_first().skip(i - 1) =~= ids.skip(i));
    } else {
        assert(ids.skip(0) =~= ids);
    }
}

proof fn lemma_lookup_found(ids: Seq<(String, DeviceId)>, key: Seq<char>, i: int)
    requires
        0 <= i < ids.len(),
        ids[i].0@ == key,
        forall|j: int| 0 <= j < i ==> ids[j].0@ != key,
    ensures
        lookup(ids, key) == Some(ids[i].1@),
{
    lemma_lookup_skip(ids, key, i);
    assert(ids.skip(i)[0] == ids[i]);
}

proof fn lemma_lookup_absent(ids: Seq<(String, DeviceId)>, key: Seq<char>)
    requires
        forall|j: int| 0 <= j < ids.len() ==> ids[j].0@ != key,
    ensures
        lookup(ids, key) is None,
{
    lemma_lookup_skip(ids, key, ids.len() as int);
    assert(ids.skip(ids.len() as int) =~= Seq::<(String, DeviceId)>::empty());
}

proof fn lemma_lookup_update_other(a: Seq<(String, DeviceId)>, i: int, v: DeviceId, key: Seq<char>)
    requires
        0 <= i < a.len(),
        a[i].0@ != key,
    ensures
        lookup(a.update(i, (a[i].0, v)), key) == lookup(a, key),
    decreases a.len(),
{
    let b = a.update(i, (a[i].0, v));
    assert(b.len() == a.len());
    if a[0].0@ == key {
        assert(i != 0);
        assert(b[0] == a[0]);
    } else {
        assert(b[0].0@ == a[0].0@);
        if i == 0 {
            assert(b.drop_first() =~= a.drop_first());
        } else {
            lemma_lookup_update_other(a.drop_first(), i - 1, v, key);
            assert(b.drop_first() =~= a.drop_first().update(i - 1, (a.drop_first()[i - 1].0, v)));
        }
    }
}

proof fn lemma_lookup_push(a: Seq<(String, DeviceId)>, p: (String, DeviceId), key: Seq<char>)
    requires
        lookup(a, key) is None,
    ensures
        p.0@ == key ==> lookup(a.push(p), key) == Some(p.1@),
        p.0@ != key ==> lookup(a.push(p), key) is None,
    decreases a.len(),
{
    let b = a.push(p);
    if a.len() == 0 {
        assert(b[0] == p);
        assert(b.drop_first() =~= Seq::<(String, DeviceId)>::empty());
        assert(lookup(Seq::<(String, DeviceId)>::empty(), key) is None);
    } else {
        assert(b[0] == a[0]);
        assert(a[0].0@ != key);
        lemma_lookup_push(a.drop_first(), p, key);
        assert(b.drop_first() =~= a.drop_first().push(p));
    }
}

proof fn lemma_lookup_remove(a: Seq<(String, DeviceId)>, i: int, key: Seq<char>)
    requires
        0 <= i < a.len(),
        a[i].0@ != key,
    ensures
        lookup(a.remove(i), key) == lookup(a, key),
    decreases a.len(),
{
    let b = a.remove(i);
    a.remove_ensures(i);
    if i == 0 {
        assert(b =~= a.drop_first());
        assert(a[0].0@ != key);
    } else {
        assert(b[0] == a[0]);
        if a[0].0@ == key {
        } else {
            lemma_lookup_remove(a.drop_first(), i - 1, key);
            assert(b.drop_first() =~= a.drop_first().remove(i - 1));
        }
    }
}

/// The configuration record: the current session, if signed in, and the
/// remembered device ids keyed by DSM address.
#[derive(Debug)]
pub struct Conf {
    pub session: Option<Session>,
    pub device_ids: Vec<(String, DeviceId)>,
}

impl Conf {
    /// Each DSM address holds at most one remembered device id.
    pub open spec fn wf(&self) -> bool {
        unique_keys(self.device_ids@)
    }

    /// The device id remembered for an address, if any.
    pub open spec fn spec_device_id(&self, url: Seq<char>) -> Option<Seq<char>> {
        lookup(self.device_ids@, url)
    }

    /// An empty configuration: signed out, nothing remembered.
    pub fn new() -> (r: Self)
        ensures
            r.session is None,
            r.device_ids@.len() == 0,
            r.wf(),
    {
        Conf { session: None, device_ids: Vec::new() }
    }

    /// True when a session is stored.
    pub fn is_logged_in(&self) -> (r: bool)
        ensures
            r == (self.session is Some),
    {
        match &self.session {
            Some(_) => true,
            None => false,
        }
    }

    /// The address of the stored session, if signed in.
    pub fn get_session_url(&self) -> (r: Option<String>)
        ensures
            match r {
                Some(u) => self.session matches Some(s) && u@ == s.url@,
                None => self.session is None,
            },
    {
        match &self.session {
            Some(s) => Some(s.url.clone()),
            None => None,
        }
    }

    /// The device id remembered for an address.
    pub fn get_device_id(&self, url: &str) -> (r: Option<&DeviceId>)
        ensures
            match r {
                Some(d) => self.spec_device_id(url@) == Some(d@),
                None => self.spec_device_id(url@) is None,
            },
    {
        let mut i: usize = 0;
        while i < self.device_ids.len()
            invariant
                0 <= i <= self.device_ids@.len(),
                forall|j: int| 0 <= j < i ==> self.device_ids@[j].0@ != url@,
            decreases self.device_ids@.len() - i,
        {
            if crate::text::str_eq(self.device_ids[i].0.as_str(), url) {
                proof {
                    lemma_lookup_found(self.device_ids@, url@, i as int);
                }
                return Some(&self.device_ids[i].1);
            }
            i += 1;
        }
        proof {
            lemma_lookup_absent(self.device_ids@, url@);
        }
        None
    }

    /// Remembers or forgets the device id for the address of the current
    /// session. Does nothing when signed out. `Some` stores the id for the
    /// session's address, `None` removes it; every other address keeps its
    /// entry.
    pub fn set_device_id(&mut self, device_id: Option<DeviceId>)
        requires
            old(self).wf(),
        ensures
            final(self).wf(),
            final(self).session == old(self).session,
            old(self).session is None ==> final(self).device_ids == old(self).device_ids,
            old(self).session matches Some(s) ==> {
                &&& (match device_id {
                    Some(d) => final(self).spec_device_id(s.url@) == Some(d@),
                    None => final(self).spec_device_id(s.url@) is None,
                })
                &&& forall|k: Seq<char>|
                    k != s.url@ ==> final(self).spec_device_id(k) == old(self).spec_device_id(k)
            },
    {
        let url: String = match &self.session {
            Some(s) => s.url.clone(),
            None => {
                return ;
            },
        };
        let ghost s_url = url@;
        let mut i: usize = 0;
        let n = self.device_ids.len();
        while i < n
            invariant
                old(self).wf(),
                old(self).session matches Some(sess) && sess.url@ == s_url,
                n == self.device_ids@.len(),
                0 <= i <= n,
                forall|j: int| 0 <= j < i ==> self.device_ids@[j].0@ != s_url,
                url@ == s_url,
                self == old(self),
            decreases n - i,
        {
            if crate::text::str_eq(self.device_ids[i].0.as_str(), url.as_str()) {
                let ghost a = self.device_ids@;
                match device_id {
                    Some(d) => {
                        let ghost dg = d;
                        let key = self.device_ids[i].0.clone();
                        self.device_ids.set(i, (key, d));
                        proof {
                            let b = self.device_ids@;
                            assert(b =~= a.update(i as int, (a[i as int].0, dg)));
                            assert forall|x: int| 0 <= x < b.len() implies b[x].0@ == a[x].0@ by {
                                if x != i {
                                    assert(b[x] == a[x]);
                                }
                            }
                            assert forall|x: int, y: int|
                                0 <= x < y < b.len() implies b[x].0@ != b[y].0@ by {
                                assert(a[x].0@ != a[y].0@);
                            }
                            assert(unique_keys(b));
                            assert(b[i as int].0@ == s_url);
                            assert(b[i as int].1 == dg);
                            assert forall|j: int| 0 <= j < i implies b[j].0@ != s_url by {
                                assert(b[j] == a[j]);
                            }
                            lemma_lookup_found(b, s_url, i as int);
                            assert forall|k: Seq<char>| k != s_url implies lookup(b, k) == lookup(
                                a,
                                k,
                            ) by {
                                lemma_lookup_update_other(a, i as int, dg, k);
                            }
                        }
                    },
                    None => {
                        self.device_ids.remove(i);
                        proof {
                            let b = self.device_ids@;
                            a.remove_ensures(i as int);
                            assert(b =~= a.remove(i as int));
                            assert forall|j: int| 0 <= j < b.len() implies b[j].0@ != s_url by {
                                if j < i {
                                    assert(b[j] == a[j]);
                                } else {
                                    assert(b[j] == a[j + 1]);
                                    assert(unique_keys(a));
                                    assert(0 <= i < j + 1 < a.len());
                                    assert(a[i as int].0@ != a[j + 1].0@);
                                }
                            }
                            assert forall|x: int, y: int|
                                0 <= x < y < b.len() implies b[x].0@ != b[y].0@ by {
                                let xa: int = if x < i { x } else { x + 1 };
                                let ya: int = if y < i { y } else { y + 1 };
                                assert(b[x] == a[xa]);
                                assert(b[y] == a[ya]);
                            }
                            lemma_lookup_absent(b, s_url);
                            assert forall|k: Seq<char>| k != s_url implies lookup(b, k) == lookup(
                                a,
                                k,
                            ) by {
                                lemma_lookup_remove(a, i as int, k);
                            }
                        }
                    },
                }
                return ;
            }
            i += 1;
        }
        proof {
            lemma_lookup_absent(self.device_ids@, s_url);
        }
        match device_id {
            Some(d) => {
                let ghost dg = d;
                let ghost a = self.device_ids@;
                self.device_ids.push((url, d));
                proof {
                    let b = self.device_ids@;
                    let p = (b.last().0, b.last().1);
                    assert(b =~= a.push(p));
                    assert(p.0@ == s_url);
                    assert forall|x: int, y: int|
                        0 <= x < y < b.len() implies b[x].0@ != b[y].0@ by {
                        if y < a.len() {
                            assert(b[x] == a[x]);
                            assert(b[y] == a[y]);
                        } else {
                            assert(b[x] == a[x]);
                            assert(b[y] == p);
                        }
                    }
                    lemma_lookup_push(a, p, s_url);
                    assert forall|k: Seq<char>| k != s_url implies lookup(b, k) == lookup(
                        a,
                        k,
                    ) by {
                        if lookup(a, k) is None {
                            lemma_lookup_push(a, p, k);
                        } else {
                            lemma_lookup_first_witness(a, k);
                            let w = choose|w: int|
                                0 <= w < a.len() && a[w].0@ == k && (forall|j: int|
                                    0 <= j < w ==> a[j].0@ != k);
                            lemma_lookup_found(a, k, w);
                            assert(b[w] == a[w]);
                            assert(forall|j: int| 0 <= j < w ==> b[j] == a[j]);
                            lemma_lookup_found(b, k, w);
                        }
                    }
                }
            },
            None => {
            },
        }
    }

    /// Signs the configuration out: the session is cleared; when `forget` is
    /// set, every remembered device id is dropped too.
    pub fn sign_out(&mut self, forget: bool)
        requires
            old(self).wf(),
        ensures
            final(self).wf(),
            final(self).session is None,
            forget ==> final(self).device_ids@.len() == 0,
            !forget ==> final(self).device_ids == old(self).device_ids,
    {
        self.session = None;
        if forget {
            self.device_ids.clear();
        }
    }
}

proof fn lemma_lookup_first_witness(a: Seq<(String, DeviceId)>, key: Seq<char>)
    requires
        lookup(a, key) is Some,
    ensures
        exists|w: int|
            0 <= w < a.len() && a[w].0@ == key && (forall|j: int| 0 <= j < w ==> a[j].0@ != key),
    decreases a.len(),
{
    if a[0].0@ == key {
        assert(0 <= 0 < a.len() && a[0].0@ == key && (forall|j: int|
            0 <= j < 0 ==> a[j].0@ != key));
    } else {
        lemma_lookup_first_witness(a.drop_first(), key);
        let w0 = choose|w: int|
            0 <= w < a.drop_first().len() && a.drop_first()[w].0@ == key && (forall|j: int|
                0 <= j < w ==> a.drop_first()[j].0@ != key);
        assert(a[w0 + 1].0@ == key);
        assert(forall|j: int| 0 <= j < w0 + 1 ==> a[j].0@ != key) by {
            assert(forall|j: int| 1 <= j < w0 + 1 ==> a[j] == a.drop_first()[j - 1]);
        }
        assert(0 <= w0 + 1 < a.len() && a[w0 + 1].0@ == key && (forall|j: int|
            0 <= j < w0 + 1 ==> a[j].0@ != key));
    }
}

/// The report of the sign-in status command.
pub fn status_line(conf: &Conf) -> (r: String)
    ensures
        conf.session matches Some(s) ==> r@ == "signed in to "@ + s.url@,
        conf.session is None ==> r@ == "signed out, use the 'login' command to sign-in to DSM"@,
{
    match &conf.session {
        Some(s) => {
            let mut r = String::new();
            r.append("signed in to ");
            r.append(s.url.as_str());
            r
        },
        None => "signed out, use the 'login' command to sign-in to DSM".to_owned(),
    }
}

} // verus!
