//! The release check: picking the newest published release from the registry
//! index and comparing it with the running version.

use vstd::prelude::*;

verus! {

/// One published release of the client, as the registry index lists it.
#[derive(Debug)]
pub struct Crate {
    pub vers: String,
    pub yanked: bool,
}

impl Clone for Crate {
    fn clone(&self) -> (r: Self)
        ensures
            r == *self,
    {
        Crate { vers: self.vers.clone(), yanked: self.yanked }
    }
}

/// The last release that was not yanked: index lines come oldest first, so
/// the last usable line is the newest release.
pub fn latest_non_yanked(crates: &Vec<Crate>) -> (r: Option<Crate>)
    ensures
        match r {
            Some(c) => exists|i: int|
                0 <= i < crates@.len() && crates@[i] == c && !c.yanked && (forall|j: int|
                    i < j < crates@.len() ==> (#[trigger] crates@[j]).yanked),
            None => forall|j: int| 0 <= j < crates@.len() ==> (#[trigger] crates@[j]).yanked,
        },
{
    let mut i: usize = crates.len();
    while i > 0
        invariant
            0 <= i <= crates@.len(),
            forall|j: int| i <= j < crates@.len() ==> (#[trigger] crates@[j]).yanked,
        decreases i,
    {
        i -= 1;
        if !crates[i].yanked {
            let c = crates[i].clone();
            return Some(c);
        }
    }
    None
}

/// True when the newest release differs from the running version.
pub fn update_available(remote_vers: &str, installed: &str) -> (r: bool)
    ensures
        r == (remote_vers@ != installed@),
{
    !crate::text::str_eq(remote_vers, installed)
}

/// The release check's report line.
pub fn update_message(remote_vers: &str, installed: &str) -> (r: String)
    ensures
        remote_vers@ != installed@ ==> r@ == "Version "@ + remote_vers@ + " is available!"@,
        remote_vers@ == installed@ ==> r@ == "Everything up to date"@,
{
    if update_available(remote_vers, installed) {
        let mut r = String::new();
        r.append("Version ");
        r.append(remote_vers);
        r.append(" is available!");
        r
    } else {
        "Everything up to date".to_owned()
    }
}

} // verus!
