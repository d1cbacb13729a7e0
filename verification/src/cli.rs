//! The commands the client accepts and the validation of the request timeout
//! option.

use vstd::prelude::*;

verus! {

/// One invocation of the client.
#[derive(Debug)]
pub struct Cli {
    pub command: Command,
    /// HTTP request timeout in seconds; validated to be at least 5.
    pub timeout_seconds: u64,
}

/// The commands the client knows.
#[derive(Debug)]
pub enum Command {
    /// Sign in to DSM, remembering the session.
    Login {
        dsm_url: Option<String>,
        user: Option<String>,
        password: Option<String>,
        remember: bool,
    },
    /// List the file locations of the photos of an album.
    List { album_name: String },
    /// Copy an album's accessible photos to a personal space folder.
    Export { album_name: String, folder_path: String },
    /// Sign out, forgetting the remembered devices when asked to.
    Logout { forget: bool },
    /// Report whether a session is stored.
    Status,
    /// Check whether a newer release exists.
    CheckUpdate,
}

/// A decimal digit.
pub open spec fn is_digit(c: char) -> bool {
    '0' <= c && c <= '9'
}

/// A non-empty string of decimal digits.
pub open spec fn is_dec_string(s: Seq<char>) -> bool {
    s.len() > 0 && (forall|i: int| 0 <= i < s.len() ==> is_digit(s[i]))
}

/// The numeric value of a digit string.
pub open spec fn dec_value(s: Seq<char>) -> int
    decreases s.len(),
{
    if s.len() == 0 {
        0
    } else {
        dec_value(s.drop_last()) * 10 + (s.last() as int - 48)
    }
}

proof fn lemma_dec_value_nonneg(s: Seq<char>)
    requires
        forall|i: int| 0 <= i < s.len() ==> is_digit(s[i]),
    ensures
        dec_value(s) >= 0,
    decreases s.len(),
{
    if s.len() > 0 {
        lemma_dec_value_nonneg(s.drop_last());
    }
}

proof fn lemma_dec_value_grows(s: Seq<char>, i: int)
    requires
        0 <= i <= s.len(),
        forall|k: int| 0 <= k < s.len() ==> is_digit(s[k]),
    ensures
        dec_value(s.take(i)) <= dec_value(s),
    decreases s.len() - i,
{
    lemma_dec_value_nonneg(s.take(i));
    if i < s.len() {
        lemma_dec_value_grows(s, i + 1);
        assert(s.take(i + 1).drop_last() =~= s.take(i));
        assert(s.take(i + 1).last() == s[i]);
        lemma_dec_value_nonneg(s.take(i));
    } else {
        assert(s.take(i) =~= s);
    }
}

/// Reads a non-negative decimal number. Nothing else is accepted: the empty
/// string, any non-digit, and any value beyond the range of `u64` give
/// nothing.
pub fn parse_u64(s: &str) -> (r: Option<u64>)
    ensures
        match r {
            Some(n) => is_dec_string(s@) && n == dec_value(s@),
            None => !is_dec_string(s@) || dec_value(s@) > u64::MAX,
        },
{
    let len = s.unicode_len();
    if len == 0 {
        return None;
    }
    let mut acc: u64 = 0;
    let mut i: usize = 0;
    proof {
        assert(s@.take(0) =~= Seq::<char>::empty());
    }
    while i < len
        invariant
            len == s@.len(),
            0 < len,
            0 <= i <= len,
            forall|k: int| 0 <= k < i ==> is_digit(s@[k]),
            acc == dec_value(s@.take(i as int)),
        decreases len - i,
    {
        let c = s.get_char(i);
        let v = c as u32;
        if !(48 <= v && v <= 57) {
            return None;
        }
        let d = (v - 48) as u64;
        proof {
            assert(s@.take(i + 1).drop_last() =~= s@.take(i as int));
            assert(s@.take(i + 1).last() == s@[i as int]);
        }
        if acc > (u64::MAX - d) / 10 {
            proof {
                assert(dec_value(s@.take(i + 1)) == acc * 10 + d);
                assert(acc * 10 + d > u64::MAX) by (nonlinear_arith)
                    requires
                        acc > (u64::MAX - d) / 10,
                        0 <= d <= 9,
                        acc <= u64::MAX,
                {
                }
            }
            if i + 1 < len {
                let ghost whole = s@;
                let ghost j = i + 1;
                let mut k: usize = i + 1;
                while k < len
                    invariant
                        len == s@.len(),
                        i + 1 <= k <= len,
                        forall|x: int| 0 <= x < i + 1 ==> is_digit(s@[x]),
                        forall|x: int| i + 1 <= x < k ==> is_digit(s@[x]),
                    decreases len - k,
                {
                    let cc = s.get_char(k);
                    let vv = cc as u32;
                    if !(48 <= vv && vv <= 57) {
                        return None;
                    }
                    k += 1;
                }
                proof {
                    lemma_dec_value_grows(s@, i + 1);
                }
                return None;
            } else {
                proof {
                    assert(s@.take(i + 1) =~= s@);
                }
                return None;
            }
        }
        proof {
            assert(acc * 10 + d <= u64::MAX) by (nonlinear_arith)
                requires
                    acc <= (u64::MAX - d) / 10,
                    0 <= d <= 9,
            {
            }
        }
        acc = acc * 10 + d;
        i += 1;
    }
    proof {
        assert(s@.take(len as int) =~= s@);
    }
    Some(acc)
}

/// Why a timeout value is refused.
#[derive(Clone, Copy, Debug, PartialEq, Eq, Structural)]
pub enum DurationError {
    /// Not a decimal number in range.
    NotANumber,
    /// Less than the enforced floor of 5 seconds.
    TooSmall,
}

/// Validates the request timeout: a decimal number of seconds, at least 5.
pub fn try_parse_duration(arg: &str) -> (r: Result<u64, DurationError>)
    ensures
        match r {
            Ok(n) => is_dec_string(arg@) && n == dec_value(arg@) && n >= 5,
            Err(DurationError::TooSmall) => is_dec_string(arg@) && dec_value(arg@) < 5,
            Err(DurationError::NotANumber) => !is_dec_string(arg@) || dec_value(arg@)
                > u64::MAX,
        },
{
    match parse_u64(arg) {
        Some(n) => {
            if n < 5 {
                Err(DurationError::TooSmall)
            } else {
                Ok(n)
            }
        },
        None => Err(DurationError::NotANumber),
    }
}

} // verus!
