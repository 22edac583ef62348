//! Random tokens: one-time codes and session identifiers.
use vstd::prelude::*;

use crate::outside::{push_char, sample_alphanumeric};

verus! {

/// Length of a one-time code.
pub const CODE_LENGTH: usize = 16;

/// An ASCII letter or digit.
pub open spec fn is_alphanumeric(c: char) -> bool {
    ('A' <= c && c <= 'Z') || ('a' <= c && c <= 'z') || ('0' <= c && c <= '9')
}

/// `n` ASCII letters and digits.
pub open spec fn is_token(s: Seq<char>, n: nat) -> bool {
    s.len() == n && forall|i: int| 0 <= i < s.len() ==> is_alphanumeric(#[trigger] s[i])
}

/// A random text of `n` ASCII letters and digits.
pub fn random_text(n: usize) -> (s: String)
    ensures
        is_token(s@, n as nat),
{
    let mut s = String::new();
    let mut i: usize = 0;
    while i < n
        invariant
            i <= n,
            is_token(s@, i as nat),
        decreases n - i,
    {
        let c = sample_alphanumeric();
        push_char(&mut s, c);
        i += 1;
    }
    s
}

/// A fresh one-time code: 16 random ASCII letters and digits.
pub fn generate_verification_code() -> (code: String)
    ensures
        is_token(code@, CODE_LENGTH as nat),
{
    random_text(CODE_LENGTH)
}

} // verus!
