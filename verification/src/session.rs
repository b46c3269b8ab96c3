//! The verified part of the login step. Logins run sequentially, one per
//! registered credentials pair; each response body carries the bearer token,
//! optionally wrapped in quotes. The tokens are collected in user order — a
//! failed login is fatal upstream, so every body handed here yields a token.

use crate::text::{unquote_spec, unquote_token};
use vstd::prelude::*;

verus! {

/// Extracts the bearer token from each login response body, in order.
pub fn tokens_from_responses(bodies: &Vec<Vec<u8>>) -> (r: Vec<Vec<u8>>)
    ensures
        r@.len() == bodies@.len(),
        forall|k: int| 0 <= k < r@.len() ==> (#[trigger] r@[k])@ == unquote_spec(bodies@[k]@),
{
    let n = bodies.len();
    let mut r: Vec<Vec<u8>> = Vec::new();
    let mut i: usize = 0;
    while i < n
        invariant
            n == bodies@.len(),
            i <= n,
            r@.len() == i,
            forall|k: int| 0 <= k < i ==> (#[trigger] r@[k])@ == unquote_spec(bodies@[k]@),
        decreases n - i,
    {
        r.push(unquote_token(&bodies[i]));
        i += 1;
    }
    r
}

} // verus!
