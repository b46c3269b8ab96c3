//! Generation of per-run identities and payloads: a fixed role prefix
//! followed by twenty random alphanumeric characters. The randomness itself
//! comes from an outside generator; everything proved here holds of every
//! outcome it may produce.

use crate::dto::Credentials;
use vstd::prelude::*;

verus! {

/// ASCII letter or digit.
pub open spec fn is_alnum_byte(b: u8) -> bool {
    (48 <= b <= 57) || (65 <= b <= 90) || (97 <= b <= 122)
}

/// Relies on rand's `Alphanumeric` distribution: sampled through
/// `Rng::sample_iter`, it yields uniformly distributed bytes from the set
/// `A-Z a-z 0-9`, so taking `n` samples collects `n` alphanumeric bytes.
#[verifier::external_body]
fn random_alphanumeric(n: usize) -> (r: Vec<u8>)
    ensures
        r@.len() == n,
        forall|i: int| 0 <= i < r@.len() ==> is_alnum_byte(#[trigger] r@[i]),
{
    rand::Rng::sample_iter(rand::thread_rng(), &rand::distributions::Alphanumeric).take(n).collect()
}

/// The given prefix followed by twenty random alphanumeric bytes.
fn prefixed_random(prefix: &Vec<u8>) -> (r: Vec<u8>)
    requires
        prefix@.len() <= 100,
    ensures
        r@.len() == prefix@.len() + 20,
        r@.subrange(0, prefix@.len() as int) == prefix@,
        forall|i: int| prefix@.len() <= i < r@.len() ==> is_alnum_byte(#[trigger] r@[i]),
{
    let mut v = crate::text::copy_bytes(prefix);
    let rnd = random_alphanumeric(20);
    let mut i: usize = 0;
    while i < 20
        invariant
            rnd@.len() == 20,
            forall|k: int| 0 <= k < rnd@.len() ==> is_alnum_byte(#[trigger] rnd@[k]),
            i <= 20,
            v@ == prefix@ + rnd@.take(i as int),
        decreases 20 - i,
    {
        v.push(rnd[i]);
        proof {
            assert(v@ =~= prefix@ + rnd@.take(i + 1));
        }
        i += 1;
    }
    proof {
        assert(rnd@.take(20) =~= rnd@);
        assert(v@.subrange(0, prefix@.len() as int) =~= prefix@);
    }
    v
}

/// The prefix marking generated usernames.
pub open spec fn username_prefix() -> Seq<u8> {
    seq!['t' as u8, 'e' as u8, 's' as u8, 't' as u8]
}

/// The prefix marking generated passwords.
pub open spec fn password_prefix() -> Seq<u8> {
    seq!['p' as u8, 'a' as u8, 's' as u8, 's' as u8]
}

/// The prefix marking generated wish payloads.
pub open spec fn wish_prefix() -> Seq<u8> {
    seq!['w' as u8, 'i' as u8, 's' as u8, 'h' as u8]
}

fn username_prefix_bytes() -> (r: Vec<u8>)
    ensures
        r@ == username_prefix(),
{
    let v = vec!['t' as u8, 'e' as u8, 's' as u8, 't' as u8];
    proof {
        assert(v@ =~= username_prefix());
    }
    v
}

fn password_prefix_bytes() -> (r: Vec<u8>)
    ensures
        r@ == password_prefix(),
{
    let v = vec!['p' as u8, 'a' as u8, 's' as u8, 's' as u8];
    proof {
        assert(v@ =~= password_prefix());
    }
    v
}

fn wish_prefix_bytes() -> (r: Vec<u8>)
    ensures
        r@ == wish_prefix(),
{
    let v = vec!['w' as u8, 'i' as u8, 's' as u8, 'h' as u8];
    proof {
        assert(v@ =~= wish_prefix());
    }
    v
}

/// A fresh username: the username prefix, then twenty random alphanumeric
/// characters.
pub fn generate_username() -> (r: Vec<u8>)
    ensures
        r@.len() == 24,
        r@.subrange(0, 4) == username_prefix(),
        forall|i: int| 4 <= i < 24 ==> is_alnum_byte(#[trigger] r@[i]),
{
    let p = username_prefix_bytes();
    prefixed_random(&p)
}

/// A fresh password: the password prefix, then twenty random alphanumeric
/// characters.
pub fn generate_password() -> (r: Vec<u8>)
    ensures
        r@.len() == 24,
        r@.subrange(0, 4) == password_prefix(),
        forall|i: int| 4 <= i < 24 ==> is_alnum_byte(#[trigger] r@[i]),
{
    let p = password_prefix_bytes();
    prefixed_random(&p)
}

/// A fresh wish payload: the wish prefix, then twenty random alphanumeric
/// characters.
pub fn generate_wish() -> (r: Vec<u8>)
    ensures
        r@.len() == 24,
        r@.subrange(0, 4) == wish_prefix(),
        forall|i: int| 4 <= i < 24 ==> is_alnum_byte(#[trigger] r@[i]),
{
    let p = wish_prefix_bytes();
    prefixed_random(&p)
}

/// A fresh credentials pair for one virtual user.
pub fn generate_credentials() -> (c: Credentials)
    ensures
        c.name@.len() == 24,
        c.name@.subrange(0, 4) == username_prefix(),
        c.pass@.len() == 24,
        c.pass@.subrange(0, 4) == password_prefix(),
{
    Credentials { name: generate_username(), pass: generate_password() }
}

} // verus!
