//! The signing secret: derived once, from the configured credential or, when
//! there is none, from random characters, and never changed after.

use crate::murmur::{murmur3_spec, murmurhash3_x64_128};
use crate::text::{decimal, u64_decimal};
use vstd::prelude::*;
use vstd::string::*;

verus! {

/// The hash seed the secret is derived with.
pub const SECRET_SEED: u32 = 31;

/// How many random characters stand in for a missing credential.
pub const FALLBACK_LEN: usize = 31;

/// An ASCII letter or digit.
pub open spec fn is_alphanumeric(b: u8) -> bool {
    (48 <= b <= 57) || (65 <= b <= 90) || (97 <= b <= 122)
}

/// Relies on rand::thread_rng sampled with rand::distributions::Alphanumeric:
/// `len` bytes, each an ASCII letter or digit.
#[verifier::external_body]
fn random_alphanumeric(len: usize) -> (r: Vec<u8>)
    ensures
        r@.len() == len,
        forall|i: int| 0 <= i < len ==> is_alphanumeric(#[trigger] r@[i]),
{
    rand::Rng::sample_iter(rand::thread_rng(), rand::distributions::Alphanumeric).take(len).collect()
}

/// The byte at index `i` of the character set `a-z`, `A-Z`, `0-9`.
pub open spec fn charset_byte(i: int) -> u8 {
    if i < 26 {
        (97 + i) as u8
    } else if i < 52 {
        (65 + i - 26) as u8
    } else {
        (48 + i - 52) as u8
    }
}

/// Maps each random byte onto the character set by its remainder mod 62.
fn to_charset(raw: &Vec<u8>) -> (m: Vec<u8>)
    ensures
        m@.len() == raw@.len(),
        forall|i: int| 0 <= i < m@.len() ==> #[trigger] m@[i] == charset_byte(raw@[i] as int % 62),
        forall|i: int| 0 <= i < m@.len() ==> is_alphanumeric(#[trigger] m@[i]),
{
    let mut m: Vec<u8> = Vec::new();
    let mut i: usize = 0;
    while i < raw.len()
        invariant
            i <= raw@.len(),
            m@.len() == i,
            forall|j: int| 0 <= j < i ==> #[trigger] m@[j] == charset_byte(raw@[j] as int % 62),
            forall|j: int| 0 <= j < i ==> is_alphanumeric(#[trigger] m@[j]),
        decreases raw@.len() - i,
    {
        let k = raw[i] % 62;
        let b: u8 = if k < 26 {
            97 + k
        } else if k < 52 {
            65 + (k - 26)
        } else {
            48 + (k - 52)
        };
        m.push(b);
        i = i + 1;
    }
    m
}

/// The secret derived from `material`: the two halves of its MurmurHash3,
/// written in decimal one after the other.
pub open spec fn secret_of(material: Seq<u8>) -> Seq<char> {
    let h = murmur3_spec(material, SECRET_SEED);
    decimal(h.0 as nat) + decimal(h.1 as nat)
}

/// Derives the secret from `material`.
pub fn derive_secret(material: &[u8]) -> (r: String)
    ensures
        r@ == secret_of(material@),
{
    let (x, y) = murmurhash3_x64_128(material, SECRET_SEED);
    u64_decimal(x).concat(u64_decimal(y).as_str())
}

/// Holds the secret once it has been derived.
pub struct SecretDeriver {
    secret: Option<String>,
}

impl SecretDeriver {
    /// The secret, once derived.
    pub closed spec fn current(&self) -> Option<Seq<char>> {
        match self.secret {
            Some(s) => Some(s@),
            None => None,
        }
    }

    /// A deriver that has not derived yet.
    pub fn new() -> (r: SecretDeriver)
        ensures
            r.current() is None,
    {
        SecretDeriver { secret: None }
    }

    /// The secret: derived on the first call, from `credential` when one is
    /// configured and otherwise from `FALLBACK_LEN` random letters and digits
    /// (random bytes mapped onto `a-z`, `A-Z`, `0-9` by their remainder mod 62); every later
    /// call returns the same value, whatever it is passed.
    pub fn get_or_init_secret(&mut self, credential: Option<&str>) -> (r: String)
        ensures
            old(self).current() matches Some(s) ==> r@ == s && final(self).current()
                == old(self).current(),
            old(self).current() is None ==> final(self).current() == Some(r@),
            old(self).current() is None && credential is Some ==> r@ == secret_of(
                credential->Some_0.spec_bytes(),
            ),
            old(self).current() is None && credential is None ==> exists|m: Seq<u8>|
                m.len() == FALLBACK_LEN && (forall|i: int|
                    0 <= i < m.len() ==> is_alphanumeric(#[trigger] m[i])) && r@ == #[trigger] secret_of(m),
    {
        match &self.secret {
            Some(s) => s.clone(),
            None => {
                let s = match credential {
                    Some(c) => derive_secret(c.as_bytes()),
                    None => {
                        let material = to_charset(&random_alphanumeric(FALLBACK_LEN));
                        derive_secret(material.as_slice())
                    },
                };
                self.secret = Some(s.clone());
                s
            },
        }
    }
}

} // verus!
