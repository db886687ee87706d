//! Demo scaffolding: generating a random pool of lowercase letters, a
//! typical input to the letter-frequency counter.

use rand::Rng;
use vstd::prelude::*;

use crate::letters::is_lower_letter;

verus! {

/// Relies on rand::thread_rng and rand::Rng::gen_range over `lo..=hi`: a
/// draw from a non-empty inclusive range lies in that range (gen_range
/// panics only on an empty range).
#[verifier::external_body]
fn random_u8_in(lo: u8, hi: u8) -> (r: u8)
    requires
        lo <= hi,
    ensures
        lo <= r && r <= hi,
{
    rand::thread_rng().gen_range(lo..=hi)
}

/// Relies on String::from_utf8: bytes that are all ASCII lowercase letters
/// are valid UTF-8, and decoding them yields exactly those characters.
#[verifier::external_body]
fn lowercase_string_from_bytes(bytes: Vec<u8>) -> (r: String)
    requires
        forall|i: int| 0 <= i < bytes@.len() ==> 97 <= #[trigger] bytes@[i] <= 122,
    ensures
        r@.len() == bytes@.len(),
        forall|i: int| 0 <= i < bytes@.len() ==> r@[i] == (#[trigger] bytes@[i]) as char,
{
    String::from_utf8(bytes).unwrap()
}

/// Generate a random string of lowercase letters of the given length. When
/// `None` is passed in, a random length from 1 to 200 is drawn first.
pub fn generate_random_string(length: Option<u8>) -> (r: String)
    ensures
        forall|i: int| 0 <= i < r@.len() ==> is_lower_letter(#[trigger] r@[i]),
        length matches Some(n) ==> r@.len() == n as nat,
        length is None ==> 1 <= r@.len() <= 200,
{
    let n: u8 = match length {
        Some(n) => n,
        None => random_u8_in(1, 200),
    };
    let mut bytes: Vec<u8> = Vec::new();
    let mut i: u8 = 0;
    while i < n
        invariant
            i <= n,
            bytes@.len() == i as nat,
            forall|j: int| 0 <= j < i as int ==> 97 <= #[trigger] bytes@[j] <= 122,
        decreases n - i,
    {
        bytes.push(random_u8_in(97, 122));
        i += 1;
    }
    let r = lowercase_string_from_bytes(bytes);
    proof {
        assert forall|i: int| 0 <= i < r@.len() implies is_lower_letter(#[trigger] r@[i]) by {
            assert(97 <= bytes@[i] <= 122);
            assert(r@[i] == bytes@[i] as char);
        }
    }
    r
}

} // verus!
