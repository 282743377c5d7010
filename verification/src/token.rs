use vstd::prelude::*;
use crate::text::push_char;

verus! {

// Token issuance: identifiers of a requested length over a 62-symbol
// alphabet, drawn from the operating system's random source.

/// The token alphabet: digits, then lower-case, then upper-case letters.
pub open spec fn spec_alphabet() -> Seq<char> {
    "0123456789abcdefghijklmnopqrstuvwxyzABCDEFGHIJKLMNOPQRSTUVWXYZ"@
}

/// Whether every character of `t` comes from the token alphabet.
pub open spec fn token_chars_ok(t: Seq<char>) -> bool {
    forall|i: int| 0 <= i < t.len() ==> spec_alphabet().contains(#[trigger] t[i])
}

/// The token spelled by `bytes`: each byte picks one alphabet symbol.
pub open spec fn spec_token_of_bytes(b: Seq<u8>) -> Seq<char> {
    b.map_values(|v: u8| spec_alphabet()[(v % 62) as int])
}

/// Relies on rand's `OsRng::try_fill_bytes`: on success the whole buffer
/// has been filled from the operating system's random source.  The call
/// fails only when that source is unavailable; no token can be issued
/// then, so the process aborts, and nothing is promised about the values.
#[verifier::external_body]
fn os_random_bytes(len: usize) -> (r: Vec<u8>)
    ensures
        r@.len() == len,
{
    let mut bytes = vec![0u8; len];
    let mut rng = rand::rngs::OsRng;
    rand::TryRngCore::try_fill_bytes(&mut rng, &mut bytes)
        .expect("the operating system's random source failed");
    bytes
}

fn token_char(b: u8) -> (c: char)
    ensures
        c == spec_alphabet()[(b % 62) as int],
{
    let alphabet = "0123456789abcdefghijklmnopqrstuvwxyzABCDEFGHIJKLMNOPQRSTUVWXYZ";
    proof {
        reveal_strlit("0123456789abcdefghijklmnopqrstuvwxyzABCDEFGHIJKLMNOPQRSTUVWXYZ");
    }
    alphabet.get_char((b % 62) as usize)
}

/// Spell the token that `bytes` picks from the alphabet.
pub fn token_from_bytes(bytes: &Vec<u8>) -> (r: String)
    ensures
        r@ == spec_token_of_bytes(bytes@),
{
    let n = bytes.len();
    let mut out = String::new();
    let mut i: usize = 0;
    proof {
        assert(out@ =~= spec_token_of_bytes(bytes@.take(0)));
    }
    while i < n
        invariant
            n == bytes@.len(),
            i <= n,
            out@ == spec_token_of_bytes(bytes@.take(i as int)),
        decreases n - i,
    {
        let c = token_char(bytes[i]);
        push_char(&mut out, c);
        proof {
            assert(spec_token_of_bytes(bytes@.take(i + 1)) =~= spec_token_of_bytes(
                bytes@.take(i as int),
            ).push(spec_alphabet()[(bytes@[i as int] % 62) as int]));
        }
        i = i + 1;
    }
    proof {
        assert(bytes@.take(n as int) =~= bytes@);
    }
    out
}

/// Generate a random alphanumeric token of the given length.
pub fn generate_token(length: usize) -> (r: String)
    ensures
        r@.len() == length,
        token_chars_ok(r@),
{
    let bytes = os_random_bytes(length);
    let t = token_from_bytes(&bytes);
    proof {
        reveal_strlit("0123456789abcdefghijklmnopqrstuvwxyzABCDEFGHIJKLMNOPQRSTUVWXYZ");
        assert(forall|i: int| 0 <= i < t@.len() ==> spec_alphabet().contains(#[trigger] t@[i]))
            by {
            assert(forall|i: int|
                0 <= i < t@.len() ==> #[trigger] t@[i] == spec_alphabet()[(bytes@[i] % 62) as int]);
        }
    }
    t
}

} // verus!
