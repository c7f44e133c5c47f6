//! Identifiers: UUIDs are carried as their 128-bit value.
use uuid::Uuid;
use vstd::prelude::*;

use vstd::arithmetic::power::pow;

use crate::crypto::{hex_encode, hex_of};
use crate::text::{chars_of, copy_range, push_chars, push_str, string_of, trim, trim_seq};

verus! {

/// The 16 bytes of a UUID with value `id`, most significant first
/// (`Uuid::from_u128`).
pub open spec fn uuid_bytes(id: u128) -> Seq<u8> {
    Seq::new(16, |i: int| ((id as int / pow(256, (15 - i) as nat)) % 256) as u8)
}

/// The 32 lower-case hex digits of a UUID (`Uuid::simple`).
pub open spec fn uuid_simple(id: u128) -> Seq<char> {
    hex_of(uuid_bytes(id))
}

/// The hyphenated lower-case text of a UUID (`Uuid`'s `Display`): the hex
/// digits in groups of 8, 4, 4, 4 and 12.
pub open spec fn uuid_hyphenated(id: u128) -> Seq<char> {
    let s = uuid_simple(id);
    s.subrange(0, 8) + "-"@ + s.subrange(8, 12) + "-"@ + s.subrange(12, 16) + "-"@ + s.subrange(16, 20)
        + "-"@ + s.subrange(20, 32)
}

/// Calls `Uuid::now_v7`: a new time-ordered UUID with random bits. Its
/// value is not stated, only its version nibble (7, the high half of byte
/// 6) and its variant (binary 10, the top bits of byte 8), which uuid's
/// encoder sets.
#[verifier::external_body]
pub fn new_uuid_v7() -> (r: u128)
    ensures
        uuid_bytes(r)[6] / 16 == 7,
        uuid_bytes(r)[8] / 64 == 2,
{
    Uuid::now_v7().as_u128()
}

/// The 16 bytes of the UUID with value `id`, most significant first.
fn uuid_byte_vec(id: u128) -> (r: Vec<u8>)
    ensures
        r@ == uuid_bytes(id),
{
    let mut r: Vec<u8> = Vec::new();
    let mut d: u128 = 0x100_0000_0000_0000_0000_0000_0000_0000;
    assert(d == pow(256, 15)) by {
        reveal(pow);
        reveal_with_fuel(pow, 16);
    }
    let mut i: usize = 0;
    while i < 16
        invariant
            i <= 16,
            r@.len() == i,
            i < 16 ==> d == pow(256, (15 - i) as nat),
            forall|j: int| 0 <= j < i ==> #[trigger] r@[j] == uuid_bytes(id)[j],
        decreases 16 - i,
    {
        proof {
            vstd::arithmetic::power::lemma_pow_positive(256, (15 - i) as nat);
        }
        let b = ((id / d) % 256) as u8;
        r.push(b);
        if i < 15 {
            proof {
                assert(pow(256, (15 - i) as nat) == 256 * pow(256, (14 - i) as nat)) by {
                    reveal(pow);
                }
            }
            d = d / 256;
        }
        i += 1;
    }
    assert(r@ =~= uuid_bytes(id));
    r
}

/// The 32 lower-case hex digits of the UUID with value `id` (what
/// `Uuid::simple` prints).
pub(crate) fn uuid_simple_string(id: u128) -> (r: String)
    ensures
        r@ == uuid_simple(id),
        r@.len() == 32,
{
    let bytes = uuid_byte_vec(id);
    hex_encode(bytes.as_slice())
}

/// The hyphenated lower-case text of the UUID with value `id` (what
/// `Uuid`'s `Display` prints).
pub(crate) fn uuid_to_string(id: u128) -> (r: String)
    ensures
        r@ == uuid_hyphenated(id),
{
    let simple = uuid_simple_string(id);
    let c = chars_of(simple.as_str());
    let mut out = copy_range(&c, 0, 8);
    push_str(&mut out, "-");
    push_chars(&mut out, &copy_range(&c, 8, 12));
    push_str(&mut out, "-");
    push_chars(&mut out, &copy_range(&c, 12, 16));
    push_str(&mut out, "-");
    push_chars(&mut out, &copy_range(&c, 16, 20));
    push_str(&mut out, "-");
    push_chars(&mut out, &copy_range(&c, 20, 32));
    string_of(&out)
}

/// `prefix` trimmed, `_` and the text of `id`.
pub open spec fn prefixed_id(prefix: Seq<char>, id: u128) -> Seq<char> {
    trim_seq(prefix) + "_"@ + uuid_hyphenated(id)
}

/// `prefix_id` for the given `id`.
pub fn prefixed_id_for(prefix: &str, id: u128) -> (r: String)
    ensures
        r@ == prefixed_id(prefix@, id),
{
    let mut s = string_of(&trim(&chars_of(prefix)));
    s.append("_");
    let u = uuid_to_string(id);
    s.append(u.as_str());
    s
}

/// A new identifier: `prefix` trimmed, `_` and a new UUID v7 (version 7,
/// variant binary 10).
pub fn new_prefixed_id(prefix: &str) -> (r: String)
    ensures
        exists|id: u128|
            #![trigger prefixed_id(prefix@, id)]
            r@ == prefixed_id(prefix@, id) && uuid_bytes(id)[6] / 16 == 7 && uuid_bytes(id)[8] / 64 == 2,
{
    let id = new_uuid_v7();
    prefixed_id_for(prefix, id)
}

} // verus!
