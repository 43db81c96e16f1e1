//! Identifiers. Entities are identified by UUIDs, held as their 128-bit
//! value (`Uuid::as_u128`, whose numeric order is the UUID byte order).

use vstd::prelude::*;
use vstd::arithmetic::power2::{lemma2_to64, lemma_pow2_adds, lemma_pow2_pos, pow2};
use vstd::arithmetic::div_mod::{lemma_basic_div, lemma_div_denominator, lemma_fundamental_div_mod};
use crate::text::digit_char;

verus! {

/// Lower-case hexadecimal digit of `d < 16`.
pub open spec fn hex_char(d: int) -> char {
    if d < 10 {
        digit_char(d)
    } else {
        ((d - 10 + 97) as u32) as char
    }
}

/// The 32 hexadecimal digits of an identifier, most significant first.
pub open spec fn hex_digits(id: u128) -> Seq<char> {
    Seq::new(32, |k: int| hex_char((id as int / pow2((4 * (31 - k)) as nat) as int) % 16))
}

/// The hyphenated lower-case form `xxxxxxxx-xxxx-xxxx-xxxx-xxxxxxxxxxxx`
/// in which a UUID is displayed.
pub open spec fn hyphenated(id: u128) -> Seq<char> {
    let h = hex_digits(id);
    h.subrange(0, 8) + seq!['-'] + h.subrange(8, 12) + seq!['-'] + h.subrange(12, 16) + seq!['-']
        + h.subrange(16, 20) + seq!['-'] + h.subrange(20, 32)
}

/// What `uuid::Uuid::parse_str` accepts and yields, as a 128-bit value.
pub uninterp spec fn parsed_id(s: Seq<char>) -> Option<u128>;

/// `Uuid::to_string` of the identifier: its hyphenated lower-case form.
#[verifier::external_body]
pub(crate) fn id_to_string(id: u128) -> (s: String)
    ensures
        s@ == hyphenated(id),
{
    uuid::Uuid::from_u128(id).to_string()
}

/// `Uuid::parse_str`: the identifier a text denotes, if any. The accepted
/// forms (hyphenated, simple, braced, URN) are left to the named result.
#[verifier::external_body]
pub(crate) fn parse_id(s: &str) -> (r: Option<u128>)
    ensures
        r == parsed_id(s@),
{
    uuid::Uuid::parse_str(s).ok().map(|u| u.as_u128())
}

/// `Uuid::new_v4`: a fresh random identifier. Nothing is promised of its
/// value.
#[verifier::external_body]
pub(crate) fn new_random_id() -> u128 {
    uuid::Uuid::new_v4().as_u128()
}

// ----- distinct identifiers are written differently -----

proof fn lemma_hex_char_code(d: int)
    requires
        0 <= d < 16,
    ensures
        hex_char(d) as int == if d < 10 {
            d + 48
        } else {
            d + 87
        },
{
}

proof fn lemma_quotients_agree(a: u128, b: u128, j: int)
    requires
        0 <= j <= 32,
        forall|k: int|
            0 <= k < 32 ==> #[trigger] ((a as int / pow2((4 * (31 - k)) as nat) as int) % 16) == (
            b as int / pow2((4 * (31 - k)) as nat) as int) % 16,
    ensures
        a as int / pow2((4 * j) as nat) as int == b as int / pow2((4 * j) as nat) as int,
    decreases 32 - j,
{
    let e = (4 * j) as nat;
    lemma_pow2_pos(e);
    if j == 32 {
        lemma2_to64();
        lemma_pow2_adds(64, 64);
        assert(pow2(128) == 0x1_0000_0000_0000_0000_0000_0000_0000_0000);
        lemma_basic_div(a as int, pow2(128) as int);
        lemma_basic_div(b as int, pow2(128) as int);
    } else {
        lemma_quotients_agree(a, b, j + 1);
        lemma2_to64();
        lemma_pow2_adds(e, 4);
        assert(pow2((4 * (j + 1)) as nat) == pow2(e) * 16);
        lemma_div_denominator(a as int, pow2(e) as int, 16);
        lemma_div_denominator(b as int, pow2(e) as int, 16);
        let x = a as int / pow2(e) as int;
        let y = b as int / pow2(e) as int;
        lemma_fundamental_div_mod(x, 16);
        lemma_fundamental_div_mod(y, 16);
        let k = 31 - j;
        assert((4 * (31 - k)) as nat == e);
        assert(x % 16 == y % 16);
    }
}

/// Distinct identifiers have distinct hyphenated forms.
pub proof fn lemma_hyphenated_injective(a: u128, b: u128)
    requires
        hyphenated(a) == hyphenated(b),
    ensures
        a == b,
{
    let ha = hex_digits(a);
    let hb = hex_digits(b);
    assert forall|k: int| 0 <= k < 32 implies #[trigger] ha[k] == hb[k] by {
        let i = if k < 8 {
            k
        } else if k < 12 {
            k + 1
        } else if k < 16 {
            k + 2
        } else if k < 20 {
            k + 3
        } else {
            k + 4
        };
        assert(hyphenated(a)[i] == ha[k]);
        assert(hyphenated(b)[i] == hb[k]);
    }
    assert forall|k: int|
        0 <= k < 32 implies #[trigger] ((a as int / pow2((4 * (31 - k)) as nat) as int) % 16) == (
        b as int / pow2((4 * (31 - k)) as nat) as int) % 16 by {
        let e = (4 * (31 - k)) as nat;
        lemma_pow2_pos(e);
        let da = (a as int / pow2(e) as int) % 16;
        let db = (b as int / pow2(e) as int) % 16;
        assert(ha[k] == hex_char(da));
        assert(hb[k] == hex_char(db));
        lemma_hex_char_code(da);
        lemma_hex_char_code(db);
    }
    lemma_quotients_agree(a, b, 0);
    lemma2_to64();
    vstd::arithmetic::div_mod::lemma_div_basics(a as int);
    vstd::arithmetic::div_mod::lemma_div_basics(b as int);
}

} // verus!
