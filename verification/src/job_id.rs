//! Job identifiers: UUIDs, held as the 128-bit numbers that they are.

use vstd::prelude::*;

verus! {

/// Whether an identifier is a random (version 4) UUID: its version digit is 4, and the two
/// bits of its variant are 1 and 0.
pub open spec fn is_random_uuid(id: u128) -> bool {
    (id >> 76) & 0xf == 4 && (id >> 62) & 0x3 == 2
}

/// Makes a fresh identifier.
///
/// Trusted: `uuid::Uuid::new_v4` returns a random UUID with the version and variant bits of
/// version 4. The other 122 bits come from the operating system's random numbers and are left
/// open; without a source of random numbers the call panics.
#[verifier::external_body]
pub(crate) fn new_id() -> (res: u128)
    ensures
        is_random_uuid(res),
{
    uuid::Uuid::new_v4().as_u128()
}

/// The lower-case character of a hexadecimal digit.
pub open spec fn hex_char(d: u128) -> char {
    if d < 10 {
        (48 + d) as char
    } else {
        (87 + d) as char
    }
}

/// The `k`-th of the 32 hexadecimal digits of an identifier, from the left.
pub open spec fn hex_digit(id: u128, k: int) -> u128 {
    (id >> ((4 * (31 - k)) as u128)) & 0xf
}

/// The text of an identifier: its 32 hexadecimal digits in lower case, in groups of 8, 4, 4,
/// 4 and 12 digits with a hyphen between the groups.
pub open spec fn id_text(id: u128) -> Seq<char> {
    Seq::new(
        36,
        |i: int|
            if i == 8 || i == 13 || i == 18 || i == 23 {
                '-'
            } else {
                let hyphens: int = if i < 8 { 0 } else if i < 13 { 1 } else if i < 18 { 2 } else if i < 23 { 3 } else { 4 };
                hex_char(hex_digit(id, i - hyphens))
            },
    )
}

/// Writes an identifier.
///
/// Trusted: `uuid::Uuid::from_u128` takes the number's bytes from the most significant on, and
/// `to_string` writes the UUID in lower case with hyphens.
#[verifier::external_body]
pub(crate) fn id_string(id: u128) -> (res: String)
    ensures
        res@ == id_text(id),
{
    uuid::Uuid::from_u128(id).to_string()
}

/// The text of an identifier has 36 characters: hyphens at four places, and lower-case
/// hexadecimal digits at the others.
pub proof fn law_id_text_form(id: u128, i: int)
    requires
        0 <= i < 36,
    ensures
        id_text(id).len() == 36,
        i == 8 || i == 13 || i == 18 || i == 23 <==> id_text(id)[i] == '-',
        id_text(id)[i] == '-' || '0' <= id_text(id)[i] <= '9' || 'a' <= id_text(id)[i] <= 'f',
{
    let k = i - (if i < 8 { 0int } else if i < 13 { 1 } else if i < 18 { 2 } else if i < 23 { 3 } else { 4 });
    let shift = (4 * (31 - k)) as u128;
    assert((id >> shift) & 0xf <= 15) by (bit_vector);
}

/// Different identifiers have different texts.
pub proof fn law_id_text_tells_apart(a: u128, b: u128)
    requires
        id_text(a) == id_text(b),
    ensures
        a == b,
{
    assert forall|k: int| 0 <= k < 32 implies #[trigger] hex_digit(a, k) == hex_digit(b, k) by {
        let i = k + (if k < 8 { 0int } else if k < 12 { 1 } else if k < 16 { 2 } else if k < 20 { 3 } else { 4 });
        assert(id_text(a)[i] == hex_char(hex_digit(a, k)));
        assert(id_text(b)[i] == hex_char(hex_digit(b, k)));
        let shift = (4 * (31 - k)) as u128;
        assert((a >> shift) & 0xf <= 15) by (bit_vector);
        assert((b >> shift) & 0xf <= 15) by (bit_vector);
    }
    lemma_digits_differ(a, b);
}

/// Numbers with the same 32 hexadecimal digits are the same.
proof fn lemma_digits_differ(a: u128, b: u128)
    requires
        forall|k: int| 0 <= k < 32 ==> #[trigger] hex_digit(a, k) == hex_digit(b, k),
    ensures
        a == b,
{
    assert(hex_digit(a, 0) == hex_digit(b, 0));
    assert(hex_digit(a, 1) == hex_digit(b, 1));
    assert(hex_digit(a, 2) == hex_digit(b, 2));
    assert(hex_digit(a, 3) == hex_digit(b, 3));
    assert(hex_digit(a, 4) == hex_digit(b, 4));
    assert(hex_digit(a, 5) == hex_digit(b, 5));
    assert(hex_digit(a, 6) == hex_digit(b, 6));
    assert(hex_digit(a, 7) == hex_digit(b, 7));
    assert(hex_digit(a, 8) == hex_digit(b, 8));
    assert(hex_digit(a, 9) == hex_digit(b, 9));
    assert(hex_digit(a, 10) == hex_digit(b, 10));
    assert(hex_digit(a, 11) == hex_digit(b, 11));
    assert(hex_digit(a, 12) == hex_digit(b, 12));
    assert(hex_digit(a, 13) == hex_digit(b, 13));
    assert(hex_digit(a, 14) == hex_digit(b, 14));
    assert(hex_digit(a, 15) == hex_digit(b, 15));
    assert(hex_digit(a, 16) == hex_digit(b, 16));
    assert(hex_digit(a, 17) == hex_digit(b, 17));
    assert(hex_digit(a, 18) == hex_digit(b, 18));
    assert(hex_digit(a, 19) == hex_digit(b, 19));
    assert(hex_digit(a, 20) == hex_digit(b, 20));
    assert(hex_digit(a, 21) == hex_digit(b, 21));
    assert(hex_digit(a, 22) == hex_digit(b, 22));
    assert(hex_digit(a, 23) == hex_digit(b, 23));
    assert(hex_digit(a, 24) == hex_digit(b, 24));
    assert(hex_digit(a, 25) == hex_digit(b, 25));
    assert(hex_digit(a, 26) == hex_digit(b, 26));
    assert(hex_digit(a, 27) == hex_digit(b, 27));
    assert(hex_digit(a, 28) == hex_digit(b, 28));
    assert(hex_digit(a, 29) == hex_digit(b, 29));
    assert(hex_digit(a, 30) == hex_digit(b, 30));
    assert(hex_digit(a, 31) == hex_digit(b, 31));
    assert(a == b) by (bit_vector)
        requires
            (a >> 124u128) & 0xf == (b >> 124u128) & 0xf,
            (a >> 120u128) & 0xf == (b >> 120u128) & 0xf,
            (a >> 116u128) & 0xf == (b >> 116u128) & 0xf,
            (a >> 112u128) & 0xf == (b >> 112u128) & 0xf,
            (a >> 108u128) & 0xf == (b >> 108u128) & 0xf,
            (a >> 104u128) & 0xf == (b >> 104u128) & 0xf,
            (a >> 100u128) & 0xf == (b >> 100u128) & 0xf,
            (a >> 96u128) & 0xf == (b >> 96u128) & 0xf,
            (a >> 92u128) & 0xf == (b >> 92u128) & 0xf,
            (a >> 88u128) & 0xf == (b >> 88u128) & 0xf,
            (a >> 84u128) & 0xf == (b >> 84u128) & 0xf,
            (a >> 80u128) & 0xf == (b >> 80u128) & 0xf,
            (a >> 76u128) & 0xf == (b >> 76u128) & 0xf,
            (a >> 72u128) & 0xf == (b >> 72u128) & 0xf,
            (a >> 68u128) & 0xf == (b >> 68u128) & 0xf,
            (a >> 64u128) & 0xf == (b >> 64u128) & 0xf,
            (a >> 60u128) & 0xf == (b >> 60u128) & 0xf,
            (a >> 56u128) & 0xf == (b >> 56u128) & 0xf,
            (a >> 52u128) & 0xf == (b >> 52u128) & 0xf,
            (a >> 48u128) & 0xf == (b >> 48u128) & 0xf,
            (a >> 44u128) & 0xf == (b >> 44u128) & 0xf,
            (a >> 40u128) & 0xf == (b >> 40u128) & 0xf,
            (a >> 36u128) & 0xf == (b >> 36u128) & 0xf,
            (a >> 32u128) & 0xf == (b >> 32u128) & 0xf,
            (a >> 28u128) & 0xf == (b >> 28u128) & 0xf,
            (a >> 24u128) & 0xf == (b >> 24u128) & 0xf,
            (a >> 20u128) & 0xf == (b >> 20u128) & 0xf,
            (a >> 16u128) & 0xf == (b >> 16u128) & 0xf,
            (a >> 12u128) & 0xf == (b >> 12u128) & 0xf,
            (a >> 8u128) & 0xf == (b >> 8u128) & 0xf,
            (a >> 4u128) & 0xf == (b >> 4u128) & 0xf,
            (a >> 0u128) & 0xf == (b >> 0u128) & 0xf,
    ;
}

/// An identifier is random exactly if its text shows it: the digit of the version is 4, and that
/// of the variant is one of 8, 9, a and b.
pub proof fn law_random_uuid_text(id: u128)
    ensures
        is_random_uuid(id) <==> id_text(id)[14] == '4' && (id_text(id)[19] == '8' || id_text(
            id,
        )[19] == '9' || id_text(id)[19] == 'a' || id_text(id)[19] == 'b'),
{
    let version = (id >> 76) & 0xf;
    let variant = (id >> 60) & 0xf;
    assert((id >> 76u128) & 0xf == (id >> 76) & 0xf) by (bit_vector);
    assert((id >> 60u128) & 0xf == (id >> 60) & 0xf) by (bit_vector);
    assert(hex_digit(id, 12) == version);
    assert(hex_digit(id, 16) == variant);
    assert(((id >> 62) & 0x3 == 2) == (8 <= (id >> 60) & 0xf && (id >> 60) & 0xf <= 11)) by (bit_vector);
    assert((id >> 76) & 0xf <= 15) by (bit_vector);
    assert((id >> 60) & 0xf <= 15) by (bit_vector);
}

} // verus!
