//! Identifiers: 128-bit numbers, written in hexadecimal.

use vstd::prelude::*;

verus! {

/// The lower-case hexadecimal digit of a number below sixteen.
pub open spec fn hex_digit(n: int) -> char {
    if n < 10 {
        (('0' as int) + n) as char
    } else {
        (('a' as int) + n - 10) as char
    }
}

/// The last `width` hexadecimal digits of a number.
pub open spec fn hex(n: int, width: nat) -> Seq<char>
    decreases width,
{
    if width == 0 {
        Seq::empty()
    } else {
        hex(n / 16, (width - 1) as nat).push(hex_digit(n % 16))
    }
}

/// An identifier as its thirty-two digits.
pub open spec fn simple_form(id: u128) -> Seq<char> {
    hex(id as int, 32)
}

/// An identifier as its digits in five groups.
pub open spec fn hyphenated_form(id: u128) -> Seq<char> {
    let digits = hex(id as int, 32);
    digits.subrange(0, 8) + seq!['-'] + digits.subrange(8, 12) + seq!['-'] + digits.subrange(12, 16)
        + seq!['-'] + digits.subrange(16, 20) + seq!['-'] + digits.subrange(20, 32)
}

/// The last `width` bytes of a number, the most significant first.
pub open spec fn big_endian(n: int, width: nat) -> Seq<u8>
    decreases width,
{
    if width == 0 {
        Seq::empty()
    } else {
        big_endian(n / 256, (width - 1) as nat).push((n % 256) as u8)
    }
}

/// Display of `uuid::Uuid::simple`: thirty-two lower-case hexadecimal digits.
#[verifier::external_body]
fn uuid_simple(id: u128) -> (r: String)
    ensures
        r@ == simple_form(id),
{
    uuid::Uuid::from_u128(id).simple().to_string()
}

/// An identifier as its thirty-two digits.
pub fn to_simple(id: u128) -> (r: String)
    ensures
        r@ == simple_form(id),
{
    uuid_simple(id)
}

/// Display of `uuid::Uuid`: lower-case hexadecimal digits in groups of eight, four,
/// four, four and twelve.
#[verifier::external_body]
fn uuid_display(id: u128) -> (r: String)
    ensures
        r@ == hyphenated_form(id),
{
    uuid::Uuid::from_u128(id).to_string()
}

/// An identifier as its digits in five groups.
pub fn to_hyphenated(id: u128) -> (r: String)
    ensures
        r@ == hyphenated_form(id),
{
    uuid_display(id)
}

fn hex_char(n: u8) -> (r: char)
    requires
        n < 16,
    ensures
        r == hex_digit(n as int),
{
    if n < 10 {
        (48 + n) as char
    } else {
        (87 + n) as char
    }
}

/// The last `width` hexadecimal digits of a number.
pub fn hex_text(n: u128, width: u8) -> (r: String)
    ensures
        r@ == hex(n as int, width as nat),
    decreases width,
{
    if width == 0 {
        String::new()
    } else {
        let mut digits = hex_text(n / 16, width - 1);
        digits.push(hex_char((n % 16) as u8));
        digits
    }
}

/// The bytes of an identifier.
pub fn to_bytes(id: u128) -> (r: Vec<u8>)
    ensures
        r@ == big_endian(id as int, 16),
{
    tail_bytes(id, 16)
}

fn tail_bytes(n: u128, width: u8) -> (r: Vec<u8>)
    ensures
        r@ == big_endian(n as int, width as nat),
    decreases width,
{
    if width == 0 {
        Vec::new()
    } else {
        let mut bytes = tail_bytes(n / 256, width - 1);
        bytes.push((n % 256) as u8);
        bytes
    }
}

/// The number that bytes denote, the most significant first.
pub open spec fn number_of(bytes: Seq<u8>) -> int
    decreases bytes.len(),
{
    if bytes.len() == 0 {
        0
    } else {
        number_of(bytes.drop_last()) * 256 + bytes.last()
    }
}

/// `uuid::Uuid::from_slice`: the identifier of sixteen bytes, and of no other number
/// of bytes.
#[verifier::external_body]
fn uuid_from_slice(bytes: &[u8]) -> (r: Option<u128>)
    ensures
        match r {
            Some(id) => bytes@.len() == 16 && id == number_of(bytes@),
            None => bytes@.len() != 16,
        },
{
    uuid::Uuid::from_slice(bytes).ok().map(|id| id.as_u128())
}

/// The identifier that sixteen bytes denote.
pub fn from_bytes(bytes: &[u8]) -> (r: Option<u128>)
    ensures
        match r {
            Some(id) => bytes@.len() == 16 && id == number_of(bytes@),
            None => bytes@.len() != 16,
        },
{
    uuid_from_slice(bytes)
}

/// The identifier that belongs to a name within a namespace.
pub uninterp spec fn named_id(namespace: u128, name: Seq<u8>) -> u128;

/// `uuid::Uuid::new_v5`: the identifier of a name within a namespace. Which one it
/// is, is named, not spelled out; it carries the version five in bits 76 to 79.
#[verifier::external_body]
fn uuid_v5(namespace: u128, name: &[u8]) -> (r: u128)
    ensures
        r == named_id(namespace, name@),
        (r as int / 0x1000_0000_0000_0000_0000) % 16 == 5,
{
    uuid::Uuid::new_v5(&uuid::Uuid::from_u128(namespace), name).as_u128()
}

/// The identifier that belongs to a name within a namespace. It is never among the
/// very largest.
pub fn id_of_name(namespace: u128, name: &[u8]) -> (r: u128)
    ensures
        r == named_id(namespace, name@),
        r < 0xffff_ffff_ffff_6000_0000_0000_0000_0000,
{
    uuid_v5(namespace, name)
}

/// `uuid::Uuid::new_v4`: some identifier, drawn by chance.
#[verifier::external_body]
pub(crate) fn random_id() -> (r: u128) {
    uuid::Uuid::new_v4().as_u128()
}

/// `sentry::protocol::SpanId::default`: some span, drawn by chance.
#[verifier::external_body]
pub(crate) fn random_span() -> (r: u64) {
    let digits = sentry::protocol::SpanId::default().to_string();
    u64::from_str_radix(&digits, 16).unwrap_or_default()
}

/// A number is told apart from others by its digits.
proof fn lemma_hex_tells_apart(a: int, b: int, width: nat)
    requires
        0 <= a,
        0 <= b,
        hex(a, width) == hex(b, width),
    ensures
        a % pow16(width) == b % pow16(width),
    decreases width,
{
    if width > 0 {
        let wa = hex(a / 16, (width - 1) as nat);
        let wb = hex(b / 16, (width - 1) as nat);
        assert(hex(a, width).drop_last() =~= wa);
        assert(hex(b, width).drop_last() =~= wb);
        assert(hex(a, width).last() == hex_digit(a % 16));
        assert(hex(b, width).last() == hex_digit(b % 16));
        assert(a % 16 == b % 16);
        lemma_hex_tells_apart(a / 16, b / 16, (width - 1) as nat);
        let p = pow16((width - 1) as nat);
        lemma_pow16_positive((width - 1) as nat);
        lemma_split(a, p);
        lemma_split(b, p);
    }
}

/// Sixteen to the power of `width`.
pub open spec fn pow16(width: nat) -> int
    decreases width,
{
    if width == 0 {
        1
    } else {
        16 * pow16((width - 1) as nat)
    }
}

proof fn lemma_pow16_positive(width: nat)
    ensures
        pow16(width) > 0,
    decreases width,
{
    if width > 0 {
        lemma_pow16_positive((width - 1) as nat);
    }
}

proof fn lemma_split(a: int, p: int)
    requires
        0 <= a,
        0 < p,
    ensures
        a % (16 * p) == 16 * ((a / 16) % p) + a % 16,
{
    vstd::arithmetic::div_mod::lemma_mod_breakdown(a, 16, p);
    assert(p * 16 == 16 * p) by (nonlinear_arith);
}

/// No two identifiers are written alike.
pub proof fn law_written_ids_are_unique(a: u128, b: u128)
    requires
        simple_form(a) == simple_form(b),
    ensures
        a == b,
{
    lemma_hex_tells_apart(a as int, b as int, 32);
    assert(pow16(32) == 0x1_0000_0000_0000_0000_0000_0000_0000_0000int) by {
        reveal_with_fuel(pow16, 33);
    }
}

/// The bytes of an identifier denote it.
pub proof fn law_bytes_denote_the_id(id: u128)
    ensures
        big_endian(id as int, 16).len() == 16,
        number_of(big_endian(id as int, 16)) == id,
{
    lemma_bytes_denote(id as int, 16);
    assert(pow256(16) == 0x1_0000_0000_0000_0000_0000_0000_0000_0000int) by {
        reveal_with_fuel(pow256, 17);
    }
}

/// Two hundred and fifty-six to the power of `width`.
pub open spec fn pow256(width: nat) -> int
    decreases width,
{
    if width == 0 {
        1
    } else {
        256 * pow256((width - 1) as nat)
    }
}

proof fn lemma_bytes_denote(n: int, width: nat)
    requires
        0 <= n < pow256(width),
    ensures
        big_endian(n, width).len() == width,
        number_of(big_endian(n, width)) == n,
    decreases width,
{
    if width > 0 {
        lemma_bytes_denote(n / 256, (width - 1) as nat);
        assert(big_endian(n, width).drop_last() =~= big_endian(n / 256, (width - 1) as nat));
    }
}

/// An identifier in groups has thirty-six characters, which are those of no other.
pub proof fn law_grouped_ids_are_unique(a: u128, b: u128)
    ensures
        hyphenated_form(a).len() == 36,
        hyphenated_form(a) == hyphenated_form(b) ==> a == b,
{
    lemma_hex_length(a as int, 32);
    lemma_hex_length(b as int, 32);
    let x = hyphenated_form(a);
    let y = hyphenated_form(b);
    if x == y {
        let p = simple_form(a);
        let q = simple_form(b);
        assert forall|i: int| 0 <= i < 32 implies p[i] == q[i] by {
            if i < 8 {
                assert(x[i] == p[i] && y[i] == q[i]);
            } else if i < 12 {
                assert(x[i + 1] == p[i] && y[i + 1] == q[i]);
            } else if i < 16 {
                assert(x[i + 2] == p[i] && y[i + 2] == q[i]);
            } else if i < 20 {
                assert(x[i + 3] == p[i] && y[i + 3] == q[i]);
            } else {
                assert(x[i + 4] == p[i] && y[i + 4] == q[i]);
            }
        }
        assert(p =~= q);
        law_written_ids_are_unique(a, b);
    }
}

proof fn lemma_hex_length(n: int, width: nat)
    ensures
        hex(n, width).len() == width,
    decreases width,
{
    if width > 0 {
        lemma_hex_length(n / 16, (width - 1) as nat);
    }
}

/// The identifier that bytes denote has those bytes.
pub proof fn law_ids_have_the_bytes_that_denote_them(bytes: Seq<u8>)
    ensures
        big_endian(number_of(bytes), bytes.len()) == bytes,
        0 <= number_of(bytes) < pow256(bytes.len()),
    decreases bytes.len(),
{
    if bytes.len() > 0 {
        let front = bytes.drop_last();
        law_ids_have_the_bytes_that_denote_them(front);
        assert(number_of(bytes) / 256 == number_of(front));
        assert(number_of(bytes) % 256 == bytes.last());
        assert(front.push(bytes.last()) =~= bytes);
    } else {
        assert(bytes =~= Seq::<u8>::empty());
    }
}

} // verus!
