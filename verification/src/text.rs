//! Texts: building them, ordering them, and the numbers written in them.

use vstd::prelude::*;
use vstd::utf8::encode_utf8;

verus! {

/// `String::push` puts one character behind those that are there.
pub assume_specification[ String::push ](s: &mut String, ch: char)
    ensures
        final(s)@ == old(s)@.push(ch),
;

/// `a` comes before `b` in lexicographic order.
pub open spec fn bytes_before(a: Seq<u8>, b: Seq<u8>) -> bool
    decreases a.len(),
{
    if b.len() == 0 {
        false
    } else if a.len() == 0 {
        true
    } else {
        a[0] < b[0] || (a[0] == b[0] && bytes_before(a.skip(1), b.skip(1)))
    }
}

/// Texts are ordered by their UTF-8 bytes.
pub open spec fn text_before(a: Seq<char>, b: Seq<char>) -> bool {
    bytes_before(encode_utf8(a), encode_utf8(b))
}

/// Two byte strings agree up to a position, and there the first ends or has the smaller
/// byte.
pub open spec fn parts_at(a: Seq<u8>, b: Seq<u8>, k: int) -> bool {
    &&& 0 <= k <= a.len()
    &&& k < b.len()
    &&& forall|i: int| 0 <= i < k ==> a[i] == b[i]
    &&& k == a.len() || a[k] < b[k]
}

/// A byte string comes before another, as in a dictionary.
pub open spec fn comes_before(a: Seq<u8>, b: Seq<u8>) -> bool {
    exists|k: int| parts_at(a, b, k)
}

/// A text comes before another where its bytes do, as in a dictionary.
pub proof fn law_texts_are_ordered_by_bytes(a: Seq<char>, b: Seq<char>)
    ensures
        text_before(a, b) <==> comes_before(encode_utf8(a), encode_utf8(b)),
{
    lemma_bytes_before(encode_utf8(a), encode_utf8(b));
}

proof fn lemma_bytes_before(a: Seq<u8>, b: Seq<u8>)
    ensures
        bytes_before(a, b) <==> comes_before(a, b),
    decreases a.len(),
{
    if a.len() > 0 && b.len() > 0 {
        lemma_bytes_before(a.skip(1), b.skip(1));
        if a[0] == b[0] && comes_before(a.skip(1), b.skip(1)) {
            let k = choose|k: int| parts_at(a.skip(1), b.skip(1), k);
            assert forall|i: int| 0 <= i < k + 1 implies a[i] == b[i] by {
                if i > 0 {
                    assert(a.skip(1)[i - 1] == b.skip(1)[i - 1]);
                }
            }
            assert(parts_at(a, b, k + 1));
        }
        if a[0] < b[0] {
            assert(parts_at(a, b, 0));
        }
        if comes_before(a, b) {
            let k = choose|k: int| parts_at(a, b, k);
            if k > 0 {
                assert(a[0] == b[0]);
                assert(parts_at(a.skip(1), b.skip(1), k - 1));
            }
        }
    } else if b.len() > 0 {
        assert(parts_at(a, b, 0));
    }
}

/// Whether `a` comes before `b`.
pub fn text_lt(a: &str, b: &str) -> (r: bool)
    ensures
        r == text_before(a@, b@),
{
    let left = a.as_bytes();
    let right = b.as_bytes();
    let mut i: usize = 0;
    proof {
        assert(left@.skip(0) =~= left@);
        assert(right@.skip(0) =~= right@);
    }
    while i < left.len() && i < right.len() && left[i] == right[i]
        invariant
            i <= left.len(),
            i <= right.len(),
            left@ == encode_utf8(a@),
            right@ == encode_utf8(b@),
            text_before(a@, b@) == bytes_before(left@.skip(i as int), right@.skip(i as int)),
        decreases left.len() - i,
    {
        proof {
            assert(left@.skip(i as int).skip(1) =~= left@.skip(i + 1));
            assert(right@.skip(i as int).skip(1) =~= right@.skip(i + 1));
        }
        i = i + 1;
    }
    if i == right.len() {
        false
    } else if i == left.len() {
        true
    } else {
        left[i] < right[i]
    }
}

/// Whether two texts hold the same characters.
pub fn text_eq(a: &str, b: &str) -> (r: bool)
    ensures
        r == (a@ == b@),
{
    a.to_owned() == b.to_owned()
}

/// The texts one behind the other, with `separator` between neighbours.
pub open spec fn joined(parts: Seq<Seq<char>>, separator: Seq<char>) -> Seq<char>
    decreases parts.len(),
{
    if parts.len() == 0 {
        Seq::empty()
    } else if parts.len() == 1 {
        parts[0]
    } else {
        joined(parts.drop_last(), separator) + separator + parts.last()
    }
}

/// The characters of each text.
pub open spec fn chars_of(parts: Seq<String>) -> Seq<Seq<char>> {
    parts.map_values(|s: String| s@)
}

/// Joins the texts with `separator`.
pub fn join(parts: &Vec<String>, separator: &str) -> (r: String)
    ensures
        r@ == joined(chars_of(parts@), separator@),
{
    let mut out = String::new();
    let mut i: usize = 0;
    while i < parts.len()
        invariant
            i <= parts.len(),
            out@ == joined(chars_of(parts@).take(i as int), separator@),
        decreases parts.len() - i,
    {
        if i > 0 {
            out.append(separator);
        }
        out.append(parts[i].as_str());
        proof {
            let done = chars_of(parts@).take(i + 1);
            assert(done.drop_last() =~= chars_of(parts@).take(i as int));
            assert(done.last() == parts@[i as int]@);
        }
        i = i + 1;
    }
    proof {
        assert(chars_of(parts@).take(i as int) =~= chars_of(parts@));
    }
    out
}

/// The decimal digit of a number below ten.
pub open spec fn digit(n: int) -> char {
    (('0' as int) + n) as char
}

/// A number in decimal, without leading zeros.
pub open spec fn decimal(n: nat) -> Seq<char>
    decreases n,
{
    if n < 10 {
        seq![digit(n as int)]
    } else {
        decimal(n / 10).push(digit((n % 10) as int))
    }
}

/// A number in decimal.
pub fn decimal_of(n: u128) -> (r: String)
    ensures
        r@ == decimal(n as nat),
    decreases n,
{
    let last: u8 = 48 + (n % 10) as u8;
    let mut out = if n < 10 {
        String::new()
    } else {
        decimal_of(n / 10)
    };
    out.push(last as char);
    proof {
        assert(out@ =~= decimal(n as nat));
    }
    out
}

/// An integer in decimal, with a minus before it where it is negative.
pub open spec fn signed_decimal(n: int) -> Seq<char> {
    if n < 0 {
        seq!['-'] + decimal((-n) as nat)
    } else {
        decimal(n as nat)
    }
}

/// An integer in decimal.
pub fn signed_decimal_of(n: i64) -> (r: String)
    ensures
        r@ == signed_decimal(n as int),
{
    if n < 0 {
        let mut out = String::new();
        out.push('-');
        out.append(decimal_of((-(n as i128)) as u128).as_str());
        proof {
            assert(out@ =~= signed_decimal(n as int));
        }
        out
    } else {
        decimal_of(n as u128)
    }
}

/// Whether every character is a decimal digit, and there is at least one.
pub open spec fn all_digits(s: Seq<char>) -> bool {
    s.len() > 0 && forall|i: int| 0 <= i < s.len() ==> '0' <= #[trigger] s[i] && s[i] <= '9'
}

/// The number that a run of decimal digits denotes.
pub open spec fn digits_value(s: Seq<char>) -> int
    decreases s.len(),
{
    if s.len() == 0 {
        0
    } else {
        digits_value(s.drop_last()) * 10 + (s.last() as int - '0' as int)
    }
}

/// The integer that a text denotes: decimal digits behind an optional sign,
/// where a minus is read only if `signed`.
pub open spec fn integer_in(s: Seq<char>, signed: bool) -> Option<int> {
    if all_digits(s) {
        Some(digits_value(s))
    } else if s.len() > 0 && s[0] == '+' && all_digits(s.skip(1)) {
        Some(digits_value(s.skip(1)))
    } else if signed && s.len() > 0 && s[0] == '-' && all_digits(s.skip(1)) {
        Some(-digits_value(s.skip(1)))
    } else {
        None
    }
}

/// The `i64` that a text denotes, if it denotes one that fits.
pub open spec fn i64_in(s: Seq<char>) -> Option<int> {
    match integer_in(s, true) {
        Some(n) if i64::MIN <= n <= i64::MAX => Some(n),
        _ => None,
    }
}

/// The `u16` that a text denotes, if it denotes one that fits.
pub open spec fn u16_in(s: Seq<char>) -> Option<int> {
    match integer_in(s, false) {
        Some(n) if n <= u16::MAX => Some(n),
        _ => None,
    }
}

/// What `ParseIntError` says of a text that is no `i64`.
pub uninterp spec fn i64_fault(s: Seq<char>) -> Seq<char>;

/// `str::parse::<i64>`, which std documents as an optional sign followed by
/// decimal digits. The words of the error are named, not spelled out.
#[verifier::external_body]
pub(crate) fn parse_i64(s: &str) -> (r: Result<i64, String>)
    ensures
        match r {
            Ok(n) => i64_in(s@) == Some(n as int),
            Err(e) => i64_in(s@) is None && e@ == i64_fault(s@),
        },
{
    s.parse::<i64>().map_err(|e| e.to_string())
}

/// `str::parse::<u16>`, which std documents as an optional plus sign followed by
/// decimal digits.
#[verifier::external_body]
pub(crate) fn parse_u16(s: &str) -> (r: Option<u16>)
    ensures
        match r {
            Some(n) => u16_in(s@) == Some(n as int),
            None => u16_in(s@) is None,
        },
{
    s.parse::<u16>().ok()
}

/// The pieces of a text between the separators: one more than there are separators.
pub open spec fn pieces(s: Seq<char>, separator: char) -> Seq<Seq<char>>
    decreases s.len(),
{
    if s.len() == 0 {
        seq![Seq::empty()]
    } else {
        let rest = pieces(s.drop_last(), separator);
        if s.last() == separator {
            rest.push(Seq::empty())
        } else {
            rest.update(rest.len() - 1, rest.last().push(s.last()))
        }
    }
}

/// Splits a text at each separator.
pub fn split(s: &str, separator: char) -> (r: Vec<String>)
    ensures
        chars_of(r@) == pieces(s@, separator),
        r@.len() > 0,
{
    let n = s.unicode_len();
    let mut done: Vec<String> = Vec::new();
    let mut piece = String::new();
    let mut i: usize = 0;
    proof {
        assert(chars_of(done@).push(piece@) =~= pieces(s@.take(0), separator));
    }
    while i < n
        invariant
            n == s@.len(),
            i <= n,
            chars_of(done@).push(piece@) == pieces(s@.take(i as int), separator),
        decreases n - i,
    {
        let c = s.get_char(i);
        let ghost before = chars_of(done@);
        let ghost last = piece@;
        proof {
            assert(s@.take(i + 1).drop_last() =~= s@.take(i as int));
        }
        if c == separator {
            done.push(piece);
            piece = String::new();
            proof {
                assert(chars_of(done@) =~= before.push(last));
                assert(chars_of(done@).push(piece@) =~= pieces(s@.take(i + 1), separator));
            }
        } else {
            piece.push(c);
            proof {
                assert(chars_of(done@).push(piece@) =~= pieces(s@.take(i + 1), separator));
            }
        }
        i = i + 1;
    }
    let ghost before = chars_of(done@);
    let ghost last = piece@;
    done.push(piece);
    proof {
        assert(s@.take(i as int) =~= s@);
        assert(chars_of(done@) =~= before.push(last));
    }
    done
}

/// A character is white space, as Unicode has it.
pub open spec fn is_white_space(c: char) -> bool {
    ||| 0x9 <= c as u32 <= 0xd
    ||| c as u32 == 0x20
    ||| c as u32 == 0x85
    ||| c as u32 == 0xa0
    ||| c as u32 == 0x1680
    ||| 0x2000 <= c as u32 <= 0x200a
    ||| c as u32 == 0x2028
    ||| c as u32 == 0x2029
    ||| c as u32 == 0x202f
    ||| c as u32 == 0x205f
    ||| c as u32 == 0x3000
}

fn white_space(c: char) -> (r: bool)
    ensures
        r == is_white_space(c),
{
    let n: u32 = c as u32;
    (0x9 <= n && n <= 0xd) || n == 0x20 || n == 0x85 || n == 0xa0 || n == 0x1680 || (0x2000 <= n
        && n <= 0x200a) || n == 0x2028 || n == 0x2029 || n == 0x202f || n == 0x205f || n == 0x3000
}

/// A text without the white space at its ends.
pub open spec fn trimmed(s: Seq<char>) -> Seq<char>
    decreases s.len(),
{
    if s.len() == 0 {
        s
    } else if is_white_space(s[0]) {
        trimmed(s.skip(1))
    } else if is_white_space(s.last()) {
        trimmed(s.drop_last())
    } else {
        s
    }
}

/// A text without the white space at its ends.
pub fn trim(s: &str) -> (r: String)
    ensures
        r@ == trimmed(s@),
{
    let n = s.unicode_len();
    let mut from: usize = 0;
    let mut to: usize = n;
    proof {
        assert(s@.subrange(0, n as int) =~= s@);
    }
    while from < to && white_space(s.get_char(from))
        invariant
            from <= to,
            to == n,
            n == s@.len(),
            trimmed(s@) == trimmed(s@.subrange(from as int, to as int)),
        decreases to - from,
    {
        proof {
            assert(s@.subrange(from as int, to as int).skip(1) =~= s@.subrange(
                from + 1,
                to as int,
            ));
        }
        from = from + 1;
    }
    while from < to && white_space(s.get_char(to - 1))
        invariant
            from <= to <= n,
            n == s@.len(),
            from < to ==> !is_white_space(s@[from as int]),
            trimmed(s@) == trimmed(s@.subrange(from as int, to as int)),
        decreases to - from,
    {
        proof {
            assert(s@.subrange(from as int, to as int).drop_last() =~= s@.subrange(
                from as int,
                to - 1,
            ));
        }
        to = to - 1;
    }
    let mut out = String::new();
    let mut i: usize = from;
    while i < to
        invariant
            from <= i <= to <= n,
            n == s@.len(),
            out@ == s@.subrange(from as int, i as int),
        decreases to - i,
    {
        out.push(s.get_char(i));
        proof {
            assert(s@.subrange(from as int, i + 1) =~= s@.subrange(from as int, i as int).push(
                s@[i as int],
            ));
        }
        i = i + 1;
    }
    out
}

proof fn lemma_decimal_is_read_back(n: nat)
    ensures
        all_digits(decimal(n)),
        digits_value(decimal(n)) == n,
    decreases n,
{
    if n < 10 {
        let s = decimal(n);
        assert(s.drop_last() =~= Seq::<char>::empty());
        assert(s.last() == digit(n as int));
        reveal_with_fuel(digits_value, 2);
    } else {
        lemma_decimal_is_read_back(n / 10);
        let s = decimal(n);
        assert(s.drop_last() =~= decimal(n / 10));
        assert(s.last() == digit((n % 10) as int));
        assert forall|i: int| 0 <= i < s.len() implies '0' <= #[trigger] s[i] && s[i] <= '9' by {
            if i < s.len() - 1 {
                assert(s[i] == decimal(n / 10)[i]);
            }
        }
    }
}

/// An integer that is written in decimal is read back as itself.
pub proof fn law_written_integers_are_read_back(n: int)
    requires
        i64::MIN <= n <= i64::MAX,
    ensures
        i64_in(signed_decimal(n)) == Some(n),
{
    if n >= 0 {
        lemma_decimal_is_read_back(n as nat);
    } else {
        lemma_decimal_is_read_back((-n) as nat);
        let s = signed_decimal(n);
        assert(s.skip(1) =~= decimal((-n) as nat));
        assert(s[0] == '-');
    }
}

/// A number that is written in decimal is read back as itself, without a sign.
pub proof fn law_written_numbers_are_read_back(n: u16)
    ensures
        u16_in(decimal(n as nat)) == Some(n as int),
        forall|i: int| 0 <= i < decimal(n as nat).len() ==> #[trigger] decimal(n as nat)[i] != '-',
{
    lemma_decimal_is_read_back(n as nat);
}

/// The pieces of a text hold no separator, and joined by separators they are the text.
pub proof fn law_pieces_join_to_the_text(s: Seq<char>, separator: char)
    ensures
        pieces(s, separator).len() > 0,
        joined(pieces(s, separator), seq![separator]) == s,
        forall|k: int|
            0 <= k < pieces(s, separator).len() ==> !(#[trigger] pieces(s, separator)[k]).contains(
                separator,
            ),
    decreases s.len(),
{
    if s.len() > 0 {
        let shorter = s.drop_last();
        law_pieces_join_to_the_text(shorter, separator);
        let rest = pieces(shorter, separator);
        let all = pieces(s, separator);
        if s.last() == separator {
            assert(all.drop_last() =~= rest);
            assert(joined(all, seq![separator]) =~= joined(rest, seq![separator]) + seq![separator]
                + Seq::<char>::empty());
            assert(s =~= shorter + seq![separator]);
        } else {
            let last = rest.last().push(s.last());
            assert(all.drop_last() =~= rest.drop_last());
            assert(all.last() == last);
            if rest.len() == 1 {
                assert(all[0] == last);
                assert(s =~= shorter.push(s.last()));
            } else {
                assert(joined(all, seq![separator]) =~= joined(rest, seq![separator]).push(
                    s.last(),
                ));
                assert(s =~= shorter.push(s.last()));
            }
            assert forall|k: int| 0 <= k < all.len() implies !(#[trigger] all[k]).contains(
                separator,
            ) by {
                if k == all.len() - 1 {
                    assert(!rest[k].contains(separator));
                    if all[k].contains(separator) {
                        let i = all[k].index_of(separator);
                        assert(rest[k][i] == separator);
                    }
                } else {
                    assert(all[k] == rest[k]);
                }
            }
        }
    } else {
        assert(joined(pieces(s, separator), seq![separator]) =~= s);
    }
}

/// What stands behind the last separator of a text is its last piece.
pub proof fn law_the_last_piece_follows_the_last_separator(
    front: Seq<char>,
    tail: Seq<char>,
    separator: char,
)
    requires
        !tail.contains(separator),
    ensures
        pieces(front.push(separator) + tail, separator).last() == tail,
    decreases tail.len(),
{
    let s = front.push(separator) + tail;
    if tail.len() == 0 {
        assert(s =~= front.push(separator));
        assert(s.drop_last() =~= front);
        assert(pieces(s, separator).last() =~= tail);
    } else {
        let shorter = tail.drop_last();
        assert(tail[tail.len() - 1] == tail.last());
        assert(!shorter.contains(separator)) by {
            if shorter.contains(separator) {
                let i = shorter.index_of(separator);
                assert(tail[i] == separator);
            }
        }
        law_the_last_piece_follows_the_last_separator(front, shorter, separator);
        assert(s.drop_last() =~= front.push(separator) + shorter);
        assert(s.last() == tail.last());
        law_pieces_join_to_the_text(s.drop_last(), separator);
        assert(pieces(s, separator).last() =~= shorter.push(tail.last()));
        assert(shorter.push(tail.last()) =~= tail);
    }
}

/// A text is trimmed to the part between two places: there is only white space outside,
/// and none at the two ends of the part.
pub open spec fn trims_to(s: Seq<char>, from: int, to: int) -> bool {
    &&& 0 <= from <= to <= s.len()
    &&& trimmed(s) == s.subrange(from, to)
    &&& forall|k: int| 0 <= k < from ==> is_white_space(#[trigger] s[k])
    &&& forall|k: int| to <= k < s.len() ==> is_white_space(#[trigger] s[k])
    &&& from < to ==> !is_white_space(s[from]) && !is_white_space(s[to - 1])
}

/// Trimming takes white space away from the two ends, all of it and nothing else.
pub proof fn law_trimming_takes_white_space_off_the_ends(s: Seq<char>)
    ensures
        exists|from: int, to: int| trims_to(s, from, to),
    decreases s.len(),
{
    if s.len() == 0 {
        assert(s.subrange(0, 0) =~= s);
        assert(trims_to(s, 0, 0));
    } else if is_white_space(s[0]) {
        law_trimming_takes_white_space_off_the_ends(s.skip(1));
        let (from, to) = choose|from: int, to: int| trims_to(s.skip(1), from, to);
        lemma_trims_in_front(s, from, to);
    } else if is_white_space(s.last()) {
        law_trimming_takes_white_space_off_the_ends(s.drop_last());
        let (from, to) = choose|from: int, to: int| trims_to(s.drop_last(), from, to);
        lemma_trims_behind(s, from, to);
    } else {
        assert(s.subrange(0, s.len() as int) =~= s);
        assert(trims_to(s, 0, s.len() as int));
    }
}

#[verifier::spinoff_prover]
proof fn lemma_trims_in_front(s: Seq<char>, from: int, to: int)
    requires
        s.len() > 0,
        is_white_space(s[0]),
        trims_to(s.skip(1), from, to),
    ensures
        trims_to(s, from + 1, to + 1),
{
    let rest = s.skip(1);
    assert(trimmed(s) == trimmed(rest));
    assert(s.subrange(from + 1, to + 1) =~= rest.subrange(from, to));
    if from < to {
        assert(rest[from] == s[from + 1] && rest[to - 1] == s[to]);
    }
    assert forall|k: int| 0 <= k < from + 1 implies is_white_space(#[trigger] s[k]) by {
        if k > 0 {
            assert(is_white_space(rest[k - 1]));
        }
    }
    assert forall|k: int| to + 1 <= k < s.len() implies is_white_space(#[trigger] s[k]) by {
        assert(is_white_space(rest[k - 1]));
    }
}

#[verifier::spinoff_prover]
proof fn lemma_trims_behind(s: Seq<char>, from: int, to: int)
    requires
        s.len() > 0,
        !is_white_space(s[0]),
        is_white_space(s.last()),
        trims_to(s.drop_last(), from, to),
    ensures
        trims_to(s, from, to),
{
    let rest = s.drop_last();
    assert(trimmed(s) == trimmed(rest));
    assert(s.subrange(from, to) =~= rest.subrange(from, to));
    if from < to {
        assert(rest[from] == s[from] && rest[to - 1] == s[to - 1]);
    }
    assert forall|k: int| 0 <= k < from implies is_white_space(#[trigger] s[k]) by {
        assert(is_white_space(rest[k]));
    }
    assert forall|k: int| to <= k < s.len() implies is_white_space(#[trigger] s[k]) by {
        if k < rest.len() {
            assert(is_white_space(rest[k]));
        }
    }
}

/// White space, as far as it can be typed: the blank, the tabs and the ends of lines and
/// pages.
pub proof fn law_white_space_among_the_first_characters(c: char)
    requires
        (c as u32) < 128,
    ensures
        is_white_space(c) <==> c == ' ' || c == '\t' || c == '\n' || c == '\r' || c == '\u{b}' || c
            == '\u{c}',
{
}

/// A sign before digits is read: a plus changes nothing, and a minus turns the number
/// round where one is allowed.
pub proof fn law_signs_are_read(digits: Seq<char>, signed: bool)
    requires
        all_digits(digits),
    ensures
        integer_in(seq!['+'] + digits, signed) == integer_in(digits, signed),
        integer_in(seq!['-'] + digits, true) == Some(-(integer_in(digits, true)->0)),
        integer_in(seq!['-'] + digits, false) is None,
        integer_in(seq!['0'] + digits, signed) == integer_in(digits, signed),
{
    let plus = seq!['+'] + digits;
    let minus = seq!['-'] + digits;
    let zero = seq!['0'] + digits;
    assert(plus[0] == '+');
    assert(minus[0] == '-');
    assert(plus.skip(1) =~= digits);
    assert(minus.skip(1) =~= digits);
    assert forall|i: int| 0 <= i < zero.len() implies '0' <= #[trigger] zero[i] && zero[i]
        <= '9' by {
        if i > 0 {
            assert(zero[i] == digits[i - 1]);
        }
    }
    lemma_leading_zero(digits);
}

proof fn lemma_leading_zero(digits: Seq<char>)
    ensures
        digits_value(seq!['0'] + digits) == digits_value(digits),
    decreases digits.len(),
{
    let zero = seq!['0'] + digits;
    if digits.len() == 0 {
        assert(zero.drop_last() =~= Seq::<char>::empty());
        reveal_with_fuel(digits_value, 2);
    } else {
        lemma_leading_zero(digits.drop_last());
        assert(zero.drop_last() =~= seq!['0'] + digits.drop_last());
    }
}

/// A number that is too large for its kind is not read.
pub proof fn law_numbers_have_limits(n: int, m: nat)
    requires
        n < i64::MIN || i64::MAX < n,
        u16::MAX < m,
    ensures
        i64_in(signed_decimal(n)) is None,
        u16_in(decimal(m)) is None,
{
    lemma_decimal_is_read_back(m);
    if n >= 0 {
        lemma_decimal_is_read_back(n as nat);
    } else {
        lemma_decimal_is_read_back((-n) as nat);
        let s = signed_decimal(n);
        assert(s.skip(1) =~= decimal((-n) as nat));
        assert(s[0] == '-');
    }
}

} // verus!
