//! Building text: decimal and hexadecimal numerals, concatenation,
//! shortening, and the conversions from bytes that the rest of the
//! library renders with.

use vstd::prelude::*;
use vstd::utf8::*;

verus! {

broadcast use vstd::utf8::group_utf8_lib;

// ---------------------------------------------------------------------------
// Outside functions
// ---------------------------------------------------------------------------

/// `String::push` appends one character.
pub assume_specification[ std::string::String::push ](s: &mut std::string::String, c: char)
    ensures
        final(s)@ == old(s)@.push(c),
;

/// Wraps `String::from_utf8`: bytes that are valid UTF-8 become the string
/// with exactly that encoding, anything else is refused.
#[verifier::external_body]
pub(crate) fn utf8_text(bytes: &[u8]) -> (r: Option<String>)
    ensures
        r is Some <==> valid_utf8(bytes@),
        r matches Some(s) ==> s@ == decode_utf8(bytes@),
{
    String::from_utf8(bytes.to_vec()).ok()
}

/// Whether a character has Unicode's property `White_Space`.
pub open spec fn is_white(c: char) -> bool {
    let n = c as int;
    ||| 0x09 <= n <= 0x0d || n == 0x20 || n == 0x85 || n == 0xa0
    ||| n == 0x1680 || 0x2000 <= n <= 0x200a || n == 0x2028 || n == 0x2029
    ||| n == 0x202f || n == 0x205f || n == 0x3000
}

/// A text without the white space at both ends.
pub open spec fn trimmed_of(s: Seq<char>) -> Seq<char>
    decreases s.len(),
{
    if s.len() == 0 {
        s
    } else if is_white(s[0]) {
        trimmed_of(s.skip(1))
    } else if is_white(s.last()) {
        trimmed_of(s.drop_last())
    } else {
        s
    }
}

/// Calls `str::trim`, which removes the characters with Unicode's property
/// `White_Space` from both ends.
#[verifier::external_body]
pub(crate) fn trimmed(s: &str) -> (r: String)
    ensures
        r@ == trimmed_of(s@),
{
    s.trim().to_string()
}

/// The `Debug` form of a text: quoted, with escapes.
pub uninterp spec fn quoted_of(s: Seq<char>) -> Seq<char>;

/// Formats a text with `Debug`.
#[verifier::external_body]
pub(crate) fn quoted(s: &str) -> (r: String)
    ensures
        r@ == quoted_of(s@),
{
    format!("{s:?}")
}

/// The number that a row of decimal digits spells, with leading zeros or
/// without; nothing where the text is empty or holds anything else.
pub open spec fn parsed_digits(s: Seq<char>) -> Option<nat>
    decreases s.len(),
{
    if s.len() == 0 {
        None
    } else {
        let d = s.last() as int - 48;
        if d < 0 || d > 9 {
            None
        } else if s.len() == 1 {
            Some(d as nat)
        } else {
            match parsed_digits(s.drop_last()) {
                Some(n) => Some(n * 10 + d as nat),
                None => None,
            }
        }
    }
}

/// The number that a numeral with an optional `+` spells.
pub open spec fn parsed_nat(s: Seq<char>) -> Option<nat> {
    if s.len() > 0 && s[0] == '+' {
        parsed_digits(s.skip(1))
    } else {
        parsed_digits(s)
    }
}

/// The number that a numeral with an optional `+` or `-` spells.
pub open spec fn parsed_int(s: Seq<char>) -> Option<int> {
    if s.len() > 0 && s[0] == '-' {
        match parsed_digits(s.skip(1)) {
            Some(n) => Some(-(n as int)),
            None => None,
        }
    } else {
        match parsed_nat(s) {
            Some(n) => Some(n as int),
            None => None,
        }
    }
}

/// The message with which `str::parse::<u64>` refuses a text.
pub uninterp spec fn u64_parse_error_of(s: Seq<char>) -> Seq<char>;

/// The message with which `str::parse::<i64>` refuses a text.
pub uninterp spec fn i64_parse_error_of(s: Seq<char>) -> Seq<char>;

/// The message with which `str::parse::<i128>` refuses a text.
pub uninterp spec fn i128_parse_error_of(s: Seq<char>) -> Seq<char>;

/// Calls `str::parse::<u64>`: a numeral in range is read, anything else is
/// refused.
#[verifier::external_body]
pub(crate) fn parse_u64(s: &str) -> (r: Result<u64, String>)
    ensures
        (match r {
            Ok(n) => parsed_nat(s@) == Some(n as nat),
            Err(e) => !(parsed_nat(s@) matches Some(n) && n <= u64::MAX) && e@ == u64_parse_error_of(s@),
        }),
{
    s.parse::<u64>().map_err(|e| e.to_string())
}

/// Calls `str::parse::<i64>`: a numeral in range is read, anything else is
/// refused.
#[verifier::external_body]
pub(crate) fn parse_i64(s: &str) -> (r: Result<i64, String>)
    ensures
        (match r {
            Ok(n) => parsed_int(s@) == Some(n as int),
            Err(e) => !(parsed_int(s@) matches Some(n) && i64::MIN <= n <= i64::MAX) && e@
                == i64_parse_error_of(s@),
        }),
{
    s.parse::<i64>().map_err(|e| e.to_string())
}

/// Calls `str::parse::<i128>`: a numeral in range is read, anything else is
/// refused.
#[verifier::external_body]
pub(crate) fn parse_i128(s: &str) -> (r: Result<i128, String>)
    ensures
        (match r {
            Ok(n) => parsed_int(s@) == Some(n as int),
            Err(e) => !(parsed_int(s@) matches Some(n) && i128::MIN <= n <= i128::MAX) && e@
                == i128_parse_error_of(s@),
        }),
{
    s.parse::<i128>().map_err(|e| e.to_string())
}

// ---------------------------------------------------------------------------
// Numerals
// ---------------------------------------------------------------------------

/// The character of a decimal digit.
pub open spec fn digit_char(d: nat) -> char {
    (48 + d) as char
}

/// The decimal numeral of a natural number, without leading zeros.
pub open spec fn decimal_nat(n: nat) -> Seq<char>
    decreases n,
{
    if n < 10 {
        seq![digit_char(n)]
    } else {
        decimal_nat(n / 10).push(digit_char(n % 10))
    }
}

/// The decimal numeral of an integer, with a leading `-` below zero.
pub open spec fn decimal(i: int) -> Seq<char> {
    if i < 0 {
        seq!['-'] + decimal_nat((-i) as nat)
    } else {
        decimal_nat(i as nat)
    }
}

/// Append the decimal numeral of `n`.
fn push_decimal(out: &mut String, n: u128)
    ensures
        final(out)@ == old(out)@ + decimal_nat(n as nat),
    decreases n,
{
    if n >= 10 {
        push_decimal(out, n / 10);
    }
    let d: u8 = (n % 10) as u8;
    out.push((48 + d) as char);
    assert(out@ =~= old(out)@ + decimal_nat(n as nat));
}

/// The decimal numeral of an unsigned number.
pub fn u128_text(n: u128) -> (r: String)
    ensures
        r@ == decimal(n as int),
{
    let mut s = String::new();
    push_decimal(&mut s, n);
    assert(s@ =~= decimal(n as int));
    s
}

/// The decimal numeral of a signed number.
pub fn i128_text(n: i128) -> (r: String)
    ensures
        r@ == decimal(n as int),
{
    let mut s = String::new();
    if n >= 0 {
        push_decimal(&mut s, n as u128);
    } else {
        s.push('-');
        // The magnitude of the smallest value has no positive counterpart.
        let m: u128 = (-(n + 1)) as u128 + 1;
        push_decimal(&mut s, m);
    }
    assert(s@ =~= decimal(n as int));
    s
}

/// The decimal numeral of a `u64`.
pub fn u64_text(n: u64) -> (r: String)
    ensures
        r@ == decimal(n as int),
{
    u128_text(n as u128)
}

/// The decimal numeral of a `u32`.
pub fn u32_text(n: u32) -> (r: String)
    ensures
        r@ == decimal(n as int),
{
    u128_text(n as u128)
}

/// The decimal numeral of a length.
pub fn usize_text(n: usize) -> (r: String)
    ensures
        r@ == decimal(n as int),
{
    u128_text(n as u128)
}

/// The decimal numeral of an `i64`.
pub fn i64_text(n: i64) -> (r: String)
    ensures
        r@ == decimal(n as int),
{
    i128_text(n as i128)
}

// ---------------------------------------------------------------------------
// Hexadecimal
// ---------------------------------------------------------------------------

/// The lower-case hexadecimal digit of a value below 16.
pub open spec fn hex_digit(d: int) -> char {
    if d < 10 {
        (48 + d) as char
    } else {
        (87 + d) as char
    }
}

/// Two lower-case hexadecimal digits for each byte, high nibble first.
pub open spec fn hex(bytes: Seq<u8>) -> Seq<char> {
    Seq::new(
        2 * bytes.len(),
        |i: int|
            if i % 2 == 0 {
                hex_digit(bytes[i / 2] as int / 16)
            } else {
                hex_digit(bytes[i / 2] as int % 16)
            },
    )
}

fn hex_digit_char(d: u8) -> (c: char)
    requires
        d < 16,
    ensures
        c == hex_digit(d as int),
{
    if d < 10 {
        (48 + d) as char
    } else {
        (87 + d) as char
    }
}

/// Lower-case hexadecimal of a byte string.
pub fn hex_encode(bytes: &[u8]) -> (r: String)
    ensures
        r@ == hex(bytes@),
{
    let mut s = String::new();
    let mut i: usize = 0;
    while i < bytes.len()
        invariant
            i <= bytes@.len(),
            s@ == hex(bytes@.take(i as int)),
        decreases bytes.len() - i,
    {
        let b: u8 = bytes[i];
        s.push(hex_digit_char(b / 16));
        s.push(hex_digit_char(b % 16));
        i = i + 1;
        assert(s@ =~= hex(bytes@.take(i as int)));
    }
    assert(bytes@.take(i as int) =~= bytes@);
    s
}

// ---------------------------------------------------------------------------
// Concatenation
// ---------------------------------------------------------------------------

/// `a` followed by `b`.
pub fn join2(a: &str, b: &str) -> (r: String)
    ensures
        r@ == a@ + b@,
{
    let mut s = a.to_owned();
    s.append(b);
    s
}

/// `a`, `b` and `c` in a row.
pub fn join3(a: &str, b: &str, c: &str) -> (r: String)
    ensures
        r@ == a@ + b@ + c@,
{
    let mut s = join2(a, b);
    s.append(c);
    s
}

/// Four pieces in a row.
pub fn join4(a: &str, b: &str, c: &str, d: &str) -> (r: String)
    ensures
        r@ == a@ + b@ + c@ + d@,
{
    let mut s = join3(a, b, c);
    s.append(d);
    s
}

/// Five pieces in a row.
pub fn join5(a: &str, b: &str, c: &str, d: &str, e: &str) -> (r: String)
    ensures
        r@ == a@ + b@ + c@ + d@ + e@,
{
    let mut s = join4(a, b, c, d);
    s.append(e);
    s
}

/// Whether two texts are the same.
pub fn same_text(a: &str, b: &str) -> (r: bool)
    ensures
        r == (a@ == b@),
{
    a.to_owned() == b.to_owned()
}

/// The pieces one after another, with `sep` between neighbours.
pub open spec fn joined(parts: Seq<Seq<char>>, sep: Seq<char>) -> Seq<char>
    decreases parts.len(),
{
    if parts.len() == 0 {
        Seq::empty()
    } else if parts.len() == 1 {
        parts[0]
    } else {
        joined(parts.drop_last(), sep) + sep + parts.last()
    }
}

// ---------------------------------------------------------------------------
// Shortening
// ---------------------------------------------------------------------------

/// Where a long text can be cut: its first four and its last four bytes end
/// and begin at character boundaries. Texts of at most twelve bytes are never
/// cut.
pub open spec fn can_shorten(s: Seq<char>) -> bool {
    let b = encode_utf8(s);
    b.len() > 12 ==> is_char_boundary(b, 4) && is_char_boundary(b, b.len() - 4)
}

/// A text of at most twelve bytes as it is; a longer one as its first four
/// bytes, the mark, and its last four bytes.
pub open spec fn shortened(s: Seq<char>, mark: Seq<char>) -> Seq<char> {
    let b = encode_utf8(s);
    if b.len() <= 12 {
        s
    } else {
        decode_utf8(b.subrange(0, 4)) + mark + decode_utf8(b.subrange(b.len() - 4, b.len() as int))
    }
}

/// Collapse the middle of a long text.
pub fn shorten(s: &str, mark: &str) -> (r: String)
    requires
        can_shorten(s@),
    ensures
        r@ == shortened(s@, mark@),
{
    let ghost b = encode_utf8(s@);
    let n: usize = s.as_bytes().len();
    if n <= 12 {
        s.to_owned()
    } else {
        let (head, _rest) = s.split_at(4);
        let (_front, tail) = s.split_at(n - 4);
        assert(decode_utf8(encode_utf8(head@)) == head@);
        assert(decode_utf8(encode_utf8(tail@)) == tail@);
        assert(encode_utf8(head@) =~= b.subrange(0, 4));
        assert(encode_utf8(tail@) =~= b.subrange(b.len() - 4, b.len() as int));
        join3(head, mark, tail)
    }
}

/// A text of ASCII characters can be cut anywhere, and its bytes are its
/// characters: shortening keeps four characters at each end.
pub proof fn lemma_shortened_ascii(s: Seq<char>, mark: Seq<char>)
    requires
        is_ascii_chars(s),
    ensures
        can_shorten(s),
        shortened(s, mark) == (if s.len() <= 12 {
            s
        } else {
            s.take(4) + mark + s.skip(s.len() - 4)
        }),
{
    is_ascii_chars_encode_utf8(s);
    let b = encode_utf8(s);
    assert(b.len() == s.len());
    if s.len() > 12 {
        is_ascii_chars_encode_utf8(s.take(4));
        is_ascii_chars_encode_utf8(s.skip(s.len() - 4));
        assert(encode_utf8(s.take(4)) =~= b.subrange(0, 4));
        assert(encode_utf8(s.skip(s.len() - 4)) =~= b.subrange(b.len() - 4, b.len() as int));
        encode_utf8_valid_utf8(s);
        assert(!is_continuation_byte(b[4])) by {
            assert(b[4] == s[4] as u8);
        }
        assert(!is_continuation_byte(b[b.len() - 4])) by {
            assert(b[b.len() - 4] == s[s.len() - 4] as u8);
        }
        is_char_boundary_iff_not_is_continuation_byte(b, 4);
        is_char_boundary_iff_not_is_continuation_byte(b, b.len() - 4);
        encode_utf8_decode_utf8(s.take(4));
        encode_utf8_decode_utf8(s.skip(s.len() - 4));
    }
}

/// A number is read back from its decimal text.
pub proof fn law_decimals_read_back(i: int)
    ensures
        parsed_int(decimal(i)) == Some(i),
        i >= 0 ==> parsed_nat(decimal(i)) == Some(i as nat),
{
    if i < 0 {
        lemma_digits_read_back((-i) as nat);
        assert(decimal(i).skip(1) =~= decimal_nat((-i) as nat));
    } else {
        lemma_digits_read_back(i as nat);
    }
}

/// Different numbers have different decimal texts.
pub proof fn law_decimals_differ(i: int, j: int)
    requires
        decimal(i) == decimal(j),
    ensures
        i == j,
{
    law_decimals_read_back(i);
    law_decimals_read_back(j);
}

proof fn lemma_digits_read_back(n: nat)
    ensures
        parsed_digits(decimal_nat(n)) == Some(n),
        decimal_nat(n).len() > 0,
        48 <= decimal_nat(n)[0] as int <= 57,
    decreases n,
{
    if n >= 10 {
        lemma_digits_read_back(n / 10);
        let s = decimal_nat(n);
        assert(s.drop_last() =~= decimal_nat(n / 10));
        assert(s.last() == digit_char(n % 10));
        assert(s[0] == decimal_nat(n / 10)[0]);
    }
}

/// A text is read as a number where it is made of digits and nothing else,
/// after at most one sign.
pub proof fn law_numbers_are_made_of_digits(s: Seq<char>)
    ensures
        parsed_digits(s) is Some <==> s.len() > 0 && forall|i: int|
            0 <= i < s.len() ==> '0' <= #[trigger] s[i] <= '9',
        parsed_int(s) is Some ==> s.len() > 0 && forall|i: int|
            1 <= i < s.len() ==> '0' <= #[trigger] s[i] <= '9',
        s.len() > 0 && s[0] == '-' ==> (parsed_int(s) matches Some(n) ==> n <= 0),
        s.len() > 0 && s[0] != '-' ==> (parsed_int(s) matches Some(n) ==> n >= 0),
    decreases s.len(),
{
    lemma_digits_only(s);
    if s.len() > 0 {
        lemma_digits_only(s.skip(1));
        if parsed_int(s) is Some {
            if s[0] == '-' || s[0] == '+' {
                assert forall|i: int| 1 <= i < s.len() implies '0' <= #[trigger] s[i] <= '9' by {
                    assert(s.skip(1)[i - 1] == s[i]);
                }
            }
        }
    }
}

proof fn lemma_digits_only(s: Seq<char>)
    ensures
        parsed_digits(s) is Some <==> s.len() > 0 && forall|i: int|
            0 <= i < s.len() ==> '0' <= #[trigger] s[i] <= '9',
    decreases s.len(),
{
    if s.len() > 1 {
        let rest = s.drop_last();
        lemma_digits_only(rest);
        if parsed_digits(s) is Some {
            assert forall|i: int| 0 <= i < s.len() implies '0' <= #[trigger] s[i] <= '9' by {
                if i < rest.len() {
                    assert(rest[i] == s[i]);
                } else {
                    assert(s[i] == s.last());
                }
            }
        } else if forall|i: int| 0 <= i < s.len() ==> '0' <= #[trigger] s[i] <= '9' {
            assert(s.last() == s[s.len() - 1]);
            assert forall|i: int| 0 <= i < rest.len() implies '0' <= #[trigger] rest[i] <= '9' by {
                assert(rest[i] == s[i]);
            }
        }
    } else if s.len() == 1 {
        assert(s.last() == s[0]);
    }
}

/// Appending a digit to a number multiplies it by ten and adds the digit.
pub proof fn law_digits_count_in_tens(s: Seq<char>, d: nat)
    requires
        d <= 9,
        parsed_digits(s) is Some,
    ensures
        parsed_digits(s.push((48 + d) as char)) == Some(parsed_digits(s)->0 * 10 + d),
{
    let t = s.push((48 + d) as char);
    assert(t.drop_last() =~= s);
    assert(t.last() as int == 48 + d);
    assert(s.len() > 0);
}

/// Trimming takes away white space at both ends and nothing else.
pub proof fn law_trimming_takes_white_space(s: Seq<char>)
    ensures
        trimmed_of(s).len() > 0 ==> !is_white(trimmed_of(s)[0]) && !is_white(trimmed_of(s).last()),
        exists|i: int, j: int| #[trigger] trims(s, i, j),
        trimmed_of(trimmed_of(s)) == trimmed_of(s),
{
    lemma_trimmed_ends(s);
    let (i, j) = lemma_trimmed_part(s);
}

proof fn lemma_trimmed_ends(s: Seq<char>)
    ensures
        trimmed_of(s).len() > 0 ==> !is_white(trimmed_of(s)[0]) && !is_white(trimmed_of(s).last()),
    decreases s.len(),
{
    if s.len() > 0 {
        if is_white(s[0]) {
            lemma_trimmed_ends(s.skip(1));
        } else if is_white(s.last()) {
            lemma_trimmed_ends(s.drop_last());
        }
    }
}

proof fn lemma_trimmed_part(s: Seq<char>) -> (r: (int, int))
    ensures
        trims(s, r.0, r.1),
    decreases s.len(),
{
    if s.len() == 0 {
        assert(s.subrange(0, 0) =~= s);
        (0, 0)
    } else if is_white(s[0]) {
        let rest = s.skip(1);
        let (i, j) = lemma_trimmed_part(rest);
        assert(rest.subrange(i, j) =~= s.subrange(i + 1, j + 1));
        assert forall|k: int| 0 <= k < i + 1 || j + 1 <= k < s.len() implies is_white(#[trigger] s[k]) by {
            if k > 0 {
                assert(rest[k - 1] == s[k]);
            }
        }
        (i + 1, j + 1)
    } else if is_white(s.last()) {
        let rest = s.drop_last();
        let (i, j) = lemma_trimmed_part(rest);
        assert(rest.subrange(i, j) =~= s.subrange(i, j));
        assert forall|k: int| 0 <= k < i || j <= k < s.len() implies is_white(#[trigger] s[k]) by {
            if k < rest.len() {
                assert(rest[k] == s[k]);
            } else {
                assert(s[k] == s.last());
            }
        }
        (i, j)
    } else {
        assert(s.subrange(0, s.len() as int) =~= s);
        (0, s.len() as int)
    }
}

/// Whether trimming keeps just this part of a text, and all around it is
/// white space.
pub open spec fn trims(s: Seq<char>, i: int, j: int) -> bool {
    &&& 0 <= i <= j <= s.len()
    &&& trimmed_of(s) == s.subrange(i, j)
    &&& forall|k: int| 0 <= k < i || j <= k < s.len() ==> is_white(#[trigger] s[k])
}

/// Joining one part gives it back, and joining two lists joins their texts:
/// every part is there, in order, with the separator between.
pub proof fn law_joining_keeps_every_part(a: Seq<Seq<char>>, b: Seq<Seq<char>>, sep: Seq<char>)
    requires
        a.len() > 0,
        b.len() > 0,
    ensures
        joined(seq![a[0]], sep) == a[0],
        joined(a + b, sep) == joined(a, sep) + sep + joined(b, sep),
    decreases b.len(),
{
    let all = a + b;
    assert(all.last() == b.last());
    if b.len() == 1 {
        assert(all.drop_last() =~= a);
        assert(joined(b, sep) == b[0]);
    } else {
        let rest = b.drop_last();
        law_joining_keeps_every_part(a, rest, sep);
        assert(all.drop_last() =~= a + rest);
        assert(joined(a, sep) + sep + joined(rest, sep) + sep + b.last() =~= joined(a, sep) + sep + (joined(
            rest,
            sep,
        ) + sep + b.last()));
    }
}

/// Hexadecimal text has two digits for each byte, and different bytes have
/// different texts.
pub proof fn law_hex_tells_bytes_apart(a: Seq<u8>, b: Seq<u8>)
    ensures
        hex(a).len() == 2 * a.len(),
        hex(a) == hex(b) ==> a == b,
{
    if hex(a) == hex(b) {
        assert(hex(b).len() == 2 * b.len());
        assert forall|i: int| 0 <= i < a.len() implies a[i] == b[i] by {
            assert(hex(a)[2 * i] == hex(b)[2 * i]);
            assert(hex(a)[2 * i + 1] == hex(b)[2 * i + 1]);
            assert((2 * i + 1) / 2 == i);
        }
        assert(a =~= b);
    }
}

/// The two digits of a byte count its sixteens and what is left, with the
/// digits and the first six lower case letters.
pub proof fn law_hex_digits_count_in_sixteens(b: Seq<u8>, i: int)
    requires
        0 <= i < b.len(),
    ensures
        hex_value(hex(b)[2 * i]) * 16 + hex_value(hex(b)[2 * i + 1]) == b[i],
        !('A' <= hex(b)[2 * i] <= 'F'),
{
    assert((2 * i + 1) / 2 == i);
}

/// What a hexadecimal digit stands for.
pub open spec fn hex_value(c: char) -> int {
    if '0' <= c <= '9' {
        c as int - '0' as int
    } else if 'a' <= c <= 'f' {
        c as int - 'a' as int + 10
    } else {
        -1
    }
}

} // verus!
