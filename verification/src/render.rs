//! Compact text for contract values and addresses, in the manner of a
//! `-vvvv` log: readable rather than faithful enough to parse back.

use vstd::prelude::*;
use vstd::utf8::{
    decode_utf8, encode_utf8, encode_utf8_decode_utf8, encode_utf8_valid_utf8, is_ascii_chars, valid_utf8,
};

use crate::scval::{
    address_debug, address_debug_of, i128_value, scval_debug, scval_debug_of, u128_value,
    AddressView, IntKind, ScAddress, ScMapEntry, ScVal, ValView,
};
use crate::strkey::{
    account_of_strkey, account_strkey, account_strkey_of, contract_of_strkey, contract_strkey,
    contract_strkey_of,
};
use crate::text::{
    can_shorten, decimal, hex, hex_encode, i128_text, join2, join3, joined, law_decimals_read_back,
    lemma_shortened_ascii, parsed_int, shorten, shortened, u128_text, usize_text, utf8_text,
};

verus! {

/// How many bytes of a long byte string are shown.
pub const PREVIEW: usize = 8;

/// Join the halves of an unsigned 128-bit number.
pub fn u128_from_pieces(hi: u64, lo: u64) -> (r: u128)
    ensures
        r == u128_value(hi, lo),
{
    (hi as u128) * 0x1_0000_0000_0000_0000 + (lo as u128)
}

/// Join the halves of a signed 128-bit number; the high half carries the
/// sign.
pub fn i128_from_pieces(hi: i64, lo: u64) -> (r: i128)
    ensures
        r == i128_value(hi, lo),
{
    (hi as i128) * 0x1_0000_0000_0000_0000 + (lo as i128)
}

/// Split a signed 128-bit number into a signed high half and an unsigned low
/// half.
pub fn i128_to_pieces(n: i128) -> (r: (i64, u64))
    ensures
        i128_value(r.0, r.1) == n,
{
    if n >= 0 {
        ((n / 0x1_0000_0000_0000_0000) as i64, (n % 0x1_0000_0000_0000_0000) as u64)
    } else {
        let m: i128 = -(n + 1);
        let q: i128 = m / 0x1_0000_0000_0000_0000;
        let rest: i128 = m % 0x1_0000_0000_0000_0000;
        ((-q - 1) as i64, (0xFFFF_FFFF_FFFF_FFFF - rest) as u64)
    }
}

/// The halves of a signed number are determined by it: splitting what was
/// joined gives the same halves.
pub proof fn law_i128_halves_are_unique(hi1: i64, lo1: u64, hi2: i64, lo2: u64)
    requires
        i128_value(hi1, lo1) == i128_value(hi2, lo2),
    ensures
        hi1 == hi2,
        lo1 == lo2,
{
}

/// Shorten a strkey to its first and last four characters.
pub fn abbreviate_strkey(s: &str) -> (r: String)
    requires
        can_shorten(s@),
    ensures
        r@ == shortened(s@, "\u{2026}"@),
{
    shorten(s, "\u{2026}")
}

/// Hexadecimal text of a byte string; a long one shows its first bytes and
/// its length.
pub open spec fn bytes_text(b: Seq<u8>) -> Seq<char> {
    if b.len() <= 2 * PREVIEW {
        "0x"@ + hex(b)
    } else {
        "0x"@ + hex(b.take(PREVIEW as int)) + "\u{2026}("@ + decimal(b.len() as int) + " bytes)"@
    }
}

/// Hexadecimal text of a byte string.
pub fn render_bytes(bytes: &[u8]) -> (r: String)
    ensures
        r@ == bytes_text(bytes@),
{
    if bytes.len() <= 2 * PREVIEW {
        join2("0x", hex_encode(bytes).as_str())
    } else {
        let head = vstd::slice::slice_subrange(bytes, 0, PREVIEW);
        assert(head@ =~= bytes@.take(PREVIEW as int));
        let mut s = join2("0x", hex_encode(head).as_str());
        s.append("\u{2026}(");
        s.append(usize_text(bytes.len()).as_str());
        s.append(" bytes)");
        s
    }
}

/// Text of an address: the shortened strkey of an account or contract, the
/// `Debug` form of any other.
pub open spec fn address_text(a: AddressView) -> Seq<char> {
    match a {
        AddressView::Account(k) => shortened(account_strkey_of(k), "\u{2026}"@),
        AddressView::Contract(k) => shortened(contract_strkey_of(k), "\u{2026}"@),
        AddressView::Other(x) => address_debug_of(x),
    }
}

/// Whether a strkey is that of an account: one of its length and first letter
/// that reads back as the account.
pub open spec fn names_account(strkey: Seq<char>, key: Seq<u8>) -> bool {
    is_ascii_chars(strkey) && strkey.len() == 56 && strkey[0] == 'G' && account_of_strkey(strkey) == Some(
        key,
    )
}

/// Whether a strkey is that of a contract: one of its length and first letter
/// that reads back as the contract.
pub open spec fn names_contract(strkey: Seq<char>, id: Seq<u8>) -> bool {
    is_ascii_chars(strkey) && strkey.len() == 56 && strkey[0] == 'C' && contract_of_strkey(strkey) == Some(
        id,
    )
}

/// Text of an address.
pub fn render_address(addr: &ScAddress) -> (r: String)
    ensures
        r@ == address_text(addr@),
        addr matches ScAddress::Account(k) ==> names_account(account_strkey_of(k@), k@),
        addr matches ScAddress::Contract(k) ==> names_contract(contract_strkey_of(k@), k@),
{
    match addr {
        ScAddress::Account(k) => {
            let full = account_strkey(k);
            proof {
                lemma_shortened_ascii(full@, "\u{2026}"@);
            }
            abbreviate_strkey(full.as_str())
        },
        ScAddress::Contract(k) => {
            let full = contract_strkey(k);
            proof {
                lemma_shortened_ascii(full@, "\u{2026}"@);
            }
            abbreviate_strkey(full.as_str())
        },
        ScAddress::Other(x) => address_debug(x.as_slice()),
    }
}

/// Text of a contract value.
pub open spec fn val_text(v: ValView) -> Seq<char>
    decreases v,
{
    match v {
        ValView::Void => "()"@,
        ValView::Bool(b) => if b {
            "true"@
        } else {
            "false"@
        },
        ValView::Int(_, n) => decimal(n),
        ValView::Symbol(s) => if valid_utf8(s) {
            decode_utf8(s)
        } else {
            "Symbol(<non-utf8>)"@
        },
        ValView::String(s) => if valid_utf8(s) {
            "\""@ + decode_utf8(s) + "\""@
        } else {
            "String(<non-utf8>)"@
        },
        ValView::Bytes(b) => bytes_text(b),
        ValView::Address(a) => address_text(a),
        ValView::Vec(None) => "[]"@,
        ValView::Vec(Some(items)) => "["@ + joined(item_texts(items), ", "@) + "]"@,
        ValView::ScMap(None) => "{}"@,
        ValView::ScMap(Some(entries)) => "{"@ + joined(pair_texts(entries), ", "@) + "}"@,
        ValView::Other(x) => scval_debug_of(x),
    }
}

/// The texts of some values.
pub open spec fn item_texts(items: Seq<ValView>) -> Seq<Seq<char>>
    decreases items,
{
    Seq::new(
        items.len(),
        |i: int|
            if 0 <= i < items.len() {
                val_text(items[i])
            } else {
                Seq::empty()
            },
    )
}

/// The texts of some map entries, `key: value` each.
pub open spec fn pair_texts(entries: Seq<(ValView, ValView)>) -> Seq<Seq<char>>
    decreases entries,
{
    Seq::new(
        entries.len(),
        |i: int|
            if 0 <= i < entries.len() {
                val_text(entries[i].0) + ": "@ + val_text(entries[i].1)
            } else {
                Seq::empty()
            },
    )
}

/// The contents of some values.
pub open spec fn vals_view(items: Seq<ScVal>) -> Seq<ValView> {
    items.map_values(|v: ScVal| v@)
}

/// The contents of some map entries.
pub open spec fn entries_view(entries: Seq<ScMapEntry>) -> Seq<(ValView, ValView)> {
    entries.map_values(|e: ScMapEntry| (e.key@, e.val@))
}

/// Appending one more piece to a joined text.
pub(crate) proof fn lemma_joined_push(parts: Seq<Seq<char>>, sep: Seq<char>, last: Seq<char>)
    ensures
        joined(parts.push(last), sep) == (if parts.len() == 0 {
            last
        } else {
            joined(parts, sep) + sep + last
        }),
{
    assert(parts.push(last).drop_last() =~= parts);
}

/// Text of a contract value.
pub fn render_scval(v: &ScVal) -> (r: String)
    ensures
        r@ == val_text(v@),
    decreases v,
{
    match v {
        ScVal::Void => "()".to_owned(),
        ScVal::Bool(b) => if *b {
            "true".to_owned()
        } else {
            "false".to_owned()
        },
        ScVal::U32(n) => u128_text(*n as u128),
        ScVal::I32(n) => i128_text(*n as i128),
        ScVal::U64(n) => u128_text(*n as u128),
        ScVal::I64(n) => i128_text(*n as i128),
        ScVal::U128 { hi, lo } => u128_text(u128_from_pieces(*hi, *lo)),
        ScVal::I128 { hi, lo } => i128_text(i128_from_pieces(*hi, *lo)),
        ScVal::Symbol(s) => match utf8_text(s.as_slice()) {
            Some(text) => text,
            None => "Symbol(<non-utf8>)".to_owned(),
        },
        ScVal::String(s) => match utf8_text(s.as_slice()) {
            Some(text) => join3("\"", text.as_str(), "\""),
            None => "String(<non-utf8>)".to_owned(),
        },
        ScVal::Bytes(b) => render_bytes(b.as_slice()),
        ScVal::Address(a) => render_address(a),
        ScVal::Vec(None) => "[]".to_owned(),
        ScVal::Vec(Some(items)) => {
            let inner = render_scvals(items);
            assert(v@->Vec_0->0 =~= vals_view(items@));
            join3("[", inner.as_str(), "]")
        },
        ScVal::ScMap(None) => "{}".to_owned(),
        ScVal::ScMap(Some(entries)) => {
            let inner = render_map(entries);
            assert(v@->ScMap_0->0 =~= entries_view(entries@));
            join3("{", inner.as_str(), "}")
        },
        ScVal::Other(x) => scval_debug(x.as_slice()),
    }
}

/// The texts of some values, separated by commas.
pub fn render_scvals(items: &Vec<ScVal>) -> (r: String)
    ensures
        r@ == joined(item_texts(vals_view(items@)), ", "@),
    decreases items,
{
    let mut out = String::new();
    let mut i: usize = 0;
    while i < items.len()
        invariant
            i <= items@.len(),
            out@ == joined(item_texts(vals_view(items@.take(i as int))), ", "@),
        decreases items@.len() - i,
    {
        if i > 0 {
            out.append(", ");
        }
        assert(decreases_to!(items => items@));
        assert(decreases_to!(items@ => items@[i as int]));
        let text = render_scval(&items[i]);
        out.append(text.as_str());
        proof {
            lemma_joined_push(item_texts(vals_view(items@.take(i as int))), ", "@, text@);
            assert(item_texts(vals_view(items@.take(i + 1))) =~= item_texts(vals_view(items@.take(i as int))).push(text@));
        }
        i = i + 1;
    }
    assert(items@.take(i as int) =~= items@);
    out
}

/// The entries of a map as `key: value`, separated by commas.
fn render_map(entries: &Vec<ScMapEntry>) -> (r: String)
    ensures
        r@ == joined(pair_texts(entries_view(entries@)), ", "@),
    decreases entries,
{
    let mut out = String::new();
    let mut i: usize = 0;
    while i < entries.len()
        invariant
            i <= entries@.len(),
            out@ == joined(pair_texts(entries_view(entries@.take(i as int))), ", "@),
        decreases entries@.len() - i,
    {
        if i > 0 {
            out.append(", ");
        }
        assert(decreases_to!(entries => entries@));
        assert(decreases_to!(entries@ => entries@[i as int]));
        let key = render_scval(&entries[i].key);
        let val = render_scval(&entries[i].val);
        let text = join3(key.as_str(), ": ", val.as_str());
        out.append(text.as_str());
        proof {
            lemma_joined_push(pair_texts(entries_view(entries@.take(i as int))), ", "@, text@);
            assert(pair_texts(entries_view(entries@.take(i + 1))) =~= pair_texts(
                entries_view(entries@.take(i as int)),
            ).push(text@));
        }
        i = i + 1;
    }
    assert(entries@.take(i as int) =~= entries@);
    out
}

/// A number is shown in decimal, whatever its type: it reads back, and
/// different numbers look different.
pub proof fn law_numbers_are_shown_in_decimal(kind: IntKind, n: int)
    ensures
        parsed_int(val_text(ValView::Int(kind, n))) == Some(n),
{
    law_decimals_read_back(n);
}

/// Words are shown as they are, strings in quotes, truth values and nothing
/// by their names.
pub proof fn law_words_are_shown_as_they_are(s: Seq<char>)
    ensures
        val_text(ValView::Symbol(encode_utf8(s))) == s,
        val_text(ValView::String(encode_utf8(s))) == "\""@ + s + "\""@,
        val_text(ValView::Bool(true)) == "true"@,
        val_text(ValView::Bool(false)) == "false"@,
        val_text(ValView::Void) == "()"@,
{
    encode_utf8_valid_utf8(s);
    encode_utf8_decode_utf8(s);
}

/// Up to sixteen bytes are shown in full; of more, the first eight and how
/// many there are.
pub proof fn law_bytes_are_shown_in_hexadecimal(b: Seq<u8>)
    ensures
        b.len() <= 16 ==> val_text(ValView::Bytes(b)) == "0x"@ + hex(b),
        b.len() > 16 ==> val_text(ValView::Bytes(b)) == "0x"@ + hex(b.take(8)) + "\u{2026}("@ + decimal(
            b.len() as int,
        ) + " bytes)"@,
{
}

/// A list shows every item, and a map every key with its value, in order.
pub proof fn law_every_item_is_shown(items: Seq<ValView>, entries: Seq<(ValView, ValView)>)
    ensures
        val_text(ValView::Vec(Some(items))) == "["@ + joined(
            Seq::new(items.len(), |i: int| val_text(items[i])),
            ", "@,
        ) + "]"@,
        val_text(ValView::ScMap(Some(entries))) == "{"@ + joined(
            Seq::new(entries.len(), |i: int| val_text(entries[i].0) + ": "@ + val_text(entries[i].1)),
            ", "@,
        ) + "}"@,
        val_text(ValView::Vec(None)) == "[]"@,
        val_text(ValView::ScMap(None)) == "{}"@,
{
    assert(item_texts(items) =~= Seq::new(items.len(), |i: int| val_text(items[i])));
    assert(pair_texts(entries) =~= Seq::new(
        entries.len(),
        |i: int| val_text(entries[i].0) + ": "@ + val_text(entries[i].1),
    ));
}

/// An address is shown by the first and the last four characters of its own
/// strkey.
pub proof fn law_addresses_are_shown_by_their_strkeys(k: Seq<u8>)
    ensures
        names_account(account_strkey_of(k), k) ==> val_text(ValView::Address(AddressView::Account(k)))
            == account_strkey_of(k).take(4) + "\u{2026}"@ + account_strkey_of(k).skip(52),
        names_contract(contract_strkey_of(k), k) ==> val_text(ValView::Address(AddressView::Contract(k)))
            == contract_strkey_of(k).take(4) + "\u{2026}"@ + contract_strkey_of(k).skip(52),
{
    if names_account(account_strkey_of(k), k) {
        lemma_shortened_ascii(account_strkey_of(k), "\u{2026}"@);
    }
    if names_contract(contract_strkey_of(k), k) {
        lemma_shortened_ascii(contract_strkey_of(k), "\u{2026}"@);
    }
}

/// A number of 128 bits is its upper half, in two to the 64ths, and its lower
/// half.
pub proof fn law_wide_numbers_are_their_halves(hi: i64, lo: u64, n: i128, u: u64, m: u128, pieces: (i64, u64))
    requires
        call_ensures(i128_from_pieces, (hi, lo), n),
        call_ensures(u128_from_pieces, (u, lo), m),
        call_ensures(i128_to_pieces, (n,), pieces),
    ensures
        n == hi * 0x1_0000_0000_0000_0000 + lo,
        m == u * 0x1_0000_0000_0000_0000 + lo,
        pieces == (hi, lo),
        (ScVal::I128 { hi, lo })@ == ValView::Int(IntKind::I128, n as int),
        (ScVal::U128 { hi: u, lo })@ == ValView::Int(IntKind::U128, m as int),
{
    law_i128_halves_are_unique(hi, lo, pieces.0, pieces.1);
}

/// A value stands for the number, the text, the bytes or the items that it
/// holds.
pub proof fn law_values_stand_for_what_they_hold(a: u32, b: i32, c: u64, d: i64, s: Vec<u8>, items: Vec<ScVal>, i: int)
    ensures
        ScVal::U32(a)@ == ValView::Int(IntKind::U32, a as int),
        ScVal::I32(b)@ == ValView::Int(IntKind::I32, b as int),
        ScVal::U64(c)@ == ValView::Int(IntKind::U64, c as int),
        ScVal::I64(d)@ == ValView::Int(IntKind::I64, d as int),
        ScVal::Symbol(s)@ == ValView::Symbol(s@),
        ScVal::String(s)@ == ValView::String(s@),
        ScVal::Bytes(s)@ == ValView::Bytes(s@),
        ScVal::Vec(Some(items))@ matches ValView::Vec(Some(v)) && v.len() == items@.len() && (0 <= i
            < items@.len() ==> v[i] == items@[i]@),
{
}

} // verus!
