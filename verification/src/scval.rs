//! Contract values as the renderers read them, and their compact text form.
//!
//! A value that the renderers do not look into is carried as its XDR bytes.

use vstd::prelude::*;
use vstd::utf8::*;

use soroban_env_host::xdr::{Limits, ReadXdr};

verus! {

// ---------------------------------------------------------------------------
// Outside functions
// ---------------------------------------------------------------------------

/// The `Debug` text of the contract value that some XDR bytes encode.
pub uninterp spec fn scval_debug_of(xdr: Seq<u8>) -> Seq<char>;

/// The `Debug` text of the address that some XDR bytes encode.
pub uninterp spec fn address_debug_of(xdr: Seq<u8>) -> Seq<char>;

/// Decodes a contract value with `ScVal::from_xdr` and formats it, or the
/// decoding error, with `Debug`.
#[verifier::external_body]
pub(crate) fn scval_debug(xdr: &[u8]) -> (r: String)
    ensures
        r@ == scval_debug_of(xdr@),
{
    match soroban_env_host::xdr::ScVal::from_xdr(xdr, Limits::none()) {
        Ok(v) => format!("{v:?}"),
        Err(e) => format!("{e:?}"),
    }
}

/// Decodes an address with `ScAddress::from_xdr` and formats it, or the
/// decoding error, with `Debug`.
#[verifier::external_body]
pub(crate) fn address_debug(xdr: &[u8]) -> (r: String)
    ensures
        r@ == address_debug_of(xdr@),
{
    match soroban_env_host::xdr::ScAddress::from_xdr(xdr, Limits::none()) {
        Ok(v) => format!("{v:?}"),
        Err(e) => format!("{e:?}"),
    }
}

// ---------------------------------------------------------------------------
// Values
// ---------------------------------------------------------------------------

/// An address: an account, a contract, or another kind as its XDR bytes.
#[derive(Debug, PartialEq, Eq)]
pub enum ScAddress {
    /// A classic account, by its ed25519 public key.
    Account([u8; 32]),
    /// A contract, by its id.
    Contract([u8; 32]),
    /// A muxed account, claimable balance or liquidity pool, as XDR.
    Other(Vec<u8>),
}

/// A contract value.
#[derive(Debug, PartialEq, Eq)]
#[allow(inconsistent_fields)]
pub enum ScVal {
    Void,
    Bool(bool),
    U32(u32),
    I32(i32),
    U64(u64),
    I64(i64),
    U128 { hi: u64, lo: u64 },
    I128 { hi: i64, lo: u64 },
    Symbol(Vec<u8>),
    String(Vec<u8>),
    Bytes(Vec<u8>),
    Address(ScAddress),
    Vec(Option<Vec<ScVal>>),
    ScMap(Option<Vec<ScMapEntry>>),
    /// Any value that is rendered by its `Debug` form, as XDR.
    Other(Vec<u8>),
}

/// One entry of a contract map.
#[derive(Debug, PartialEq, Eq)]
pub struct ScMapEntry {
    pub key: ScVal,
    pub val: ScVal,
}

/// The mathematical content of an address.
#[verifier::ext_equal]
pub enum AddressView {
    Account(Seq<u8>),
    Contract(Seq<u8>),
    Other(Seq<u8>),
}

/// The type of an integer.
pub enum IntKind {
    U32,
    I32,
    U64,
    I64,
    U128,
    I128,
}

/// The mathematical content of a contract value.
#[verifier::ext_equal]
pub enum ValView {
    Void,
    Bool(bool),
    /// A number and its type.
    Int(IntKind, int),
    Symbol(Seq<u8>),
    String(Seq<u8>),
    Bytes(Seq<u8>),
    Address(AddressView),
    Vec(Option<Seq<ValView>>),
    ScMap(Option<Seq<(ValView, ValView)>>),
    Other(Seq<u8>),
}

impl View for ScAddress {
    type V = AddressView;

    open spec fn view(&self) -> AddressView {
        match *self {
            ScAddress::Account(k) => AddressView::Account(k@),
            ScAddress::Contract(k) => AddressView::Contract(k@),
            ScAddress::Other(x) => AddressView::Other(x@),
        }
    }
}

/// The unsigned number that two 64-bit halves spell.
pub open spec fn u128_value(hi: u64, lo: u64) -> int {
    hi as int * 0x1_0000_0000_0000_0000 + lo as int
}

/// The signed number that a signed high half and an unsigned low half spell.
pub open spec fn i128_value(hi: i64, lo: u64) -> int {
    hi as int * 0x1_0000_0000_0000_0000 + lo as int
}

impl ScVal {
    /// The value's content.
    pub open spec fn model(self) -> ValView
        decreases self,
    {
        match self {
            ScVal::Void => ValView::Void,
            ScVal::Bool(b) => ValView::Bool(b),
            ScVal::U32(n) => ValView::Int(IntKind::U32, n as int),
            ScVal::I32(n) => ValView::Int(IntKind::I32, n as int),
            ScVal::U64(n) => ValView::Int(IntKind::U64, n as int),
            ScVal::I64(n) => ValView::Int(IntKind::I64, n as int),
            ScVal::U128 { hi, lo } => ValView::Int(IntKind::U128, u128_value(hi, lo)),
            ScVal::I128 { hi, lo } => ValView::Int(IntKind::I128, i128_value(hi, lo)),
            ScVal::Symbol(s) => ValView::Symbol(s@),
            ScVal::String(s) => ValView::String(s@),
            ScVal::Bytes(s) => ValView::Bytes(s@),
            ScVal::Address(a) => ValView::Address(a@),
            ScVal::Vec(None) => ValView::Vec(None),
            ScVal::Vec(Some(items)) => ValView::Vec(
                Some(
                    Seq::new(
                        items@.len(),
                        |i: int|
                            if 0 <= i < items@.len() {
                                items@[i].model()
                            } else {
                                ValView::Void
                            },
                    ),
                ),
            ),
            ScVal::ScMap(None) => ValView::ScMap(None),
            ScVal::ScMap(Some(entries)) => ValView::ScMap(
                Some(
                    Seq::new(
                        entries@.len(),
                        |i: int|
                            if 0 <= i < entries@.len() {
                                (entries@[i].key.model(), entries@[i].val.model())
                            } else {
                                (ValView::Void, ValView::Void)
                            },
                    ),
                ),
            ),
            ScVal::Other(x) => ValView::Other(x@),
        }
    }
}

impl View for ScVal {
    type V = ValView;

    open spec fn view(&self) -> ValView {
        self.model()
    }
}

impl ScAddress {
    /// A copy of the address.
    pub fn copied(&self) -> (r: ScAddress)
        ensures
            r@ == self@,
    {
        match self {
            ScAddress::Account(k) => ScAddress::Account(*k),
            ScAddress::Contract(k) => ScAddress::Contract(*k),
            ScAddress::Other(x) => ScAddress::Other(copy_bytes(x)),
        }
    }
}

/// A copy of a byte string.
pub(crate) fn copy_bytes(v: &Vec<u8>) -> (r: Vec<u8>)
    ensures
        r@ == v@,
{
    vstd::slice::slice_to_vec(v.as_slice())
}

impl ScVal {
    /// A copy of the value.
    pub fn copied(&self) -> (r: ScVal)
        ensures
            r@ == self@,
        decreases self,
    {
        match self {
            ScVal::Void => ScVal::Void,
            ScVal::Bool(b) => ScVal::Bool(*b),
            ScVal::U32(n) => ScVal::U32(*n),
            ScVal::I32(n) => ScVal::I32(*n),
            ScVal::U64(n) => ScVal::U64(*n),
            ScVal::I64(n) => ScVal::I64(*n),
            ScVal::U128 { hi, lo } => ScVal::U128 { hi: *hi, lo: *lo },
            ScVal::I128 { hi, lo } => ScVal::I128 { hi: *hi, lo: *lo },
            ScVal::Symbol(s) => ScVal::Symbol(copy_bytes(s)),
            ScVal::String(s) => ScVal::String(copy_bytes(s)),
            ScVal::Bytes(s) => ScVal::Bytes(copy_bytes(s)),
            ScVal::Address(a) => ScVal::Address(a.copied()),
            ScVal::Vec(None) => ScVal::Vec(None),
            ScVal::Vec(Some(items)) => {
                let mut out: Vec<ScVal> = Vec::new();
                let mut i: usize = 0;
                while i < items.len()
                    invariant
                        i <= items@.len(),
                        out@.len() == i,
                        decreases_to!(self => items),
                        forall|j: int|
                            0 <= j < i ==> (#[trigger] out@[j]).model() == items@[j].model(),
                    decreases items@.len() - i,
                {
                    assert(decreases_to!(items => items@));
                    assert(decreases_to!(items@ => items@[i as int]));
                    out.push(items[i].copied());
                    i = i + 1;
                }
                let r = ScVal::Vec(Some(out));
                assert(r.model()->Vec_0->0 =~= self.model()->Vec_0->0);
                r
            },
            ScVal::ScMap(None) => ScVal::ScMap(None),
            ScVal::ScMap(Some(entries)) => {
                let mut out: Vec<ScMapEntry> = Vec::new();
                let mut i: usize = 0;
                while i < entries.len()
                    invariant
                        i <= entries@.len(),
                        out@.len() == i,
                        decreases_to!(self => entries),
                        forall|j: int|
                            0 <= j < i ==> (#[trigger] out@[j]).key.model() == entries@[j].key.model()
                                && out@[j].val.model() == entries@[j].val.model(),
                    decreases entries@.len() - i,
                {
                    assert(decreases_to!(entries => entries@));
                    assert(decreases_to!(entries@ => entries@[i as int]));
                    let e = &entries[i];
                    out.push(ScMapEntry { key: e.key.copied(), val: e.val.copied() });
                    i = i + 1;
                }
                let r = ScVal::ScMap(Some(out));
                assert(r.model()->ScMap_0->0 =~= self.model()->ScMap_0->0);
                r
            },
            ScVal::Other(x) => ScVal::Other(copy_bytes(x)),
        }
    }
}

impl Clone for ScAddress {
    fn clone(&self) -> (r: ScAddress)
        ensures
            r@ == self@,
    {
        self.copied()
    }
}

impl Clone for ScVal {
    fn clone(&self) -> (r: ScVal)
        ensures
            r@ == self@,
    {
        self.copied()
    }
}

impl Clone for ScMapEntry {
    fn clone(&self) -> (r: ScMapEntry)
        ensures
            r.key@ == self.key@,
            r.val@ == self.val@,
    {
        ScMapEntry { key: self.key.copied(), val: self.val.copied() }
    }
}

/// Copies of some values.
pub(crate) fn copy_vals(items: &Vec<ScVal>) -> (r: Vec<ScVal>)
    ensures
        r@.len() == items@.len(),
        forall|i: int| 0 <= i < items@.len() ==> (#[trigger] r@[i])@ == items@[i]@,
{
    let mut out: Vec<ScVal> = Vec::new();
    let mut i: usize = 0;
    while i < items.len()
        invariant
            i <= items@.len(),
            out@.len() == i,
            forall|j: int| 0 <= j < i ==> (#[trigger] out@[j])@ == items@[j]@,
        decreases items@.len() - i,
    {
        out.push(items[i].copied());
        i = i + 1;
    }
    out
}

} // verus!
