//! The fork's view of the ledger: what has been read from the network or
//! written on the fork, by key.
//!
//! A key is in one of three states: never asked for, known to hold an entry,
//! or known to be absent from the ledger. Asking for a key a second time is
//! always local. Entries are held as XDR.

use vstd::prelude::*;

use crate::codec::{
    account_key_xdr, canonical_key_of, instance_key_scval, intact, key_before, key_hash, key_kind,
    key_order, key_order_of, key_owner, key_parts_of, key_storage, Durability, KeyKind, KeyOrder,
    KeyParts, TrustLineAsset,
};
use crate::error::{error_text, ErrorView, ForkError};
use crate::ledger::{
    bare, decode_entry, decoded_entry, encode_entry, entry_xdr, lemma_account_numbers,
    lemma_writable_reads_back, plain, reads_back, settled, writable, AccountView, DataView,
    EntryView, LedgerEntry, LedgerEntryData, LedgerKey,
};
use crate::rpc::FetchedEntry;
use crate::scval::{copy_bytes, AddressView, ScAddress};
use crate::store::{
    ascending, before, holds, lemma_before_irreflexive, lemma_row_in_map, rows_map, ByteMap, Row,
};
use crate::strkey::{account_strkey, account_strkey_of, contract_strkey, contract_strkey_of};
use crate::text::{
    can_shorten, decimal, hex, hex_encode, join2, join3, join4, join5, lemma_shortened_ascii,
    shorten, shortened, u32_text,
};

verus! {

/// What happens when the network cannot be asked.
#[derive(Debug, Clone, Copy, PartialEq, Eq, Structural)]
pub enum FetchMode {
    /// The failure ends the call.
    Strict,
    /// The key is taken to be absent.
    Lenient,
}

/// An entry that the fork knows, as XDR.
#[derive(Debug, PartialEq, Eq)]
pub struct CachedEntry {
    pub xdr: Vec<u8>,
    /// The ledger up to which the entry lives, where it has such a limit.
    pub live_until: Option<u32>,
}

/// An entry's XDR and the ledger up to which it lives.
pub type Held = (Seq<u8>, Option<u32>);

/// The content of what the fork knows of a key.
pub open spec fn held(c: Option<CachedEntry>) -> Option<Held> {
    match c {
        Some(e) => Some((e.xdr@, e.live_until)),
        None => None,
    }
}

/// The fork's view of the ledger.
#[derive(Debug)]
pub struct RpcSnapshotSource {
    cache: ByteMap<Option<CachedEntry>>,
    fetch_count: u32,
    fetch_mode: FetchMode,
}

/// The content of the fork's view of the ledger. A key outside the map has
/// never been asked for; one without an entry is known to be absent.
#[verifier::ext_equal]
pub struct SourceView {
    pub known: Map<Seq<u8>, Option<Held>>,
    pub fetch_count: u32,
    pub fetch_mode: FetchMode,
}

/// The contents of what is known, by key.
pub open spec fn known_map(m: Map<Seq<u8>, Option<CachedEntry>>) -> Map<Seq<u8>, Option<Held>> {
    m.map_values(|c: Option<CachedEntry>| held(c))
}

impl View for RpcSnapshotSource {
    type V = SourceView;

    closed spec fn view(&self) -> SourceView {
        SourceView {
            known: known_map(self.cache@),
            fetch_count: self.fetch_count,
            fetch_mode: self.fetch_mode,
        }
    }
}

/// What a lookup finds.
#[derive(Debug, PartialEq, Eq)]
pub enum Lookup {
    /// The key is known: its entry, or its absence.
    Hit(Option<FetchedEntry>),
    /// The key has never been asked for.
    Miss,
}

/// The content of what a lookup finds.
pub enum LookupView {
    Hit(Option<(EntryView, Option<u32>)>),
    Miss,
}

impl View for Lookup {
    type V = LookupView;

    open spec fn view(&self) -> LookupView {
        match *self {
            Lookup::Hit(Some(f)) => LookupView::Hit(Some((f.entry@, f.live_until))),
            Lookup::Hit(None) => LookupView::Hit(None),
            Lookup::Miss => LookupView::Miss,
        }
    }
}

/// What a lookup finds, or why the XDR that is held cannot be read.
pub open spec fn looked_up(known: Map<Seq<u8>, Option<Held>>, key: Seq<u8>) -> Result<
    LookupView,
    Seq<char>,
> {
    if !known.dom().contains(key) {
        Ok(LookupView::Miss)
    } else {
        match known[key] {
            None => Ok(LookupView::Hit(None)),
            Some((xdr, live_until)) => match decoded_entry(xdr) {
                Ok(e) => Ok(LookupView::Hit(Some((e, live_until)))),
                Err(m) => Err(m),
            },
        }
    }
}

/// A row to load: a key, its entry, and the ledger up to which it lives.
#[derive(Debug, PartialEq, Eq)]
pub struct LedgerRow {
    pub key: LedgerKey,
    pub entry: LedgerEntry,
    pub live_until: Option<u32>,
}

/// The content of a row.
#[verifier::ext_equal]
pub struct RowView {
    pub key: Seq<u8>,
    pub entry: EntryView,
    pub live_until: Option<u32>,
}

impl View for LedgerRow {
    type V = RowView;

    open spec fn view(&self) -> RowView {
        RowView { key: self.key@, entry: self.entry@, live_until: self.live_until }
    }
}

/// The contents of some rows.
pub open spec fn rows_view(rows: Seq<LedgerRow>) -> Seq<RowView> {
    rows.map_values(|r: LedgerRow| r@)
}

/// What is known after loading some rows, later ones over earlier ones.
pub open spec fn loaded(known: Map<Seq<u8>, Option<Held>>, rows: Seq<RowView>) -> Map<
    Seq<u8>,
    Option<Held>,
>
    decreases rows.len(),
{
    if rows.len() == 0 {
        known
    } else {
        let r = rows.last();
        loaded(known, rows.drop_last()).insert(
            r.key,
            Some((entry_xdr(r.entry)->Ok_0, r.live_until)),
        )
    }
}

/// Whether every key is as the codec writes it.
pub open spec fn keys_intact(keys: Set<Seq<u8>>) -> bool {
    forall|k: Seq<u8>| #[trigger] keys.contains(k) ==> canonical_key_of(k) == intact(k)
}

/// Whether rows are in the order of their keys.
pub open spec fn in_key_order(rows: Seq<LedgerRow>) -> bool {
    forall|i: int, j: int|
        0 <= i < j < rows.len() ==> key_before(#[trigger] rows[i].key@, #[trigger] rows[j].key@)
}

/// Whether no two rows have the same key.
pub open spec fn distinct_keys(rows: Seq<LedgerRow>) -> bool {
    forall|i: int, j: int|
        0 <= i < j < rows.len() ==> #[trigger] rows[i].key@ != #[trigger] rows[j].key@
}

/// Whether one of some rows has a key.
pub open spec fn has_key(rows: Seq<LedgerRow>, key: Seq<u8>) -> bool {
    exists|i: int| 0 <= i < rows.len() && (#[trigger] rows[i]).key@ == key
}

/// Whether every row is what is known of its key.
pub open spec fn all_found(known: Map<Seq<u8>, Option<Held>>, rows: Seq<LedgerRow>) -> bool {
    forall|i: int|
        0 <= i < rows.len() ==> looked_up(known, (#[trigger] rows[i]).key@) == Ok::<
            LookupView,
            Seq<char>,
        >(LookupView::Hit(Some((rows[i].entry@, rows[i].live_until))))
}

/// Whether some rows are everything that is known to exist, each key once and
/// in the order of the keys.
pub open spec fn exports(known: Map<Seq<u8>, Option<Held>>, rows: Seq<LedgerRow>) -> bool {
    &&& distinct_keys(rows)
    &&& in_key_order(rows)
    &&& all_found(known, rows)
    &&& forall|k: Seq<u8>|
        known.dom().contains(k) && known[k] is Some ==> #[trigger] has_key(rows, k)
}

/// Whether every entry of some rows reads back.
pub open spec fn can_be_loaded(rows: Seq<LedgerRow>) -> bool {
    forall|i: int| 0 <= i < rows.len() ==> reads_back((#[trigger] rows[i]).entry@)
}

/// Whether row number `n` is the first that cannot be encoded, and why.
pub open spec fn first_unencodable(rows: Seq<LedgerRow>, n: int, e: ErrorView) -> bool {
    &&& 0 <= n < rows.len()
    &&& forall|i: int| 0 <= i < n ==> entry_xdr((#[trigger] rows[i]).entry@) is Ok
    &&& entry_xdr(rows[n].entry@) matches Err(m) && e == ErrorView::Xdr(m)
}

/// A change that a transaction made to the ledger.
#[derive(Debug, PartialEq, Eq)]
pub struct LedgerEntryChange {
    /// The entry was only read.
    pub read_only: bool,
    /// The key, as XDR.
    pub encoded_key: Vec<u8>,
    /// The new entry, as XDR; none where it was removed.
    pub encoded_new_value: Option<Vec<u8>>,
    /// The ledger up to which the new entry lives, where the change names
    /// one.
    pub new_live_until_ledger: Option<u32>,
}

/// The ledger up to which a changed entry lives: the one that is known
/// already, or else the one that the change names.
pub open spec fn kept_live_until(
    known: Map<Seq<u8>, Option<Held>>,
    key: Seq<u8>,
    named: Option<u32>,
) -> Option<u32> {
    if known.dom().contains(key) {
        match known[key] {
            Some((_, Some(l))) => Some(l),
            _ => named,
        }
    } else {
        named
    }
}

/// What is known after one change to the entry under `key`.
pub open spec fn changed(
    known: Map<Seq<u8>, Option<Held>>,
    key: Seq<u8>,
    c: LedgerEntryChange,
) -> Map<Seq<u8>, Option<Held>> {
    if c.read_only {
        known
    } else {
        known.insert(
            key,
            match c.encoded_new_value {
                Some(x) => Some((x@, kept_live_until(known, key, c.new_live_until_ledger))),
                None => None,
            },
        )
    }
}

/// What is known after some changes, in order.
pub open spec fn changed_all(
    known: Map<Seq<u8>, Option<Held>>,
    changes: Seq<LedgerEntryChange>,
) -> Map<Seq<u8>, Option<Held>>
    decreases changes.len(),
{
    if changes.len() == 0 {
        known
    } else {
        let c = changes.last();
        changed(
            changed_all(known, changes.drop_last()),
            canonical_key_of(c.encoded_key@)->Ok_0,
            c,
        )
    }
}

/// How many of some changes are writes.
pub open spec fn write_count(changes: Seq<LedgerEntryChange>) -> nat
    decreases changes.len(),
{
    if changes.len() == 0 {
        0
    } else {
        write_count(changes.drop_last()) + (if changes.last().read_only {
            0nat
        } else {
            1nat
        })
    }
}

/// The number of the first write among the changes from `from` on whose key
/// cannot be read.
pub open spec fn first_bad_key(changes: Seq<LedgerEntryChange>, from: int) -> Option<int>
    decreases changes.len() - from,
{
    if from < 0 || from >= changes.len() {
        None
    } else if !changes[from].read_only && canonical_key_of(changes[from].encoded_key@) is Err {
        Some(from)
    } else {
        first_bad_key(changes, from + 1)
    }
}

/// Whether this is the key of a change, where it is a write.
spec fn reads_key(c: LedgerEntryChange, key: Option<LedgerKey>) -> bool {
    match key {
        Some(k) => !c.read_only && canonical_key_of(c.encoded_key@) == intact(k@),
        None => c.read_only,
    }
}

/// What is wrong with a change whose key cannot be read.
pub open spec fn bad_change(c: LedgerEntryChange) -> ErrorView {
    ErrorView::Xdr(
        "apply_changes: bad LedgerKey from host: "@ + canonical_key_of(c.encoded_key@)->Err_0,
    )
}

proof fn lemma_known_insert(m: Map<Seq<u8>, Option<CachedEntry>>, k: Seq<u8>, v: Option<CachedEntry>)
    ensures
        known_map(m.insert(k, v)) == known_map(m).insert(k, held(v)),
{
    assert(known_map(m.insert(k, v)) =~= known_map(m).insert(k, held(v)));
}

/// Whether this is what becomes of what is known, and what is handed back,
/// when an entry is written.
pub open spec fn wrote(
    before: SourceView,
    key: Seq<u8>,
    entry: EntryView,
    live_until: Option<u32>,
    after: SourceView,
    r: Result<(), ForkError>,
) -> bool {
    match entry_xdr(entry) {
        Ok(x) => {
            &&& r is Ok
            &&& after == (SourceView { known: before.known.insert(key, Some((x, live_until))), ..before })
        },
        Err(m) => {
            &&& r matches Err(e) && e@ == ErrorView::Xdr(m)
            &&& after == before
        },
    }
}

/// Whether a fetch is counted: just the count goes up, and around at the
/// largest number.
pub open spec fn counted(before: SourceView, after: SourceView, r: u32) -> bool {
    &&& r == vstd::wrapping::u32_specs::wrapping_add(before.fetch_count, 1)
    &&& after == (SourceView { fetch_count: r, ..before })
}

/// Whether this is what becomes of what is known, and what is handed back,
/// when the outcome of fetch number `count` is taken in.
pub open spec fn took_in(
    before: SourceView,
    key: Seq<u8>,
    count: u32,
    outcome: Result<Option<FetchedEntry>, ForkError>,
    after: SourceView,
    r: Result<Option<FetchedEntry>, String>,
) -> bool {
    match outcome {
        Ok(Some(f)) => match entry_xdr(f.entry@) {
            Ok(x) => {
                &&& r == Ok::<Option<FetchedEntry>, String>(Some(f))
                &&& after == (SourceView {
                    known: before.known.insert(key, Some((x, f.live_until))),
                    ..before
                })
                &&& settled(f.entry@) || bare(f.entry@) ==> looked_up(
                    after.known,
                    key,
                ) == Ok::<LookupView, Seq<char>>(
                    LookupView::Hit(Some((f.entry@, f.live_until))),
                )
            },
            Err(m) => {
                &&& r matches Err(e) && e@ == error_text(ErrorView::Xdr(m))
                &&& !bare(f.entry@)
                &&& after == before
            },
        },
        Ok(None) => {
            &&& r == Ok::<Option<FetchedEntry>, String>(None)
            &&& after == (SourceView {
                known: before.known.insert(key, None),
                ..before
            })
        },
        Err(e) => if before.fetch_mode == FetchMode::Lenient {
            &&& r == Ok::<Option<FetchedEntry>, String>(None)
            &&& after == (SourceView {
                known: before.known.insert(key, None),
                ..before
            })
        } else {
            &&& r matches Err(m) && m@ == "soroban-fork: RPC fetch #"@ + decimal(
                count as int,
            ) + " failed (strict): "@ + error_text(e@)
            &&& after == before
        },
    }
}

/// Whether this is what becomes of what is known, and what is handed back,
/// when the writes of a transaction are taken over.
pub open spec fn applies(
    before: SourceView,
    changes: Seq<LedgerEntryChange>,
    after: SourceView,
    r: Result<u32, ForkError>,
) -> bool {
    match first_bad_key(changes, 0) {
        None => {
            &&& r matches Ok(n) && n == (if write_count(changes) <= u32::MAX {
                write_count(changes)
            } else {
                u32::MAX as nat
            })
            &&& after == (SourceView {
                known: changed_all(before.known, changes),
                ..before
            })
        },
        Some(i) => {
            &&& r matches Err(e) && e@ == bad_change(changes[i])
            &&& after == before
        },
    }
}

impl RpcSnapshotSource {
    #[verifier::type_invariant]
    spec fn well_formed(self) -> bool {
        keys_intact(self.cache@.dom())
    }

    /// A view in which nothing is known yet.
    pub fn new() -> (r: RpcSnapshotSource)
        ensures
            r@ == (SourceView {
                known: Map::empty(),
                fetch_count: 0,
                fetch_mode: FetchMode::Strict,
            }),
    {
        let r = RpcSnapshotSource {
            cache: ByteMap::new(),
            fetch_count: 0,
            fetch_mode: FetchMode::Strict,
        };
        assert(r@.known =~= Map::<Seq<u8>, Option<Held>>::empty());
        r
    }

    /// The same view with another fetch mode.
    pub fn with_fetch_mode(self, mode: FetchMode) -> (r: RpcSnapshotSource)
        ensures
            r@ == (SourceView { fetch_mode: mode, ..self@ }),
    {
        proof {
            use_type_invariant(&self);
        }
        RpcSnapshotSource { cache: self.cache, fetch_count: self.fetch_count, fetch_mode: mode }
    }

    /// The fetch mode.
    pub fn fetch_mode(&self) -> (r: FetchMode)
        ensures
            r == self@.fetch_mode,
    {
        self.fetch_mode
    }

    /// How many fetches have been begun, whether or not they succeeded.
    pub fn fetch_count(&self) -> (r: u32)
        ensures
            r == self@.fetch_count,
    {
        self.fetch_count
    }

    fn remember(&mut self, key: &LedgerKey, value: Option<CachedEntry>)
        ensures
            final(self)@ == (SourceView {
                known: old(self)@.known.insert(key@, held(value)),
                ..old(self)@
            }),
    {
        let xdr = vstd::slice::slice_to_vec(key.as_xdr());
        proof {
            use_type_invariant(&*self);
            lemma_known_insert(self.cache@, key@, value);
        }
        let mut cache: ByteMap<Option<CachedEntry>> = ByteMap::new();
        std::mem::swap(&mut cache, &mut self.cache);
        cache.insert(xdr, value);
        self.cache = cache;
    }

    /// Write an entry over whatever is known of its key. An entry that cannot
    /// be encoded is refused and changes nothing.
    pub fn set_entry(&mut self, key: &LedgerKey, entry: &LedgerEntry, live_until: Option<u32>) -> (r:
        Result<(), ForkError>)
        ensures
            wrote(old(self)@, key@, entry@, live_until, final(self)@, r),
            r is Ok ==> settled(entry@) ==> looked_up(final(self)@.known, key@) == Ok::<
                LookupView,
                Seq<char>,
            >(LookupView::Hit(Some((entry@, live_until)))),
            plain(entry@) ==> r is Ok,
            bare(entry@) ==> r is Ok && reads_back(entry@),
    {
        match encode_entry(entry) {
            Ok(xdr) => {
                self.remember(key, Some(CachedEntry { xdr, live_until }));
                Ok(())
            },
            Err(e) => Err(e),
        }
    }

    /// Load rows without asking the network. Loading stops at a row that
    /// cannot be encoded; the rows before it stay.
    pub fn preload(&mut self, rows: &Vec<LedgerRow>) -> (r: Result<(), ForkError>)
        ensures
            (forall|i: int| 0 <= i < rows@.len() ==> plain((#[trigger] rows@[i]).entry@)) ==> r is Ok,
            can_be_loaded(rows@) ==> r is Ok,
            final(self)@.fetch_count == old(self)@.fetch_count,
            final(self)@.fetch_mode == old(self)@.fetch_mode,
            (match r {
                Ok(_) => {
                    &&& forall|i: int| 0 <= i < rows@.len() ==> entry_xdr((#[trigger] rows@[i]).entry@) is Ok
                    &&& final(self)@.known == loaded(old(self)@.known, rows_view(rows@))
                },
                Err(e) => exists|n: int|
                    #[trigger] first_unencodable(rows@, n, e@) && final(self)@.known == loaded(
                        old(self)@.known,
                        rows_view(rows@).take(n),
                    ),
            }),
    {
        let mut i: usize = 0;
        let ghost all = rows_view(rows@);
        assert(all.take(0) =~= Seq::<RowView>::empty());
        while i < rows.len()
            invariant
                i <= rows@.len(),
                all == rows_view(rows@),
                self@.fetch_count == old(self)@.fetch_count,
                self@.fetch_mode == old(self)@.fetch_mode,
                forall|j: int| 0 <= j < i ==> entry_xdr((#[trigger] rows@[j]).entry@) is Ok,
                self@.known == loaded(old(self)@.known, all.take(i as int)),
            decreases rows@.len() - i,
        {
            match self.set_entry(&rows[i].key, &rows[i].entry, rows[i].live_until) {
                Ok(_) => {},
                Err(e) => {
                    assert(entry_xdr(rows@[i as int].entry@) is Err);
                    assert(!plain(rows@[i as int].entry@));
                    assert(first_unencodable(rows@, i as int, e@));
                    return Err(e);
                },
            }
            assert(all.take(i + 1).drop_last() =~= all.take(i as int));
            i = i + 1;
        }
        assert(all.take(i as int) =~= all);
        Ok(())
    }

    /// Look a key up. XDR that cannot be read is an error.
    pub fn get(&self, key: &LedgerKey) -> (r: Result<Lookup, ForkError>)
        ensures
            (match looked_up(self@.known, key@) {
                Ok(found) => r matches Ok(l) && l@ == found,
                Err(m) => r matches Err(e) && e@ == ErrorView::Xdr(m),
            }),
            r matches Ok(Lookup::Hit(Some(f))) ==> writable(f.entry@),
    {
        match self.cache.get(key.as_xdr()) {
            None => Ok(Lookup::Miss),
            Some(None) => Ok(Lookup::Hit(None)),
            Some(Some(c)) => match decode_entry(c.xdr.as_slice()) {
                Ok(entry) => Ok(Lookup::Hit(Some(FetchedEntry { entry, live_until: c.live_until }))),
                Err(e) => Err(e),
            },
        }
    }

    /// Count a fetch that is about to be made, and give its number. The count
    /// goes around at the largest number.
    pub fn begin_fetch(&mut self) -> (r: u32)
        ensures
            counted(old(self)@, final(self)@, r),
    {
        proof {
            use_type_invariant(&*self);
        }
        self.fetch_count = self.fetch_count.wrapping_add(1);
        self.fetch_count
    }

    /// Take in the outcome of fetch number `count`. What was found, or that
    /// nothing was found, is remembered. A failure is remembered as absence
    /// where failures are tolerated; where they are not, the message of the
    /// failure is handed back and nothing changes.
    pub fn finish_fetch(
        &mut self,
        key: &LedgerKey,
        count: u32,
        outcome: Result<Option<FetchedEntry>, ForkError>,
    ) -> (r: Result<Option<FetchedEntry>, String>)
        ensures
            took_in(old(self)@, key@, count, outcome, final(self)@, r),
    {
        match outcome {
            Ok(Some(f)) => match self.set_entry(key, &f.entry, f.live_until) {
                Ok(_) => Ok(Some(f)),
                Err(e) => Err(e.to_text()),
            },
            Ok(None) => {
                self.remember(key, None);
                Ok(None)
            },
            Err(e) => {
                if self.fetch_mode == FetchMode::Lenient {
                    self.remember(key, None);
                    Ok(None)
                } else {
                    Err(
                        join4(
                            "soroban-fork: RPC fetch #",
                            u32_text(count).as_str(),
                            " failed (strict): ",
                            e.to_text().as_str(),
                        ),
                    )
                }
            },
        }
    }
}

// ---------------------------------------------------------------------------
// Writing back
// ---------------------------------------------------------------------------

/// The account entry that is known under an account's key, and the ledger up
/// to which it lives.
pub open spec fn known_account(known: Map<Seq<u8>, Option<Held>>, account: Seq<u8>) -> Option<
    (EntryView, Option<u32>),
> {
    match looked_up(known, account_key_xdr(account)) {
        Ok(LookupView::Hit(Some((e, live_until)))) => if e.data is Account {
            Some((e, live_until))
        } else {
            None
        },
        _ => None,
    }
}

/// An account entry with another sequence number.
pub open spec fn with_seq_num(e: EntryView, seq_num: i64) -> EntryView {
    EntryView { data: DataView::Account(AccountView { seq_num, ..e.data->Account_0 }), ..e }
}

/// An account entry reads back with any sequence number.
pub proof fn lemma_seq_num_reads_back(e: EntryView, seq_num: i64)
    requires
        writable(e),
        e.data is Account,
    ensures
        writable(with_seq_num(e, seq_num)),
        reads_back(with_seq_num(e, seq_num)),
{
    let a = e.data->Account_0;
    lemma_account_numbers(a, a.balance, seq_num);
    assert(AccountView { balance: a.balance, seq_num, ..a } == AccountView { seq_num, ..a });
    lemma_writable_reads_back(with_seq_num(e, seq_num));
}

/// The sequence number after the one of an account entry; it goes around at
/// the largest one.
pub open spec fn next_seq_num(e: EntryView) -> i64 {
    vstd::wrapping::i64_specs::wrapping_add(e.data->Account_0.seq_num, 1)
}

/// What is known after raising the sequence number of an account by one.
pub open spec fn bumped(known: Map<Seq<u8>, Option<Held>>, account: Seq<u8>) -> Map<
    Seq<u8>,
    Option<Held>,
> {
    match known_account(known, account) {
        None => known,
        Some((e, live_until)) => match entry_xdr(with_seq_num(e, next_seq_num(e))) {
            Ok(x) => known.insert(account_key_xdr(account), Some((x, live_until))),
            Err(_) => known,
        },
    }
}

/// Whether this is what becomes of what is known, and what is handed back,
/// when the sequence number of an account is raised.
pub open spec fn moved_on(before: SourceView, account: Seq<u8>, after: SourceView, r: Option<i64>) -> bool {
    &&& after == (SourceView { known: bumped(before.known, account), ..before })
    &&& match known_account(before.known, account) {
        None => r is None && after == before,
        Some((e, live_until)) => {
            let next = next_seq_num(e);
            &&& r == Some(next)
            &&& known_account(after.known, account) == Some((with_seq_num(e, next), live_until))
            &&& entry_xdr(with_seq_num(e, next)) matches Ok(x) && after == (SourceView {
                known: before.known.insert(account_key_xdr(account), Some((x, live_until))),
                ..before
            })
        },
    }
}

impl RpcSnapshotSource {
    /// Raise the sequence number of a known account by one, and give the new
    /// one. Nothing happens where the account is not known to exist, or where
    /// what is known under its key is no account. The number goes around at
    /// the largest one.
    pub fn bump_account_seq(&mut self, account_id: &[u8; 32]) -> (r: Option<i64>)
        ensures
            moved_on(old(self)@, account_id@, final(self)@, r),
    {
        let key = LedgerKey::account(account_id);
        let found = match self.get(&key) {
            Ok(Lookup::Hit(Some(f))) => f,
            _ => {
                return None;
            },
        };
        let ghost start = found.entry@;
        let live_until = found.live_until;
        match found.entry.data {
            LedgerEntryData::Account(account) => {
                let mut account = account;
                let next: i64 = account.seq_num.wrapping_add(1);
                account.seq_num = next;
                let entry = LedgerEntry {
                    last_modified_ledger_seq: found.entry.last_modified_ledger_seq,
                    data: LedgerEntryData::Account(account),
                    ext: found.entry.ext,
                };
                assert(entry@ =~= with_seq_num(start, next));
                proof {
                    lemma_seq_num_reads_back(start, next);
                }
                match self.set_entry(&key, &entry, live_until) {
                    Ok(_) => Some(next),
                    Err(_) => None,
                }
            },
            _ => None,
        }
    }

    fn live_until_of(&self, key: &LedgerKey) -> (r: Option<u32>)
        ensures
            r == kept_live_until(self@.known, key@, None),
    {
        match self.cache.get(key.as_xdr()) {
            Some(Some(c)) => c.live_until,
            _ => None,
        }
    }

    /// Take the writes of a transaction over. A change that only read is
    /// passed over, a new value is written over the old one, and a removed
    /// entry is known to be absent from then on. An entry that is known with
    /// a ledger up to which it lives keeps that. Where a key cannot be read,
    /// nothing changes. The result is the number of writes.
    pub fn apply_changes(&mut self, changes: &Vec<LedgerEntryChange>) -> (r: Result<u32, ForkError>)
        ensures
            applies(old(self)@, changes@, final(self)@, r),
    {
        let mut keys: Vec<Option<LedgerKey>> = Vec::new();
        let mut i: usize = 0;
        while i < changes.len()
            invariant
                i <= changes@.len(),
                keys@.len() == i,
                *self == *old(self),
                first_bad_key(changes@, 0) == first_bad_key(changes@, i as int),
                forall|j: int|
                    0 <= j < i ==> reads_key(changes@[j], #[trigger] keys@[j]),
            decreases changes@.len() - i,
        {
            if changes[i].read_only {
                keys.push(None);
            } else {
                match LedgerKey::from_xdr(changes[i].encoded_key.as_slice()) {
                    Ok(key) => keys.push(Some(key)),
                    Err(e) => {
                        return Err(
                            ForkError::Xdr(
                                join2("apply_changes: bad LedgerKey from host: ", e.as_str()),
                            ),
                        );
                    },
                }
            }
            i = i + 1;
        }
        let mut applied: u32 = 0;
        let mut n: usize = 0;
        assert(changes@.take(0) =~= Seq::<LedgerEntryChange>::empty());
        while n < changes.len()
            invariant
                n <= changes@.len(),
                keys@.len() == changes@.len(),
                forall|j: int|
                    0 <= j < changes@.len() ==> reads_key(changes@[j], #[trigger] keys@[j]),
                self@ == (SourceView {
                    known: changed_all(old(self)@.known, changes@.take(n as int)),
                    ..old(self)@
                }),
                applied == (if write_count(changes@.take(n as int)) <= u32::MAX {
                    write_count(changes@.take(n as int))
                } else {
                    u32::MAX as nat
                }),
            decreases changes@.len() - n,
        {
            assert(changes@.take(n + 1).drop_last() =~= changes@.take(n as int));
            assert(changes@.take(n + 1).last() == changes@[n as int]);
            let ghost known = self@.known;
            assert(reads_key(changes@[n as int], keys@[n as int]));
            if let Some(key) = &keys[n] {
                match &changes[n].encoded_new_value {
                    Some(xdr) => {
                        let live_until = match self.live_until_of(key) {
                            Some(l) => Some(l),
                            None => changes[n].new_live_until_ledger,
                        };
                        assert(live_until == kept_live_until(
                            known,
                            key@,
                            changes@[n as int].new_live_until_ledger,
                        ));
                        self.remember(key, Some(CachedEntry { xdr: copy_bytes(xdr), live_until }));
                    },
                    None => {
                        self.remember(key, None);
                    },
                }
                applied = applied.saturating_add(1);
            }
            n = n + 1;
        }
        assert(changes@.take(n as int) =~= changes@);
        Ok(applied)
    }

    /// Everything that is known to exist, in the order of the keys. What is
    /// known to be absent is left out. XDR that cannot be read is an error.
    pub fn entries(&self) -> (r: Result<Vec<LedgerRow>, ForkError>)
        ensures
            (match r {
                Ok(rows) => exports(self@.known, rows@) && can_be_loaded(rows@),
                Err(e) => exists|k: Seq<u8>|
                    #[trigger] self@.known.dom().contains(k) && (looked_up(self@.known, k) matches Err(m)
                        && e@ == ErrorView::Xdr(m)),
            }),
    {
        proof {
            use_type_invariant(self);
        }
        let n: usize = self.cache.len();
        let ghost rows = self.cache.row_seq();
        let mut out: Vec<LedgerRow> = Vec::new();
        let mut i: usize = 0;
        proof {
            lemma_gathered_nothing(self@.known, rows, out@);
        }
        while i < n
            invariant
                i <= n,
                n == rows.len(),
                rows == self.cache.row_seq(),
                ascending(rows),
                self.cache@ == rows_map(rows),
                keys_intact(self.cache@.dom()),
                gathered(self@.known, rows, i as int, out@),
            decreases n - i,
        {
            let row = self.cache.row(i);
            proof {
                lemma_row_in_map(rows, i as int);
            }
            match &row.value {
                Some(c) => {
                    match decode_entry(c.xdr.as_slice()) {
                        Ok(entry) => {
                            let key = LedgerKey::of_xdr(copy_bytes(&row.key));
                            proof {
                                lemma_gathered_before(self@.known, rows, i as int, out@);
                            }
                            let place = place_of(&out, &key);
                            let new_row = LedgerRow { key, entry, live_until: c.live_until };
                            proof {
                                lemma_gathered_row(
                                    self@.known,
                                    rows,
                                    i as int,
                                    out@,
                                    place as int,
                                    new_row,
                                );
                            }
                            out.insert(place, new_row);
                        },
                        Err(e) => {
                            assert(self@.known.dom().contains(row.key@));
                            return Err(e);
                        },
                    }
                },
                None => {
                    proof {
                        lemma_gathered_absence(self@.known, rows, i as int, out@);
                    }
                },
            }
            i = i + 1;
        }
        proof {
            lemma_gathered_all(rows, out@);
        }
        Ok(out)
    }
}

/// Whether no row has a key.
spec fn lacks(rows: Seq<LedgerRow>, key: Seq<u8>) -> bool {
    forall|i: int| 0 <= i < rows.len() ==> (#[trigger] rows[i]).key@ != key
}

/// Whether a key belongs before row number `place`.
spec fn belongs(rows: Seq<LedgerRow>, key: Seq<u8>, place: int) -> bool {
    &&& 0 <= place <= rows.len()
    &&& forall|k: int| 0 <= k < place ==> key_before(#[trigger] rows[k].key@, key)
    &&& forall|k: int| place <= k < rows.len() ==> key_before(key, #[trigger] rows[k].key@)
}

/// Where a key belongs among rows that are in the order of their keys.
fn place_of(rows: &Vec<LedgerRow>, key: &LedgerKey) -> (r: usize)
    requires
        in_key_order(rows@),
        lacks(rows@, key@),
    ensures
        belongs(rows@, key@, r as int),
{
    let mut low: usize = 0;
    let mut high: usize = rows.len();
    while low < high
        invariant
            low <= high <= rows@.len(),
            in_key_order(rows@),
            lacks(rows@, key@),
            forall|k: int| 0 <= k < low ==> key_before(#[trigger] rows@[k].key@, key@),
            forall|k: int| high <= k < rows@.len() ==> key_before(key@, #[trigger] rows@[k].key@),
        decreases high - low,
    {
        let mid: usize = low + (high - low) / 2;
        match key_order(rows[mid].key.as_xdr(), key.as_xdr()) {
            KeyOrder::Less => {
                low = mid + 1;
            },
            _ => {
                high = mid;
            },
        }
    }
    low
}

/// Whether a key is among the first `n` rows of the cache.
spec fn key_among(rows: Seq<Row<Option<CachedEntry>>>, n: int, key: Seq<u8>) -> bool {
    exists|j: int| 0 <= j < n && (#[trigger] rows[j]).key@ == key
}

/// Whether `out` is what the first `n` rows of the cache export.
#[verifier::opaque]
spec fn gathered(
    known: Map<Seq<u8>, Option<Held>>,
    rows: Seq<Row<Option<CachedEntry>>>,
    n: int,
    out: Seq<LedgerRow>,
) -> bool {
    &&& in_key_order(out)
    &&& distinct_keys(out)
    &&& can_be_loaded(out)
    &&& all_found(known, out)
    &&& forall|a: int| 0 <= a < out.len() ==> key_among(rows, n, (#[trigger] out[a]).key@)
    &&& forall|j: int|
        0 <= j < n && (#[trigger] rows[j]).value is Some ==> has_key(out, rows[j].key@)
}

proof fn lemma_gathered_nothing(
    known: Map<Seq<u8>, Option<Held>>,
    rows: Seq<Row<Option<CachedEntry>>>,
    out: Seq<LedgerRow>,
)
    requires
        out.len() == 0,
    ensures
        gathered(known, rows, 0, out),
{
    reveal(gathered);
}

/// What was gathered is in order, and has no key of a later row.
proof fn lemma_gathered_before(
    known: Map<Seq<u8>, Option<Held>>,
    rows: Seq<Row<Option<CachedEntry>>>,
    n: int,
    out: Seq<LedgerRow>,
)
    requires
        ascending(rows),
        0 <= n < rows.len(),
        gathered(known, rows, n, out),
    ensures
        in_key_order(out),
        lacks(out, rows[n].key@),
{
    reveal(gathered);
    assert forall|a: int| 0 <= a < out.len() implies (#[trigger] out[a]).key@ != rows[n].key@ by {
        let j = choose|j: int| 0 <= j < n && (#[trigger] rows[j]).key@ == out[a].key@;
        assert(before(rows[j].key@, rows[n].key@));
        lemma_before_irreflexive(rows[n].key@);
    }
}

/// A row that tells of an absence exports nothing.
proof fn lemma_gathered_absence(
    known: Map<Seq<u8>, Option<Held>>,
    rows: Seq<Row<Option<CachedEntry>>>,
    n: int,
    out: Seq<LedgerRow>,
)
    requires
        gathered(known, rows, n, out),
        0 <= n < rows.len(),
        rows[n].value is None,
    ensures
        gathered(known, rows, n + 1, out),
{
    reveal(gathered);
    assert forall|a: int| 0 <= a < out.len() implies key_among(rows, n + 1, (#[trigger] out[a]).key@) by {
        let j = choose|j: int| 0 <= j < n && (#[trigger] rows[j]).key@ == out[a].key@;
        assert(rows[j].key@ == out[a].key@);
    }
}

/// A row in its place keeps rows in order.
proof fn lemma_placed_in_order(rows: Seq<LedgerRow>, place: int, row: LedgerRow)
    requires
        belongs(rows, row.key@, place),
        in_key_order(rows),
    ensures
        in_key_order(rows.insert(place, row)),
{
    let after = rows.insert(place, row);
    rows.insert_ensures(place, row);
    assert forall|i: int, j: int| 0 <= i < j < after.len() implies key_before(
        #[trigger] after[i].key@,
        #[trigger] after[j].key@,
    ) by {
        if i != place {
            assert(after[i] == rows[old_place(place, i)]);
        }
        if j != place {
            assert(after[j] == rows[old_place(place, j)]);
        }
    }
}

/// A row with a new key keeps keys distinct.
proof fn lemma_placed_distinct(rows: Seq<LedgerRow>, place: int, row: LedgerRow)
    requires
        0 <= place <= rows.len(),
        lacks(rows, row.key@),
        distinct_keys(rows),
    ensures
        distinct_keys(rows.insert(place, row)),
{
    let after = rows.insert(place, row);
    rows.insert_ensures(place, row);
    assert forall|i: int, j: int| 0 <= i < j < after.len() implies #[trigger] after[i].key@
        != #[trigger] after[j].key@ by {
        if i != place {
            assert(after[i] == rows[old_place(place, i)]);
        }
        if j != place {
            assert(after[j] == rows[old_place(place, j)]);
        }
    }
}

/// The number that a row had before another was put in at `place`.
spec fn old_place(place: int, i: int) -> int {
    if i < place {
        i
    } else {
        i - 1
    }
}

/// A row that tells of an entry exports it.
proof fn lemma_gathered_row(
    known: Map<Seq<u8>, Option<Held>>,
    rows: Seq<Row<Option<CachedEntry>>>,
    n: int,
    out: Seq<LedgerRow>,
    place: int,
    row: LedgerRow,
)
    requires
        ascending(rows),
        gathered(known, rows, n, out),
        0 <= n < rows.len(),
        row.key@ == rows[n].key@,
        belongs(out, row.key@, place),
        reads_back(row.entry@),
        looked_up(known, row.key@) == Ok::<LookupView, Seq<char>>(
            LookupView::Hit(Some((row.entry@, row.live_until))),
        ),
    ensures
        gathered(known, rows, n + 1, out.insert(place, row)),
{
    lemma_gathered_before(known, rows, n, out);
    reveal(gathered);
    let after = out.insert(place, row);
    out.insert_ensures(place, row);
    lemma_placed_in_order(out, place, row);
    lemma_placed_distinct(out, place, row);
    assert forall|a: int| 0 <= a < after.len() && a != place implies #[trigger] after[a]
        == out[old_place(place, a)] by {}
    assert(can_be_loaded(after));
    assert(all_found(known, after));
    assert forall|a: int| 0 <= a < after.len() implies key_among(rows, n + 1, (#[trigger] after[a]).key@) by {
        if a == place {
            assert(rows[n].key@ == after[a].key@);
        } else {
            let b = old_place(place, a);
            assert(key_among(rows, n, out[b].key@));
            let j = choose|j: int| 0 <= j < n && (#[trigger] rows[j]).key@ == out[b].key@;
            assert(rows[j].key@ == after[a].key@);
        }
    }
    assert forall|j: int| 0 <= j < n + 1 && (#[trigger] rows[j]).value is Some implies has_key(
        after,
        rows[j].key@,
    ) by {
        if j == n {
            assert(after[place].key@ == rows[j].key@);
        } else {
            let a = choose|a: int| 0 <= a < out.len() && (#[trigger] out[a]).key@ == rows[j].key@;
            let b = if a < place {
                a
            } else {
                a + 1
            };
            assert(after[b] == out[a]);
        }
    }
}

/// What all rows of the cache export is everything that is known to exist.
proof fn lemma_gathered_all(rows: Seq<Row<Option<CachedEntry>>>, out: Seq<LedgerRow>)
    requires
        ascending(rows),
        gathered(known_map(rows_map(rows)), rows, rows.len() as int, out),
    ensures
        exports(known_map(rows_map(rows)), out),
        can_be_loaded(out),
{
    reveal(gathered);
    let known = known_map(rows_map(rows));
    assert forall|k: Seq<u8>| known.dom().contains(k) && known[k] is Some implies #[trigger] has_key(
        out,
        k,
    ) by {
        let j = choose|j: int| holds(rows, k, j);
        lemma_row_in_map(rows, j);
        assert(rows[j].value is Some);
    }
}

// ---------------------------------------------------------------------------
// Keys in messages
// ---------------------------------------------------------------------------

/// Shorten a strkey to its first and last four characters.
pub fn abbreviate(s: &str) -> (r: String)
    requires
        can_shorten(s@),
    ensures
        r@ == shortened(s@, "..."@),
{
    shorten(s, "...")
}

/// The shortened strkey of an account or contract.
pub open spec fn address_short(a: AddressView) -> Seq<char> {
    match a {
        AddressView::Account(k) => shortened(account_strkey_of(k), "..."@),
        AddressView::Contract(k) => shortened(contract_strkey_of(k), "..."@),
        AddressView::Other(_) => "???"@,
    }
}

/// The text of a key in messages.
pub open spec fn key_text(k: KeyParts) -> Seq<char> {
    match k {
        KeyParts::ContractData { contract, key, durability } => "ContractData("@ + address_short(contract)
            + ", "@ + (if key == instance_key_scval() {
            "instance"@
        } else if durability == Durability::Temporary {
            "temp"@
        } else {
            "persistent"@
        }) + ")"@,
        KeyParts::ContractCode(hash) => "ContractCode("@ + hex(hash.take(4)) + "...)"@,
        KeyParts::Account(id) => "Account("@ + shortened(account_strkey_of(id), "..."@) + ")"@,
        KeyParts::Trustline(id) => "Trustline("@ + shortened(account_strkey_of(id), "..."@) + ")"@,
        KeyParts::ConfigSetting => "ConfigSetting"@,
        KeyParts::Ttl => "Ttl"@,
        KeyParts::Other => "Other"@,
    }
}

fn account_id_short(id: &[u8; 32]) -> (r: String)
    ensures
        r@ == shortened(account_strkey_of(id@), "..."@),
{
    let full = account_strkey(id);
    proof {
        lemma_shortened_ascii(full@, "..."@);
    }
    abbreviate(full.as_str())
}

fn sc_address_short(addr: &ScAddress) -> (r: String)
    ensures
        r@ == address_short(addr@),
{
    match addr {
        ScAddress::Account(k) => account_id_short(k),
        ScAddress::Contract(k) => {
            let full = contract_strkey(k);
            proof {
                lemma_shortened_ascii(full@, "..."@);
            }
            abbreviate(full.as_str())
        },
        ScAddress::Other(_) => "???".to_owned(),
    }
}

/// Whether some XDR is the value that stands for a contract's own instance
/// entry.
fn is_instance_key(key: &Vec<u8>) -> (r: bool)
    ensures
        r == (key@ == instance_key_scval()),
{
    let r = key.len() == 4 && key[0] == 0 && key[1] == 0 && key[2] == 0 && key[3] == 20;
    proof {
        assert(instance_key_scval() =~= seq![0u8, 0u8, 0u8, 20u8]);
        if r {
            assert(key@ =~= instance_key_scval());
        }
    }
    r
}

/// A key as it is shown in messages.
pub fn key_display(key: &LedgerKey) -> (r: String)
    ensures
        r@ == key_text(key_parts_of(key@)),
{
    let xdr = key.as_xdr();
    let kind = key_kind(xdr);
    if kind == KeyKind::ContractData {
        let parts = key_storage(xdr);
        let (contract, storage_key, durability) = parts.unwrap();
        join5(
            "ContractData(",
            sc_address_short(&contract).as_str(),
            ", ",
            if is_instance_key(&storage_key) {
                "instance"
            } else if durability == Durability::Temporary {
                "temp"
            } else {
                "persistent"
            },
            ")",
        )
    } else if kind == KeyKind::ContractCode {
        let hash = key_hash(xdr);
        let hash = hash.unwrap();
        let head = vstd::slice::slice_subrange(hash.as_slice(), 0, 4);
        assert(head@ =~= hash@.take(4));
        join3("ContractCode(", hex_encode(head).as_str(), "...)")
    } else if kind == KeyKind::Account {
        let id = key_owner(xdr);
        join3("Account(", account_id_short(&id.unwrap()).as_str(), ")")
    } else if kind == KeyKind::Trustline {
        let id = key_owner(xdr);
        join3("Trustline(", account_id_short(&id.unwrap()).as_str(), ")")
    } else if kind == KeyKind::ConfigSetting {
        "ConfigSetting".to_owned()
    } else if kind == KeyKind::Ttl {
        "Ttl".to_owned()
    } else {
        "Other".to_owned()
    }
}

// ---------------------------------------------------------------------------
// Laws
// ---------------------------------------------------------------------------

/// What has been remembered of a key, be it an entry or its absence, answers
/// every later lookup: the network is not asked again.
pub proof fn law_known_keys_are_local(known: Map<Seq<u8>, Option<Held>>, key: Seq<u8>, value: Option<Held>)
    ensures
        looked_up(known.insert(key, value), key) != Ok::<LookupView, Seq<char>>(LookupView::Miss),
        value is None ==> looked_up(known.insert(key, value), key) == Ok::<LookupView, Seq<char>>(
            LookupView::Hit(None),
        ),
{
}

/// Writing one key leaves every other key as it was.
pub proof fn law_writes_touch_one_key(
    known: Map<Seq<u8>, Option<Held>>,
    key: Seq<u8>,
    value: Option<Held>,
    other: Seq<u8>,
)
    requires
        other != key,
    ensures
        looked_up(known.insert(key, value), other) == looked_up(known, other),
{
}

/// A transaction leaves every key that it does not write as it was.
pub proof fn law_changes_touch_written_keys(
    known: Map<Seq<u8>, Option<Held>>,
    changes: Seq<LedgerEntryChange>,
    key: Seq<u8>,
)
    requires
        forall|i: int|
            0 <= i < changes.len() && !(#[trigger] changes[i]).read_only ==> canonical_key_of(
                changes[i].encoded_key@,
            ) != intact(key),
        first_bad_key(changes, 0) is None,
    ensures
        looked_up(changed_all(known, changes), key) == looked_up(known, key),
{
    lemma_good_keys(changes, 0);
    lemma_changes_touch_written_keys(known, changes, key);
}

/// Of the writes to one key the last one counts, whatever was known of the
/// key before: its value is what a lookup reads, and a removed entry is known
/// to be absent.
pub proof fn law_last_write_is_known(
    known: Map<Seq<u8>, Option<Held>>,
    changes: Seq<LedgerEntryChange>,
    i: int,
    key: Seq<u8>,
)
    requires
        first_bad_key(changes, 0) is None,
        0 <= i < changes.len(),
        !changes[i].read_only,
        canonical_key_of(changes[i].encoded_key@) == intact(key),
        forall|j: int|
            i < j < changes.len() && !(#[trigger] changes[j]).read_only ==> canonical_key_of(
                changes[j].encoded_key@,
            ) != intact(key),
    ensures
        changed_all(known, changes).dom().contains(key),
        changes[i].encoded_new_value is None ==> changed_all(known, changes)[key] is None && looked_up(
            changed_all(known, changes),
            key,
        ) == Ok::<LookupView, Seq<char>>(LookupView::Hit(None)),
        changes[i].encoded_new_value matches Some(x) ==> (changed_all(known, changes)[key] matches Some(
            (bytes, live_until),
        ) && bytes == x@ && (decoded_entry(x@) matches Ok(e) ==> looked_up(
            changed_all(known, changes),
            key,
        ) == Ok::<LookupView, Seq<char>>(LookupView::Hit(Some((e, live_until)))))),
{
    lemma_good_keys(changes, 0);
    lemma_last_write(known, changes, i, key);
}

/// A written entry lives up to the ledger that was known of it before the
/// write, and where none was known, up to the one that the write names.
pub proof fn law_written_entries_keep_their_lifetime(
    known: Map<Seq<u8>, Option<Held>>,
    change: LedgerEntryChange,
    key: Seq<u8>,
)
    requires
        !change.read_only,
        change.encoded_new_value is Some,
        canonical_key_of(change.encoded_key@) == intact(key),
    ensures
        changed_all(known, seq![change])[key] matches Some((_, live_until)) && {
            &&& known.dom().contains(key) && (known[key] matches Some((_, Some(l)))) ==> live_until
                == (known[key]->0).1
            &&& known.dom().contains(key) && (known[key] matches Some((_, None))) ==> live_until
                == change.new_live_until_ledger
            &&& known.dom().contains(key) && known[key] is None ==> live_until
                == change.new_live_until_ledger
            &&& !known.dom().contains(key) ==> live_until == change.new_live_until_ledger
        },
{
    let changes = seq![change];
    assert(changes.drop_last() =~= Seq::empty());
    assert(changes.last() == change);
    reveal_with_fuel(changed_all, 2);
}

/// What two lists of changes do one after the other, they do as one list.
pub proof fn law_changes_add_up(
    known: Map<Seq<u8>, Option<Held>>,
    first: Seq<LedgerEntryChange>,
    second: Seq<LedgerEntryChange>,
)
    ensures
        changed_all(changed_all(known, first), second) == changed_all(known, first + second),
        write_count(first + second) == write_count(first) + write_count(second),
    decreases second.len(),
{
    if second.len() == 0 {
        assert(first + second =~= first);
    } else {
        law_changes_add_up(known, first, second.drop_last());
        assert((first + second).drop_last() =~= first + second.drop_last());
        assert((first + second).last() == second.last());
    }
}

/// Each change counts once where it writes.
pub proof fn law_writes_are_counted(changes: Seq<LedgerEntryChange>)
    ensures
        write_count(changes) == changes.filter(|c: LedgerEntryChange| !c.read_only).len(),
    decreases changes.len(),
{
    reveal(Seq::filter);
    if changes.len() > 0 {
        law_writes_are_counted(changes.drop_last());
    }
}

proof fn lemma_last_write(
    known: Map<Seq<u8>, Option<Held>>,
    changes: Seq<LedgerEntryChange>,
    i: int,
    key: Seq<u8>,
)
    requires
        0 <= i < changes.len(),
        !changes[i].read_only,
        canonical_key_of(changes[i].encoded_key@) == intact(key),
        forall|j: int|
            i < j < changes.len() && !(#[trigger] changes[j]).read_only ==> canonical_key_of(
                changes[j].encoded_key@,
            ) != intact(key) && canonical_key_of(changes[j].encoded_key@) is Ok,
    ensures
        changed_all(known, changes).dom().contains(key),
        match changes[i].encoded_new_value {
            None => changed_all(known, changes)[key] is None,
            Some(x) => changed_all(known, changes)[key] matches Some((bytes, _)) && bytes == x@,
        },
    decreases changes.len(),
{
    let rest = changes.drop_last();
    let c = changes[changes.len() - 1];
    assert(c == changes.last());
    if i < rest.len() {
        assert forall|j: int| i < j < rest.len() && !(#[trigger] rest[j]).read_only implies canonical_key_of(
            rest[j].encoded_key@,
        ) != intact(key) && canonical_key_of(rest[j].encoded_key@) is Ok by {
            assert(rest[j] == changes[j]);
        }
        assert(rest[i] == changes[i]);
        lemma_last_write(known, rest, i, key);
    }
}

proof fn lemma_good_keys(changes: Seq<LedgerEntryChange>, from: int)
    requires
        0 <= from <= changes.len(),
        first_bad_key(changes, from) is None,
    ensures
        forall|i: int|
            from <= i < changes.len() && !(#[trigger] changes[i]).read_only ==> canonical_key_of(
                changes[i].encoded_key@,
            ) is Ok,
    decreases changes.len() - from,
{
    if from < changes.len() {
        lemma_good_keys(changes, from + 1);
    }
}

proof fn lemma_changes_touch_written_keys(
    known: Map<Seq<u8>, Option<Held>>,
    changes: Seq<LedgerEntryChange>,
    key: Seq<u8>,
)
    requires
        forall|i: int|
            0 <= i < changes.len() && !(#[trigger] changes[i]).read_only ==> canonical_key_of(
                changes[i].encoded_key@,
            ) != intact(key) && canonical_key_of(changes[i].encoded_key@) is Ok,
    ensures
        looked_up(changed_all(known, changes), key) == looked_up(known, key),
    decreases changes.len(),
{
    if changes.len() > 0 {
        let rest = changes.drop_last();
        assert forall|i: int|
            0 <= i < rest.len() && !(#[trigger] rest[i]).read_only implies canonical_key_of(
            rest[i].encoded_key@,
        ) != intact(key) && canonical_key_of(rest[i].encoded_key@) is Ok by {
            assert(rest[i] == changes[i]);
        }
        lemma_changes_touch_written_keys(known, rest, key);
        let c = changes[changes.len() - 1];
        assert(c == changes.last());
    }
}

/// A transaction that only reads changes nothing.
pub proof fn law_reads_change_nothing(
    known: Map<Seq<u8>, Option<Held>>,
    changes: Seq<LedgerEntryChange>,
)
    requires
        forall|i: int| 0 <= i < changes.len() ==> (#[trigger] changes[i]).read_only,
    ensures
        changed_all(known, changes) == known,
        write_count(changes) == 0,
    decreases changes.len(),
{
    if changes.len() > 0 {
        let rest = changes.drop_last();
        assert forall|i: int| 0 <= i < rest.len() implies (#[trigger] rest[i]).read_only by {
            assert(rest[i] == changes[i]);
        }
        law_reads_change_nothing(known, rest);
        assert(changes.last() == changes[changes.len() - 1]);
    }
}

/// Loading rows leaves every key that is not among them as it was.
pub proof fn law_loading_touches_loaded_keys(
    known: Map<Seq<u8>, Option<Held>>,
    rows: Seq<RowView>,
    key: Seq<u8>,
)
    requires
        forall|i: int| 0 <= i < rows.len() ==> (#[trigger] rows[i]).key != key,
    ensures
        loaded(known, rows).dom().contains(key) == known.dom().contains(key),
        known.dom().contains(key) ==> loaded(known, rows)[key] == known[key],
        looked_up(loaded(known, rows), key) == looked_up(known, key),
    decreases rows.len(),
{
    if rows.len() > 0 {
        let rest = rows.drop_last();
        assert forall|i: int| 0 <= i < rest.len() implies (#[trigger] rest[i]).key != key by {
            assert(rest[i] == rows[i]);
        }
        law_loading_touches_loaded_keys(known, rest, key);
        assert(rows.last() == rows[rows.len() - 1]);
    }
}

/// A loaded row is what is known of its key from then on, unless a later row
/// has the same key.
pub proof fn law_loaded_rows_are_known(known: Map<Seq<u8>, Option<Held>>, rows: Seq<RowView>, i: int)
    requires
        0 <= i < rows.len(),
        forall|j: int| i < j < rows.len() ==> (#[trigger] rows[j]).key != rows[i].key,
    ensures
        loaded(known, rows).dom().contains(rows[i].key),
        loaded(known, rows)[rows[i].key] == Some(
            (entry_xdr(rows[i].entry)->Ok_0, rows[i].live_until),
        ),
    decreases rows.len(),
{
    assert(rows.last() == rows[rows.len() - 1]);
    if i < rows.len() - 1 {
        let rest = rows.drop_last();
        assert(rest[i] == rows[i]);
        assert forall|j: int| i < j < rest.len() implies (#[trigger] rest[j]).key != rest[i].key by {
            assert(rest[j] == rows[j]);
        }
        law_loaded_rows_are_known(known, rest, i);
    }
}

/// What was exported and is loaded elsewhere is found there as it was found
/// before. What was known to be absent, or not known at all, is asked for
/// again.
pub proof fn law_exported_entries_load_back(
    known: Map<Seq<u8>, Option<Held>>,
    rows: Seq<LedgerRow>,
    key: Seq<u8>,
)
    requires
        exports(known, rows),
        can_be_loaded(rows),
    ensures
        looked_up(loaded(Map::empty(), rows_view(rows)), key) == (if known.dom().contains(key)
            && known[key] is Some {
            looked_up(known, key)
        } else {
            Ok(LookupView::Miss)
        }),
{
    let views = rows_view(rows);
    let fresh = Map::<Seq<u8>, Option<Held>>::empty();
    if known.dom().contains(key) && known[key] is Some {
        assert(has_key(rows, key));
        let i = choose|i: int| 0 <= i < rows.len() && (#[trigger] rows[i]).key@ == key;
        assert(views[i] == rows[i]@);
        assert forall|j: int| i < j < views.len() implies (#[trigger] views[j]).key != views[i].key by {
            assert(views[j] == rows[j]@);
            assert(rows[i].key@ != rows[j].key@);
        }
        law_loaded_rows_are_known(fresh, views, i);
        assert(reads_back(rows[i].entry@));
    } else {
        assert forall|i: int| 0 <= i < views.len() implies (#[trigger] views[i]).key != key by {
            assert(views[i] == rows[i]@);
            assert(looked_up(known, rows[i].key@) is Ok);
        }
        law_loading_touches_loaded_keys(fresh, views, key);
    }
}

/// A lookup tells what is known of a key: that nothing is, that there is no
/// entry, or the entry and how long it lives.
pub proof fn law_lookups_tell_what_is_known(known: Map<Seq<u8>, Option<Held>>, key: Seq<u8>)
    ensures
        looked_up(known, key) == Ok::<LookupView, Seq<char>>(LookupView::Miss) <==> !known.dom().contains(key),
        looked_up(known, key) == Ok::<LookupView, Seq<char>>(LookupView::Hit(None)) <==> known.dom().contains(
            key,
        ) && known[key] is None,
        known.dom().contains(key) ==> (known[key] matches Some((x, live_until)) ==> (match decoded_entry(x) {
            Ok(e) => looked_up(known, key) == Ok::<LookupView, Seq<char>>(
                LookupView::Hit(Some((e, live_until))),
            ),
            Err(m) => looked_up(known, key) == Err::<LookupView, Seq<char>>(m),
        })),
{
}

/// Raising the sequence number of a known account adds one to it and changes
/// nothing else, neither of the account nor of what is known of other keys.
pub proof fn law_sequence_numbers_go_up_by_one(
    known: Map<Seq<u8>, Option<Held>>,
    account: Seq<u8>,
    e: EntryView,
    a: AccountView,
    live_until: Option<u32>,
    other: Seq<u8>,
)
    requires
        looked_up(known, account_key_xdr(account)) == Ok::<LookupView, Seq<char>>(
            LookupView::Hit(Some((e, live_until))),
        ),
        e.data == DataView::Account(a),
        a.seq_num < i64::MAX,
        writable(e),
        other != account_key_xdr(account),
    ensures
        looked_up(bumped(known, account), account_key_xdr(account)) == Ok::<LookupView, Seq<char>>(
            LookupView::Hit(
                Some(
                    (
                        EntryView {
                            last_modified_ledger_seq: e.last_modified_ledger_seq,
                            data: DataView::Account(
                                AccountView { seq_num: (a.seq_num + 1) as i64, ..a },
                            ),
                            ext: e.ext,
                        },
                        live_until,
                    ),
                ),
            ),
        ),
        looked_up(bumped(known, account), other) == looked_up(known, other),
{
    lemma_seq_num_reads_back(e, next_seq_num(e));
}

/// Only an account has a sequence number to raise.
pub proof fn law_only_known_accounts_are_raised(known: Map<Seq<u8>, Option<Held>>, account: Seq<u8>)
    requires
        !(looked_up(known, account_key_xdr(account)) matches Ok(LookupView::Hit(Some((e, _)))) && e.data is Account),
    ensures
        bumped(known, account) == known,
{
}

/// A key is told by its kind and by whom or what it is about.
pub proof fn law_keys_tell_what_they_are_about(
    contract: Seq<u8>,
    key: Seq<u8>,
    durability: Durability,
    hash: Seq<u8>,
    account: Seq<u8>,
)
    ensures
        ({
            let text = key_text(
                KeyParts::ContractData { contract: AddressView::Contract(contract), key, durability },
            );
            let head = "ContractData("@ + shortened(contract_strkey_of(contract), "..."@) + ", "@;
            &&& key == instance_key_scval() ==> text == head + "instance"@ + ")"@
            &&& key != instance_key_scval() && durability == Durability::Temporary ==> text == head + "temp"@
                + ")"@
            &&& key != instance_key_scval() && durability == Durability::Persistent ==> text == head
                + "persistent"@ + ")"@
        }),
        key_text(KeyParts::ContractCode(hash)) == "ContractCode("@ + hex(hash.take(4)) + "...)"@,
        key_text(KeyParts::Account(account)) == "Account("@ + shortened(
            account_strkey_of(account),
            "..."@,
        ) + ")"@,
        key_text(KeyParts::Trustline(account)) == "Trustline("@ + shortened(
            account_strkey_of(account),
            "..."@,
        ) + ")"@,
        key_text(KeyParts::ConfigSetting) == "ConfigSetting"@,
        key_text(KeyParts::Ttl) == "Ttl"@,
        key_text(KeyParts::Other) == "Other"@,
{
}

/// What a fetch found is known from then on, and handed back; and so is that
/// it found nothing. Only the key that was fetched is touched, and nothing is
/// fetched again that is known.
pub proof fn law_fetched_entries_are_known(
    before: SourceView,
    key: Seq<u8>,
    count: u32,
    found: Option<FetchedEntry>,
    after: SourceView,
    r: Result<Option<FetchedEntry>, String>,
    other: Seq<u8>,
)
    requires
        took_in(before, key, count, Ok(found), after, r),
        found matches Some(f) ==> bare(f.entry@),
        other != key,
    ensures
        r == Ok::<Option<FetchedEntry>, String>(found),
        found matches Some(f) ==> looked_up(after.known, key) == Ok::<LookupView, Seq<char>>(
            LookupView::Hit(Some((f.entry@, f.live_until))),
        ),
        found is None ==> looked_up(after.known, key) == Ok::<LookupView, Seq<char>>(LookupView::Hit(None)),
        looked_up(after.known, other) == looked_up(before.known, other),
        after.fetch_count == before.fetch_count,
        after.fetch_mode == before.fetch_mode,
{
}

/// A fetch that failed ends the call and leaves what is known as it was, or,
/// where failures are tolerated, makes the key known to be absent.
pub proof fn law_failed_fetches_end_the_call(
    before: SourceView,
    key: Seq<u8>,
    count: u32,
    e: ForkError,
    after: SourceView,
    r: Result<Option<FetchedEntry>, String>,
)
    requires
        took_in(before, key, count, Err(e), after, r),
    ensures
        before.fetch_mode == FetchMode::Strict ==> r is Err && after == before,
        before.fetch_mode == FetchMode::Lenient ==> r == Ok::<Option<FetchedEntry>, String>(None)
            && looked_up(after.known, key) == Ok::<LookupView, Seq<char>>(LookupView::Hit(None)),
{
}

/// What is written is what a lookup then reads.
pub proof fn law_written_entries_are_known(
    before: SourceView,
    key: Seq<u8>,
    entry: EntryView,
    live_until: Option<u32>,
    after: SourceView,
    r: Result<(), ForkError>,
    other: Seq<u8>,
)
    requires
        wrote(before, key, entry, live_until, after, r),
        reads_back(entry),
        other != key,
    ensures
        r is Ok,
        looked_up(after.known, key) == Ok::<LookupView, Seq<char>>(
            LookupView::Hit(Some((entry, live_until))),
        ),
        looked_up(after.known, other) == looked_up(before.known, other),
        after.fetch_count == before.fetch_count,
{
}

/// Taking over the writes of a transaction makes the last write to each key
/// known, tells how many there were, and fails before anything changes where
/// the key of a write cannot be read.
pub proof fn law_applied_changes_are_known(
    before: SourceView,
    changes: Seq<LedgerEntryChange>,
    after: SourceView,
    r: Result<u32, ForkError>,
    i: int,
    key: Seq<u8>,
)
    requires
        applies(before, changes, after, r),
        0 <= i < changes.len(),
        !changes[i].read_only,
    ensures
        canonical_key_of(changes[i].encoded_key@) is Err ==> r is Err,
        r is Err ==> after == before,
        (forall|j: int|
            0 <= j < changes.len() && !(#[trigger] changes[j]).read_only ==> canonical_key_of(
                changes[j].encoded_key@,
            ) is Ok) ==> r is Ok,
        r matches Ok(n) ==> n == ({
            let writes = changes.filter(|c: LedgerEntryChange| !c.read_only).len();
            if writes <= u32::MAX {
                writes
            } else {
                u32::MAX as nat
            }
        }),
        r is Ok && canonical_key_of(changes[i].encoded_key@) == intact(key) && (forall|j: int|
            i < j < changes.len() && !(#[trigger] changes[j]).read_only ==> canonical_key_of(
                changes[j].encoded_key@,
            ) != intact(key)) ==> after.known.dom().contains(key) && (match changes[i].encoded_new_value {
            None => after.known[key] is None,
            Some(x) => after.known[key] matches Some((bytes, _)) && bytes == x@,
        }),
        after.fetch_count == before.fetch_count,
{
    law_writes_are_counted(changes);
    if canonical_key_of(changes[i].encoded_key@) is Err {
        lemma_bad_key_found(changes, 0, i);
    }
    if forall|j: int|
        0 <= j < changes.len() && !(#[trigger] changes[j]).read_only ==> canonical_key_of(
            changes[j].encoded_key@,
        ) is Ok {
        lemma_no_bad_key(changes, 0);
    }
    if r is Ok && canonical_key_of(changes[i].encoded_key@) == intact(key) && (forall|j: int|
        i < j < changes.len() && !(#[trigger] changes[j]).read_only ==> canonical_key_of(
            changes[j].encoded_key@,
        ) != intact(key)) {
        law_last_write_is_known(before.known, changes, i, key);
    }
}

proof fn lemma_no_bad_key(changes: Seq<LedgerEntryChange>, from: int)
    requires
        0 <= from,
        forall|j: int|
            0 <= j < changes.len() && !(#[trigger] changes[j]).read_only ==> canonical_key_of(
                changes[j].encoded_key@,
            ) is Ok,
    ensures
        first_bad_key(changes, from) is None,
    decreases changes.len() - from,
{
    if from < changes.len() {
        lemma_no_bad_key(changes, from + 1);
    }
}

proof fn lemma_bad_key_found(changes: Seq<LedgerEntryChange>, from: int, i: int)
    requires
        0 <= from <= i < changes.len(),
        !changes[i].read_only,
        canonical_key_of(changes[i].encoded_key@) is Err,
    ensures
        first_bad_key(changes, from) is Some,
    decreases i - from,
{
    if from < i {
        lemma_bad_key_found(changes, from + 1, i);
    }
}

/// Every fetch has a number of its own, one more than the fetch before.
pub proof fn law_fetches_are_counted(before: SourceView, after: SourceView, r: u32)
    requires
        counted(before, after, r),
    ensures
        before.fetch_count < u32::MAX ==> r == before.fetch_count + 1,
        after.fetch_count == r,
        after.known == before.known,
        after.fetch_mode == before.fetch_mode,
{
}

/// Raising the sequence number of an account hands the new number back, and
/// nothing where there is no account.
pub proof fn law_new_sequence_numbers_are_told(
    before: SourceView,
    account: Seq<u8>,
    after: SourceView,
    r: Option<i64>,
    e: EntryView,
    a: AccountView,
    live_until: Option<u32>,
)
    requires
        moved_on(before, account, after, r),
        looked_up(before.known, account_key_xdr(account)) == Ok::<LookupView, Seq<char>>(
            LookupView::Hit(Some((e, live_until))),
        ),
    ensures
        e.data == DataView::Account(a) && a.seq_num < i64::MAX ==> r == Some((a.seq_num + 1) as i64)
            && looked_up(after.known, account_key_xdr(account)) == Ok::<LookupView, Seq<char>>(
            LookupView::Hit(
                Some(
                    (
                        EntryView {
                            data: DataView::Account(
                                AccountView { seq_num: (a.seq_num + 1) as i64, ..a },
                            ),
                            ..e
                        },
                        live_until,
                    ),
                ),
            ),
        ),
        !(e.data is Account) ==> r is None && after == before,
        after.fetch_count == before.fetch_count,
{
}

/// What is exported is in the order of the keys, each key once, and each row
/// is what a lookup finds.
pub proof fn law_exports_are_in_key_order(
    known: Map<Seq<u8>, Option<Held>>,
    rows: Seq<LedgerRow>,
    i: int,
    j: int,
)
    requires
        exports(known, rows),
        0 <= i < j < rows.len(),
    ensures
        key_order_of(rows[i].key@, rows[j].key@) == KeyOrder::Less,
        rows[i].key@ != rows[j].key@,
        looked_up(known, rows[i].key@) == Ok::<LookupView, Seq<char>>(
            LookupView::Hit(Some((rows[i].entry@, rows[i].live_until))),
        ),
{
}

/// A key that was made for something is told as such.
pub proof fn law_made_keys_are_told(
    account: [u8; 32],
    a: LedgerKey,
    a_text: String,
    asset: TrustLineAsset,
    t: LedgerKey,
    t_text: String,
    hash: [u8; 32],
    c: LedgerKey,
    c_text: String,
)
    requires
        call_ensures(LedgerKey::account, (&account,), a),
        call_ensures(key_display, (&a,), a_text),
        call_ensures(LedgerKey::trustline, (&account, &asset), t),
        call_ensures(key_display, (&t,), t_text),
        call_ensures(LedgerKey::contract_code, (&hash,), c),
        call_ensures(key_display, (&c,), c_text),
    ensures
        a_text@ == "Account("@ + shortened(account_strkey_of(account@), "..."@) + ")"@,
        t_text@ == "Trustline("@ + shortened(account_strkey_of(account@), "..."@) + ")"@,
        c_text@ == "ContractCode("@ + hex(hash@.take(4)) + "...)"@,
{
}

/// A lookup hands back what is known of a key, and nothing else.
pub proof fn law_lookups_hand_back_what_is_known(
    s: RpcSnapshotSource,
    key: LedgerKey,
    r: Result<Lookup, ForkError>,
    x: Seq<u8>,
    e: EntryView,
    live_until: Option<u32>,
)
    requires
        call_ensures(RpcSnapshotSource::get, (&s, &key), r),
    ensures
        !s@.known.dom().contains(key@) ==> r == Ok::<Lookup, ForkError>(Lookup::Miss),
        s@.known.dom().contains(key@) && s@.known[key@] is None ==> r == Ok::<Lookup, ForkError>(
            Lookup::Hit(None),
        ),
        s@.known.dom().contains(key@) && s@.known[key@] == Some((x, live_until)) && decoded_entry(x) == Ok::<
            EntryView,
            Seq<char>,
        >(e) ==> (r matches Ok(Lookup::Hit(Some(f))) && f.entry@ == e && f.live_until == live_until),
{
}

} // verus!
