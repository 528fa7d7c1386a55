//! The snapshot that keeps what a fork fetched: what it holds, and the file
//! it is written to before it takes the place of the old one.

use vstd::prelude::*;

use crate::fork::LedgerInfo;
use crate::source::LedgerRow;
use crate::text::{decimal, digit_char, join2, join5, law_decimals_differ, u128_text, u32_text};

verus! {

/// The base reserve that a fork reports and a snapshot holds.
pub const DEFAULT_BASE_RESERVE: u32 = 100;

/// The least time to live of a persistent entry, in ledgers.
pub const DEFAULT_MIN_PERSISTENT_ENTRY_TTL: u32 = 4_096;

/// The least time to live of a temporary entry, in ledgers.
pub const DEFAULT_MIN_TEMP_ENTRY_TTL: u32 = 16;

/// The greatest time to live of an entry, in ledgers.
pub const DEFAULT_MAX_ENTRY_TTL: u32 = 6_312_000;

/// A snapshot of a ledger.
#[derive(Debug)]
pub struct Snapshot {
    pub ledger: LedgerInfo,
    pub rows: Vec<LedgerRow>,
}

/// What is known of a ledger when its reserve and times to live are the
/// usual ones.
pub open spec fn usual_ledger(i: LedgerInfo) -> bool {
    &&& i.base_reserve == DEFAULT_BASE_RESERVE
    &&& i.min_persistent_entry_ttl == DEFAULT_MIN_PERSISTENT_ENTRY_TTL
    &&& i.min_temp_entry_ttl == DEFAULT_MIN_TEMP_ENTRY_TTL
    &&& i.max_entry_ttl == DEFAULT_MAX_ENTRY_TTL
}

/// A ledger with the usual reserve and times to live.
pub fn usual_ledger_info(
    sequence: u32,
    timestamp: u64,
    network_id: [u8; 32],
    protocol_version: u32,
) -> (r: LedgerInfo)
    ensures
        usual_ledger(r),
        r.sequence_number == sequence,
        r.timestamp == timestamp,
        r.network_id == network_id,
        r.protocol_version == protocol_version,
{
    LedgerInfo {
        protocol_version,
        sequence_number: sequence,
        timestamp,
        network_id,
        base_reserve: DEFAULT_BASE_RESERVE,
        min_persistent_entry_ttl: DEFAULT_MIN_PERSISTENT_ENTRY_TTL,
        min_temp_entry_ttl: DEFAULT_MIN_TEMP_ENTRY_TTL,
        max_entry_ttl: DEFAULT_MAX_ENTRY_TTL,
    }
}

/// The name of the file that a snapshot is first written to.
pub open spec fn tmp_name_of(filename: Option<Seq<char>>, pid: u32, nanos: u128) -> Seq<char> {
    "."@ + (match filename {
        Some(n) => n,
        None => "snapshot"@,
    }) + ".tmp."@ + decimal(pid as int) + "."@ + decimal(nanos as int)
}

/// The name of the file that a snapshot is first written to, in the directory
/// of the file whose place it takes: hidden, and different for each process
/// and time. A file without a readable name counts as `snapshot`.
pub fn tmp_name(filename: Option<&str>, pid: u32, nanos: u128) -> (r: String)
    ensures
        r@ == tmp_name_of(
            match filename {
                Some(n) => Some(n@),
                None => None,
            },
            pid,
            nanos,
        ),
{
    let name = match filename {
        Some(n) => n,
        None => "snapshot",
    };
    let front = join5(".", name, ".tmp.", u32_text(pid).as_str(), ".");
    join2(front.as_str(), u128_text(nanos).as_str())
}

/// The file that a snapshot is written to first is hidden, lies beside the
/// one that it is for, and is another one for every process and moment.
pub proof fn law_temporary_names_differ(
    filename: Option<Seq<char>>,
    pid1: u32,
    nanos1: u128,
    pid2: u32,
    nanos2: u128,
)
    ensures
        tmp_name_of(filename, pid1, nanos1)[0] == '.',
        tmp_name_of(filename, pid1, nanos1) == tmp_name_of(filename, pid2, nanos2) ==> pid1 == pid2 && nanos1
            == nanos2,
        filename matches Some(n) ==> tmp_name_of(filename, pid1, nanos1).subrange(1, 1int + n.len()) == n,
{
    reveal_strlit(".");
    let a = tmp_name_of(filename, pid1, nanos1);
    let head = "."@ + (match filename {
        Some(n) => n,
        None => "snapshot"@,
    }) + ".tmp."@;
    let p = decimal(pid1 as int);
    let q = decimal(pid2 as int);
    let m = decimal(nanos1 as int);
    let n = decimal(nanos2 as int);
    assert(a =~= head + p + "."@ + m);
    assert(a[0] == "."@[0]);
    if let Some(name) = filename {
        assert(a.subrange(1, 1int + name.len()) =~= name);
    }
    if a == tmp_name_of(filename, pid2, nanos2) {
        let b = head + q + "."@ + n;
        assert(a =~= b);
        lemma_all_digits(pid1 as nat);
        lemma_all_digits(pid2 as nat);
        if p.len() < q.len() {
            assert(a[(head.len() + p.len()) as int] == '.');
            assert(b[(head.len() + p.len()) as int] == q[p.len() as int]);
        } else if q.len() < p.len() {
            assert(b[(head.len() + q.len()) as int] == '.');
            assert(a[(head.len() + q.len()) as int] == p[q.len() as int]);
        }
        assert(p.len() == q.len());
        assert(p =~= a.subrange(head.len() as int, (head.len() + p.len()) as int));
        assert(q =~= b.subrange(head.len() as int, (head.len() + q.len()) as int));
        assert(m =~= a.skip((head.len() + p.len() + 1) as int));
        assert(n =~= b.skip((head.len() + q.len() + 1) as int));
        law_decimals_differ(pid1 as int, pid2 as int);
        law_decimals_differ(nanos1 as int, nanos2 as int);
    }
}

proof fn lemma_all_digits(n: nat)
    ensures
        forall|i: int| 0 <= i < decimal(n as int).len() ==> '0' <= #[trigger] decimal(n as int)[i] <= '9',
    decreases n,
{
    if n >= 10 {
        lemma_all_digits(n / 10);
        assert(decimal(n as int) == decimal((n / 10) as int).push(digit_char(n % 10)));
    }
}

} // verus!
