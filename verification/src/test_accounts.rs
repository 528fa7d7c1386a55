//! Funded accounts for tests: the same keypairs on every fork.

use vstd::prelude::*;
use vstd::utf8::{encode_utf8, is_ascii_chars_encode_utf8};

use crate::codec::{
    account_key_xdr, asset_xdr, ed25519_public, ed25519_public_of, sha256, sha256_of,
    trustline_key_xdr, TrustLineAsset,
};
use crate::ledger::{
    fresh_account, fresh_trustline, new_account, new_trustline, LedgerEntry, LedgerKey,
};
use crate::strkey::{
    account_of_strkey, account_strkey, account_strkey_of, parse_account_strkey, seed_strkey,
    seed_strkey_of,
};
use crate::text::{
    decimal, decimal_nat, digit_char, i64_text, join2, join4, join5, parsed_digits, usize_text,
};

verus! {

/// The account that issues USDC on the main network.
pub const USDC_MAINNET_ISSUER: &'static str = "GA5ZSEJYB37JRC5AVCIA5MOP4RHTM335X2KGX3IHOJAPP5RE34K4KZVN";

/// What every test account starts with: 100,000 XLM, in stroops.
pub const DEFAULT_BALANCE_STROOPS: i64 = 1_000_000_000_000;

/// A funded account.
#[derive(Debug, Clone, Copy, PartialEq, Eq)]
pub struct TestAccount {
    /// The ed25519 seed.
    pub secret_seed: [u8; 32],
    /// The ed25519 public key.
    pub public_key: [u8; 32],
    /// The XLM that the account starts with, in stroops.
    pub balance_stroops: i64,
}

impl TestAccount {
    /// The account's strkey, which begins with `G`.
    pub fn account_strkey(&self) -> (r: String)
        ensures
            r@ == account_strkey_of(self.public_key@),
            r@.len() == 56,
            r@[0] == 'G',
            account_of_strkey(r@) == Some(self.public_key@),
    {
        account_strkey(&self.public_key)
    }

    /// The strkey of the account's seed, which begins with `S`.
    pub fn secret_key_strkey(&self) -> (r: String)
        ensures
            r@ == seed_strkey_of(self.secret_seed@),
            r@.len() == 56,
            r@[0] == 'S',
    {
        seed_strkey(&self.secret_seed)
    }

    /// The ledger entry that makes the account exist on a fork, and its key.
    pub fn ledger_entry(&self, fork_ledger_seq: u32) -> (r: (LedgerKey, LedgerEntry))
        ensures
            r.0@ == account_key_xdr(self.public_key@),
            r.1@ == fresh_account(self.public_key@, self.balance_stroops, fork_ledger_seq),
    {
        (
            LedgerKey::account(&self.public_key),
            new_account(&self.public_key, self.balance_stroops, fork_ledger_seq),
        )
    }

    /// The ledger entry of an empty, authorized trustline of the account, and
    /// its key.
    pub fn trustline_entry(&self, asset: &TrustLineAsset, fork_ledger_seq: u32) -> (r: (
        LedgerKey,
        LedgerEntry,
    ))
        ensures
            r.0@ == trustline_key_xdr(self.public_key@, asset_xdr(*asset)),
            r.1@ == fresh_trustline(self.public_key@, asset_xdr(*asset), 0, fork_ledger_seq),
    {
        (
            LedgerKey::trustline(&self.public_key, asset),
            new_trustline(&self.public_key, asset, 0, fork_ledger_seq),
        )
    }
}

/// USDC on the main network; nothing where the issuer's strkey is not one.
pub fn usdc_mainnet_trustline_asset() -> (r: Option<TrustLineAsset>)
    ensures
        (match account_of_strkey(USDC_MAINNET_ISSUER@) {
            Some(k) => r matches Some(TrustLineAsset::CreditAlphanum4 { code, issuer }) && issuer@ == k && code@
                == seq![85u8, 83u8, 68u8, 67u8],
            None => r is None,
        }),
{
    match parse_account_strkey(USDC_MAINNET_ISSUER) {
        Ok(issuer) => {
            let code: [u8; 4] = [85u8, 83u8, 68u8, 67u8];
            assert(code@ =~= seq![85u8, 83u8, 68u8, 67u8]);
            Some(TrustLineAsset::CreditAlphanum4 { code, issuer })
        },
        Err(_) => None,
    }
}

/// The seed of test account number `i`.
pub open spec fn seed_at(i: int) -> Seq<u8> {
    sha256_of(encode_utf8("soroban-fork test account "@ + decimal(i)))
}

/// Whether an account is test account number `i`.
pub open spec fn is_test_account(a: TestAccount, i: int) -> bool {
    &&& a.secret_seed@ == seed_at(i)
    &&& a.public_key@ == ed25519_public_of(seed_at(i))
    &&& a.balance_stroops == DEFAULT_BALANCE_STROOPS
}

/// The first `n` test accounts.
pub fn generate(n: usize) -> (r: Vec<TestAccount>)
    ensures
        r@.len() == n,
        forall|i: int| 0 <= i < n ==> is_test_account(#[trigger] r@[i], i),
{
    let mut out: Vec<TestAccount> = Vec::new();
    let mut i: usize = 0;
    while i < n
        invariant
            i <= n,
            out@.len() == i,
            forall|j: int| 0 <= j < i ==> is_test_account(#[trigger] out@[j], j),
        decreases n - i,
    {
        let seed_input = join2("soroban-fork test account ", usize_text(i).as_str());
        let secret_seed = sha256(seed_input.as_str().as_bytes());
        let public_key = ed25519_public(&secret_seed);
        out.push(
            TestAccount { secret_seed, public_key, balance_stroops: DEFAULT_BALANCE_STROOPS },
        );
        i = i + 1;
    }
    out
}

/// Test accounts are the same in every run, and generating more of them
/// leaves the first ones as they are: an account is determined by its number.
pub proof fn law_test_accounts_are_determined(a: TestAccount, b: TestAccount, i: int)
    requires
        is_test_account(a, i),
        is_test_account(b, i),
    ensures
        a.secret_seed@ == b.secret_seed@,
        a.public_key@ == b.public_key@,
        a.balance_stroops == b.balance_stroops,
{
}

// ---------------------------------------------------------------------------
// The banner
// ---------------------------------------------------------------------------

/// Stroops in one XLM.
pub const STROOPS_PER_XLM: i64 = 10_000_000;

/// An amount of stroops in XLM, with seven decimals.
pub open spec fn xlm_text_of(stroops: int) -> Seq<char> {
    let decimals = decimal(stroops % STROOPS_PER_XLM as int);
    decimal(stroops / STROOPS_PER_XLM as int) + "."@ + Seq::new((7 - decimals.len()) as nat, |i: int| '0')
        + decimals
}

proof fn lemma_seven_digits(n: nat)
    requires
        n < STROOPS_PER_XLM,
    ensures
        1 <= decimal_nat(n).len() <= 7,
{
    reveal_with_fuel(decimal_nat, 8);
}

/// An amount of stroops in XLM, with seven decimals.
pub fn xlm_text(stroops: i64) -> (r: String)
    requires
        stroops >= 0,
    ensures
        r@ == xlm_text_of(stroops as int),
{
    let rest: i64 = stroops % STROOPS_PER_XLM;
    let decimals = i64_text(rest);
    proof {
        lemma_seven_digits(rest as nat);
    }
    let mut r = join2(i64_text(stroops / STROOPS_PER_XLM).as_str(), ".");
    let ghost front = r@;
    let ghost digits = decimals@.len();
    let mut n: usize = decimals.as_str().unicode_len();
    while n < 7
        invariant
            digits <= n <= 7,
            r@ == front + Seq::new((n - digits) as nat, |i: int| '0'),
        decreases 7 - n,
    {
        r.push('0');
        n = n + 1;
        assert(r@ =~= front + Seq::new((n - digits) as nat, |i: int| '0'));
    }
    r.append(decimals.as_str());
    r
}

/// The line that tells of a test account.
pub open spec fn account_line(i: int, a: TestAccount) -> Seq<char> {
    "("@ + decimal(i) + ") "@ + account_strkey_of(a.public_key@) + "  ("@ + xlm_text_of(
        a.balance_stroops as int,
    ) + " XLM)  ->  "@ + seed_strkey_of(a.secret_seed@)
}

/// The contents of some lines.
pub open spec fn lines_view(lines: Seq<String>) -> Seq<Seq<char>> {
    lines.map_values(|s: String| s@)
}

/// The lines that a server prints when it starts: where it listens, and the
/// first accounts of `accounts`, or how to get some.
pub open spec fn banner_lines(version: Seq<char>, listen: Seq<char>, accounts: Seq<TestAccount>) -> Seq<Seq<char>> {
    let head = seq!["soroban-fork v"@ + version, "Listening on http://"@ + listen];
    if accounts.len() == 0 {
        head.push("(no pre-funded test accounts; pass --accounts N to enable)"@)
    } else {
        head.push(""@).push("Available test accounts:"@) + Seq::new(
            accounts.len(),
            |i: int| account_line(i, accounts[i]),
        ) + seq![""@]
    }
}

/// The lines that a server with this many test accounts prints when it
/// starts.
pub fn account_banner(version: &str, listen: &str, count: usize) -> (r: Vec<String>)
    ensures
        exists|accounts: Seq<TestAccount>|
            {
                &&& accounts.len() == count
                &&& forall|i: int| 0 <= i < count ==> is_test_account(#[trigger] accounts[i], i)
                &&& lines_view(r@) == #[trigger] banner_lines(version@, listen@, accounts)
            },
{
    let accounts = generate(count);
    let mut out: Vec<String> = Vec::new();
    out.push(join2("soroban-fork v", version));
    out.push(join2("Listening on http://", listen));
    if count == 0 {
        out.push("(no pre-funded test accounts; pass --accounts N to enable)".to_owned());
        assert(lines_view(out@) =~= banner_lines(version@, listen@, accounts@));
        return out;
    }
    out.push("".to_owned());
    out.push("Available test accounts:".to_owned());
    let ghost head = lines_view(out@);
    assert(head =~= seq!["soroban-fork v"@ + version@, "Listening on http://"@ + listen@].push(""@).push(
        "Available test accounts:"@,
    ));
    let mut i: usize = 0;
    while i < count
        invariant
            i <= count,
            count == accounts@.len(),
            forall|j: int| 0 <= j < count ==> is_test_account(#[trigger] accounts@[j], j),
            lines_view(out@) == head + Seq::new(i as nat, |j: int| account_line(j, accounts@[j])),
        decreases count - i,
    {
        let a = &accounts[i];
        assert(is_test_account(accounts@[i as int], i as int));
        let ghost now = lines_view(out@);
        let front = join5(
            "(",
            usize_text(i).as_str(),
            ") ",
            account_strkey(&a.public_key).as_str(),
            "  (",
        );
        let line = join4(
            front.as_str(),
            xlm_text(a.balance_stroops).as_str(),
            " XLM)  ->  ",
            seed_strkey(&a.secret_seed).as_str(),
        );
        out.push(line);
        assert(lines_view(out@) =~= now.push(account_line(i as int, accounts@[i as int])));
        i = i + 1;
        assert(lines_view(out@) =~= head + Seq::new(
            i as nat,
            |j: int| account_line(j, accounts@[j]),
        ));
    }
    out.push("".to_owned());
    assert(lines_view(out@) =~= banner_lines(version@, listen@, accounts@));
    out
}

/// Test account number `i` is the same everywhere: its seed is the hash of a
/// fixed phrase and the number, its key belongs to the seed, and it has a
/// hundred thousand XLM.
pub proof fn law_test_accounts_come_from_their_number(a: TestAccount, i: int)
    requires
        is_test_account(a, i),
    ensures
        a.secret_seed@ == sha256_of(encode_utf8("soroban-fork test account "@ + decimal(i))),
        a.public_key@ == ed25519_public_of(a.secret_seed@),
        a.balance_stroops == 100_000 * 10_000_000,
{
}

/// An amount of XLM is written with seven decimals: the digits before the
/// point are the whole XLM, those behind it the stroops that are left.
pub proof fn law_amounts_have_seven_decimals(stroops: int)
    requires
        stroops >= 0,
    ensures
        exists|decimals: Seq<char>|
            #![trigger parsed_digits(decimals)]
            {
                &&& xlm_text_of(stroops) == decimal(stroops / 10_000_000) + "."@ + decimals
                &&& decimals.len() == 7
                &&& parsed_digits(decimals) == Some((stroops % 10_000_000) as nat)
            },
{
    let left = (stroops % 10_000_000) as nat;
    lemma_seven_digits(left);
    let zeros = Seq::new((7 - decimal_nat(left).len()) as nat, |i: int| '0');
    let decimals = zeros + decimal_nat(left);
    lemma_leading_zeros(zeros, left);
    assert(xlm_text_of(stroops) =~= decimal(stroops / 10_000_000) + "."@ + decimals);
}

proof fn lemma_leading_zeros(zeros: Seq<char>, n: nat)
    requires
        forall|i: int| 0 <= i < zeros.len() ==> zeros[i] == '0',
    ensures
        parsed_digits(zeros + decimal_nat(n)) == Some(n),
    decreases n,
{
    let s = zeros + decimal_nat(n);
    if n < 10 {
        assert(s.drop_last() =~= zeros);
        assert(s.last() == digit_char(n));
        lemma_only_zeros(zeros);
    } else {
        lemma_leading_zeros(zeros, n / 10);
        assert(s.drop_last() =~= zeros + decimal_nat(n / 10));
        assert(s.last() == digit_char(n % 10));
        assert(decimal_nat(n / 10).len() > 0);
    }
}

proof fn lemma_only_zeros(zeros: Seq<char>)
    requires
        forall|i: int| 0 <= i < zeros.len() ==> zeros[i] == '0',
    ensures
        zeros.len() > 0 ==> parsed_digits(zeros) == Some(0nat),
    decreases zeros.len(),
{
    if zeros.len() > 1 {
        lemma_only_zeros(zeros.drop_last());
    }
}

/// The banner tells the version and where the server listens, and then every
/// test account on a line of its own: its number, its strkey, its XLM and its
/// secret strkey.
pub proof fn law_banner_lists_every_account(
    version: Seq<char>,
    listen: Seq<char>,
    accounts: Seq<TestAccount>,
    i: int,
)
    requires
        0 <= i < accounts.len(),
    ensures
        banner_lines(version, listen, accounts).len() == accounts.len() + 5,
        banner_lines(version, listen, accounts)[0] == "soroban-fork v"@ + version,
        banner_lines(version, listen, accounts)[1] == "Listening on http://"@ + listen,
        banner_lines(version, listen, accounts)[4 + i] == "("@ + decimal(i) + ") "@ + account_strkey_of(
            accounts[i].public_key@,
        ) + "  ("@ + xlm_text_of(accounts[i].balance_stroops as int) + " XLM)  ->  "@ + seed_strkey_of(
            accounts[i].secret_seed@,
        ),
{
}

/// As many test accounts are made as are asked for, and the first of them are
/// the same however many there are.
pub proof fn law_fewer_accounts_are_the_first_ones(n: usize, m: usize, a: Vec<TestAccount>, b: Vec<TestAccount>, i: int)
    requires
        call_ensures(generate, (n,), a),
        call_ensures(generate, (m,), b),
        0 <= i < n,
        n <= m,
    ensures
        a@.len() == n,
        b@.len() == m,
        a@[i].secret_seed@ == b@[i].secret_seed@,
        a@[i].public_key@ == b@[i].public_key@,
        a@[i].secret_seed@ == sha256_of(encode_utf8("soroban-fork test account "@ + decimal(i))),
        a@[i].balance_stroops == 100_000 * 10_000_000,
{
    law_test_accounts_come_from_their_number(a@[i], i);
    law_test_accounts_come_from_their_number(b@[i], i);
}

/// The asset that test accounts trust unless told otherwise is USDC, as its
/// issuer on the main network gives it out.
pub proof fn law_usdc_is_the_issuers_own(key: Seq<u8>, r: Option<TrustLineAsset>)
    requires
        call_ensures(usdc_mainnet_trustline_asset, (), r),
        account_of_strkey("GA5ZSEJYB37JRC5AVCIA5MOP4RHTM335X2KGX3IHOJAPP5RE34K4KZVN"@) == Some(key),
    ensures
        r matches Some(TrustLineAsset::CreditAlphanum4 { code, issuer }) && issuer@ == key && code@
            == encode_utf8("USDC"@),
{
    reveal_strlit("USDC");
    is_ascii_chars_encode_utf8("USDC"@);
    assert(encode_utf8("USDC"@) =~= seq![85u8, 83u8, 68u8, 67u8]);
}

} // verus!
