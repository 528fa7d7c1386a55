//! Strkeys: the textual form of account ids, secret seeds and contract ids.

use vstd::prelude::*;
use vstd::utf8::is_ascii_chars;

verus! {

/// What `stellar_strkey::ed25519::PublicKey::to_string` makes of a key.
pub uninterp spec fn account_strkey_of(key: Seq<u8>) -> Seq<char>;

/// What `stellar_strkey::ed25519::PrivateKey::to_string` makes of a seed.
pub uninterp spec fn seed_strkey_of(seed: Seq<u8>) -> Seq<char>;

/// What `stellar_strkey::Contract::to_string` makes of a contract id.
pub uninterp spec fn contract_strkey_of(id: Seq<u8>) -> Seq<char>;

/// What `stellar_strkey::ed25519::PublicKey::from_string` reads from a text:
/// the key, or nothing where the text is no account strkey.
pub uninterp spec fn account_of_strkey(s: Seq<char>) -> Option<Seq<u8>>;

/// What `stellar_strkey::Contract::from_string` reads from a text: the
/// contract id, or nothing where the text is no contract strkey.
pub uninterp spec fn contract_of_strkey(s: Seq<char>) -> Option<Seq<u8>>;

/// Calls `stellar_strkey::ed25519::PublicKey::to_string`. The text has 56
/// ASCII characters, begins with `G`, and reads back as the same key.
#[verifier::external_body]
pub(crate) fn account_strkey(key: &[u8; 32]) -> (r: String)
    ensures
        r@ == account_strkey_of(key@),
        r@.len() == 56,
        r@[0] == 'G',
        is_ascii_chars(r@),
        account_of_strkey(r@) == Some(key@),
{
    stellar_strkey::ed25519::PublicKey(*key).to_string().as_str().to_string()
}

/// Calls `stellar_strkey::ed25519::PrivateKey::to_string`. The text has 56
/// ASCII characters and begins with `S`.
#[verifier::external_body]
pub(crate) fn seed_strkey(seed: &[u8; 32]) -> (r: String)
    ensures
        r@ == seed_strkey_of(seed@),
        r@.len() == 56,
        r@[0] == 'S',
        is_ascii_chars(r@),
{
    stellar_strkey::ed25519::PrivateKey(*seed).to_string().as_str().to_string()
}

/// Calls `stellar_strkey::Contract::to_string`. The text has 56 ASCII
/// characters, begins with `C`, and reads back as the same contract id.
#[verifier::external_body]
pub(crate) fn contract_strkey(id: &[u8; 32]) -> (r: String)
    ensures
        r@ == contract_strkey_of(id@),
        r@.len() == 56,
        r@[0] == 'C',
        is_ascii_chars(r@),
        contract_of_strkey(r@) == Some(id@),
{
    stellar_strkey::Contract(*id).to_string().as_str().to_string()
}

/// Calls `stellar_strkey::ed25519::PublicKey::from_string`. Every refusal
/// carries the one message that its error type has.
#[verifier::external_body]
pub(crate) fn parse_account_strkey(s: &str) -> (r: Result<[u8; 32], String>)
    ensures
        (match r {
            Ok(key) => account_of_strkey(s@) == Some(key@),
            Err(e) => account_of_strkey(s@) is None && e@ == "the strkey is invalid"@,
        }),
{
    stellar_strkey::ed25519::PublicKey::from_string(s).map(|k| k.0).map_err(|e| e.to_string())
}

/// Calls `stellar_strkey::Contract::from_string`. Every refusal carries the
/// one message that its error type has.
#[verifier::external_body]
pub(crate) fn parse_contract_strkey(s: &str) -> (r: Result<[u8; 32], String>)
    ensures
        (match r {
            Ok(id) => contract_of_strkey(s@) == Some(id@),
            Err(e) => contract_of_strkey(s@) is None && e@ == "the strkey is invalid"@,
        }),
{
    stellar_strkey::Contract::from_string(s).map(|k| k.0).map_err(|e| e.to_string())
}

} // verus!
