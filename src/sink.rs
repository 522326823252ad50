use vstd::prelude::*;
use crate::measure::sat_add;

verus! {

/// The recovery phrase that a 32-byte key encodes.
pub uninterp spec fn phrase_of_key(key: Seq<u8>) -> Seq<char>;

/// The account address that a recovery phrase opens.
pub uninterp spec fn address_of_phrase(phrase: Seq<char>) -> Seq<char>;

#[verifier::external_type_specification]
#[verifier::external_body]
pub struct ExCryptoError(algonaut_crypto::error::CryptoError);

#[verifier::external_type_specification]
#[verifier::external_body]
pub struct ExTransactionError(algonaut::transaction::error::TransactionError);

/// Relies on algonaut_crypto::mnemonic::from_key: a key of exactly 32 bytes
/// gives its recovery phrase, any other length an error.
#[verifier::external_body]
fn key_phrase(key: &[u8]) -> (r: Result<String, algonaut_crypto::error::CryptoError>)
    ensures
        r is Ok <==> key@.len() == 32,
        r matches Ok(p) ==> p@ == phrase_of_key(key@) && p@.len() > 0,
{
    algonaut_crypto::mnemonic::from_key(key)
}

/// Relies on algonaut's Account::from_mnemonic and the Display of its
/// address: the text address of the account a recovery phrase opens. A
/// phrase that mnemonic::from_key made from a 32-byte key always opens one.
#[verifier::external_body]
fn phrase_address(phrase: &str) -> (r: Result<String, algonaut::transaction::error::TransactionError>)
    ensures
        (exists|k: Seq<u8>| k.len() == 32 && phrase@ == #[trigger] phrase_of_key(k)) ==> r is Ok,
        r matches Ok(a) ==> a@ == address_of_phrase(phrase@) && a@.len() > 0,
{
    algonaut::transaction::account::Account::from_mnemonic(phrase).map(|a| a.address().to_string())
}

/// Why a matched key gave no credentials.
#[derive(Clone, Copy, PartialEq, Eq, Structural, Debug)]
pub enum CredentialError {
    /// The key is not 32 bytes long.
    InvalidKey,
    /// The recovery phrase did not open an account; the contract of
    /// `credentials` rules this out.
    InvalidPhrase,
}

/// An account address and the recovery phrase that opens it.
pub struct Credentials {
    pub address: String,
    pub phrase: String,
}

/// The address and recovery phrase of a matched key.
pub fn credentials(key: &[u8]) -> (r: Result<Credentials, CredentialError>)
    ensures
        key@.len() != 32 ==> r matches Err(CredentialError::InvalidKey),
        key@.len() == 32 ==> r is Ok,
        r matches Ok(c) ==> {
            &&& key@.len() == 32
            &&& c.phrase@.len() > 0
            &&& c.address@.len() > 0
            &&& c.phrase@ == phrase_of_key(key@)
            &&& c.address@ == address_of_phrase(phrase_of_key(key@))
        },
{
    match key_phrase(key) {
        Err(_) => Err(CredentialError::InvalidKey),
        Ok(phrase) => {
            // The phrase was made from this key, so it opens an account.
            assert(key@.len() == 32 && phrase@ == phrase_of_key(key@));
            match phrase_address(phrase.as_str()) {
                Err(_) => Err(CredentialError::InvalidPhrase),
                Ok(address) => Ok(Credentials { address, phrase }),
            }
        },
    }
}

/// Receives matched keys and decides whether the search goes on.
#[derive(Clone, Copy, PartialEq, Eq, Structural, Debug)]
pub enum ResultSink {
    /// Takes every match and never stops the search.
    Discard,
    /// Counts matches and stops the search once `found` reaches `count`.
    Report { found: usize, count: usize },
}

impl ResultSink {
    /// A sink that keeps searching after every match.
    pub fn discarding() -> (r: ResultSink)
        ensures
            r == ResultSink::Discard,
    {
        ResultSink::Discard
    }

    /// A sink that stops the search after `count` matches (after the first
    /// one where `count` is 0).
    pub fn reporting(count: usize) -> (r: ResultSink)
        ensures
            r == (ResultSink::Report { found: 0, count }),
    {
        ResultSink::Report { found: 0, count }
    }

    /// The sink after one more match, and whether the search goes on.
    pub open spec fn after_match(self) -> (ResultSink, bool) {
        match self {
            ResultSink::Discard => (ResultSink::Discard, true),
            ResultSink::Report { found, count } => {
                let f = sat_add(found, 1);
                (ResultSink::Report { found: f, count }, f < count)
            },
        }
    }

    /// Takes one match; returns whether the search goes on.
    pub fn found(&mut self) -> (r: bool)
        ensures
            (*final(self), r) == old(self).after_match(),
    {
        match *self {
            ResultSink::Discard => true,
            ResultSink::Report { found, count } => {
                let f = found.saturating_add(1);
                *self = ResultSink::Report { found: f, count };
                f < count
            },
        }
    }
}

/// A reporting sink for `count` matches goes on through the first `count - 1`
/// matches and stops at match number `count`; with `count` 0 it stops at the
/// first match.
pub proof fn lemma_sink_stops_at_count(found: usize, count: usize)
    requires
        found < usize::MAX,
    ensures
        ({
            let (next, go_on) = (ResultSink::Report { found, count }).after_match();
            &&& next == (ResultSink::Report { found: (found + 1) as usize, count })
            &&& go_on == (found + 1 < count)
            &&& found + 1 == count ==> !go_on
            &&& count == 0 ==> !go_on
        }),
{
}

} // verus!
