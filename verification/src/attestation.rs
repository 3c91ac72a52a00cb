//! Attestations on the chain: what is minted for an incident, what is made of the outcome, and
//! how one cycle over the pending incidents is kept account of.
//!
//! Wallets, providers and transactions live elsewhere. Here stands every decision around them.

use ethers::abi::Abi;
use ethers::signers::{LocalWallet, Signer};
use ethers::types::{Address, H256};
use std::str::FromStr;
use tiny_keccak::{Hasher, Keccak};
use vstd::arithmetic::power::pow;
use vstd::prelude::*;
use vstd::utf8::encode_utf8;

use crate::abi::{abi_in, read_abi};
use crate::db::{DbError, IncidentRow};
use crate::ids::Uuid;
use crate::rules::RuleType;
use crate::text::{bytes_hex, decimal, decimal_text, hex, hex_text, join2, join5, lemma_hex_is_injective};

verus! {

/// A failure on the way to an attestation.
#[derive(Debug)]
pub enum AttestationError {
    ProviderConnectionFailed(String),
    ContractCallFailed(String),
    /// The chain has the attestation, but the row was no longer pending when it was to be marked:
    /// another process has claimed it. The mint itself did not fail, so this is reported as a
    /// warning; it means that two minters work on one queue.
    RaceDetectedAfterMint { incident_id: Uuid, tx_hash: String },
    Db(DbError),
}

impl AttestationError {
    /// The failure in words.
    pub open spec fn spec_message(self) -> Seq<char> {
        match self {
            AttestationError::ProviderConnectionFailed(s) => "provider connection failed: "@ + s@,
            AttestationError::ContractCallFailed(s) => "contract call failed: "@ + s@,
            AttestationError::RaceDetectedAfterMint { incident_id, tx_hash } => {
                "race detected: incident "@ + incident_id.spec_text() + " minted (tx "@ + tx_hash@
                    + ") but DB row was already claimed"@
            },
            AttestationError::Db(e) => "db error: "@ + e.spec_message(),
        }
    }

    /// The failure in words.
    pub fn message(&self) -> (message: String)
        ensures
            message@ == self.spec_message(),
    {
        match self {
            AttestationError::ProviderConnectionFailed(s) => {
                join2("provider connection failed: ", s.as_str())
            },
            AttestationError::ContractCallFailed(s) => join2("contract call failed: ", s.as_str()),
            AttestationError::RaceDetectedAfterMint { incident_id, tx_hash } => {
                let id = incident_id.text();
                join5(
                    "race detected: incident ",
                    id.as_str(),
                    " minted (tx ",
                    tx_hash.as_str(),
                    ") but DB row was already claimed",
                )
            },
            AttestationError::Db(e) => {
                let detail = e.message();
                join2("db error: ", detail.as_str())
            },
        }
    }

    /// Whether this is a failed connection with the given detail.
    pub open spec fn is_provider_failure(self, detail: Seq<char>) -> bool {
        self matches AttestationError::ProviderConnectionFailed(s) && s@ == detail
    }

    /// Whether this is a failed contract call with the given detail.
    pub open spec fn is_call_failure(self, detail: Seq<char>) -> bool {
        self matches AttestationError::ContractCallFailed(s) && s@ == detail
    }
}

impl vstd::std_specs::convert::FromSpecImpl<DbError> for AttestationError {
    open spec fn obeys_from_spec() -> bool {
        true
    }

    open spec fn from_spec(e: DbError) -> AttestationError {
        AttestationError::Db(e)
    }
}

impl From<DbError> for AttestationError {
    fn from(e: DbError) -> (error: AttestationError) {
        AttestationError::Db(e)
    }
}

/// The types of attestation that the contract knows, in its own order.
#[derive(Clone, Copy, Debug, PartialEq, Eq, Structural)]
pub enum ContractAttestationType {
    PpeMissing,
    ZoneBreach,
    TrainingComplete,
}

impl ContractAttestationType {
    /// The number that the contract has for the type.
    pub open spec fn spec_code(self) -> u8 {
        match self {
            ContractAttestationType::PpeMissing => 0,
            ContractAttestationType::ZoneBreach => 1,
            ContractAttestationType::TrainingComplete => 2,
        }
    }

    /// The number that the contract has for the type.
    pub fn code(&self) -> (code: u8)
        ensures
            code == self.spec_code(),
    {
        match self {
            ContractAttestationType::PpeMissing => 0,
            ContractAttestationType::ZoneBreach => 1,
            ContractAttestationType::TrainingComplete => 2,
        }
    }
}

/// The type of attestation for a broken rule.
pub open spec fn attestation_type(rule: RuleType) -> ContractAttestationType {
    match rule {
        RuleType::PpeMissing => ContractAttestationType::PpeMissing,
        RuleType::ZoneBreach => ContractAttestationType::ZoneBreach,
    }
}

impl vstd::std_specs::convert::FromSpecImpl<RuleType> for ContractAttestationType {
    open spec fn obeys_from_spec() -> bool {
        true
    }

    open spec fn from_spec(rt: RuleType) -> ContractAttestationType {
        attestation_type(rt)
    }
}

impl From<RuleType> for ContractAttestationType {
    fn from(rt: RuleType) -> (kind: ContractAttestationType) {
        match rt {
            RuleType::PpeMissing => ContractAttestationType::PpeMissing,
            RuleType::ZoneBreach => ContractAttestationType::ZoneBreach,
        }
    }
}

/// The Keccak-256 digest of bytes.
pub uninterp spec fn keccak256(bytes: Seq<u8>) -> Seq<u8>;

/// `tiny_keccak::Keccak::v256`, fed the bytes once and finalized into 32 bytes. The digest depends
/// on the bytes alone.
#[verifier::external_body]
fn keccak256_digest(bytes: &[u8]) -> (digest: [u8; 32])
    ensures
        digest@ == keccak256(bytes@),
{
    let mut hasher = Keccak::v256();
    let mut digest = [0u8; 32];
    hasher.update(bytes);
    hasher.finalize(&mut digest);
    digest
}

/// The site hash that the contract records: the digest of the sixteen bytes of the id, not of its
/// text.
pub fn keccak256_site_id(site_id: Uuid) -> (digest: [u8; 32])
    ensures
        digest@ == keccak256(site_id.spec_bytes()),
{
    let bytes = site_id.as_bytes();
    keccak256_digest(bytes.as_slice())
}

/// Characters that the reader of addresses passes over.
pub open spec fn is_skipped(c: char) -> bool {
    c == ' ' || c == '\r' || c == '\n' || c == '\t'
}

/// The value of a hexadecimal digit of either case.
pub open spec fn digit_value(c: char) -> Option<int> {
    let n = c as u32 as int;
    if 48 <= n <= 57 {
        Some(n - 48)
    } else if 97 <= n <= 102 {
        Some(n - 87)
    } else if 65 <= n <= 70 {
        Some(n - 55)
    } else {
        None
    }
}

/// What follows the `0x` of a written address, where it starts so; otherwise all of it.
pub open spec fn after_prefix(text: Seq<char>) -> Seq<char> {
    if text.len() >= 2 && text[0] == '0' && text[1] == 'x' {
        text.skip(2)
    } else {
        text
    }
}

/// Text without its blanks.
pub open spec fn without_blanks(text: Seq<char>) -> Seq<char> {
    text.filter(|c: char| !is_skipped(c))
}

/// The digits of a written address.
pub open spec fn address_digits(text: Seq<char>) -> Seq<char> {
    without_blanks(after_prefix(text))
}

/// The twenty bytes of a written address, where it has forty hexadecimal digits and nothing else.
pub open spec fn address_of(text: Seq<char>) -> Option<Seq<u8>> {
    let digits = address_digits(text);
    if digits.len() == 40 && (forall|i: int|
        0 <= i < 40 ==> digit_value(#[trigger] digits[i]) is Some) {
        Some(
            Seq::new(
                20,
                |i: int|
                    (16 * digit_value(digits[2 * i])->0 + digit_value(digits[2 * i + 1])->0) as u8,
            ),
        )
    } else {
        None
    }
}

/// The place from `i` on of the first character that is neither a digit nor a blank, or the end of
/// the text where there is none.
pub open spec fn first_stranger(text: Seq<char>, i: int) -> int
    decreases text.len() - i,
{
    if i >= text.len() || (digit_value(text[i]) is None && !is_skipped(text[i])) {
        i
    } else {
        first_stranger(text, i + 1)
    }
}

/// What is said of a text that is no address: the first character behind the prefix that is neither
/// a digit nor a blank, where it comes before the fortieth digit, with its place in bytes;
/// otherwise that the length is wrong.
pub open spec fn address_error(text: Seq<char>) -> Seq<char> {
    let rest = after_prefix(text);
    let i = first_stranger(rest, 0);
    if i < rest.len() && without_blanks(rest.take(i)).len() < 40 {
        "Invalid character '"@ + seq![rest[i]] + "' at position "@ + decimal(
            encode_utf8(rest.take(i)).len(),
        )
    } else {
        "Invalid input length"@
    }
}

/// `ethers::types::Address::from_str`, the address as its twenty bytes and the error as its
/// `Display` text. It takes forty hexadecimal digits of either case, after `0x` or without it,
/// and passes over blanks, tabs and line ends among them. It stops at the first other character,
/// which it names, unless forty digits stand before it.
#[verifier::external_body]
fn parse_address(text: &str) -> (parsed: Result<[u8; 20], String>)
    ensures
        match parsed {
            Ok(bytes) => address_of(text@) == Some(bytes@),
            Err(e) => address_of(text@) is None && e@ == address_error(text@),
        },
{
    Address::from_str(text).map(|address| address.0).map_err(|e| e.to_string())
}

/// The twenty bytes of the address that a private key signs for, or the text of the error with
/// which `ethers::signers::LocalWallet` refuses the key.
pub uninterp spec fn wallet_of(private_key_hex: Seq<char>) -> Result<Seq<u8>, Seq<char>>;

/// `ethers::signers::LocalWallet::from_str`, the wallet as the twenty bytes of its address
/// (`Signer::address`) and the error as its `Display` text. The result depends on the text alone.
#[verifier::external_body]
fn wallet_address(private_key_hex: &str) -> (wallet: Result<[u8; 20], String>)
    ensures
        match wallet {
            Ok(address) => wallet_of(private_key_hex@) == Ok::<Seq<u8>, Seq<char>>(address@),
            Err(e) => wallet_of(private_key_hex@) == Err::<Seq<u8>, Seq<char>>(e@),
        },
{
    LocalWallet::from_str(private_key_hex).map(|w| w.address().0).map_err(|e| e.to_string())
}

/// The chain that attestations are minted on.
pub const BASE_SEPOLIA_CHAIN_ID: u64 = 84_532;

/// How many pending incidents one cycle takes on.
pub const MINTER_BATCH_SIZE: i64 = 10;

/// What the minter works with, once all of it has been checked.
pub struct AttestationMinter {
    pub chain_id: u64,
    /// Address that the signer's key stands for.
    pub signer: [u8; 20],
    pub contract_address: [u8; 20],
    pub abi: Abi,
    pub batch_size: i64,
}

/// The complaint about a provider of another chain.
pub open spec fn wrong_chain(chain_id: u64) -> Seq<char> {
    "expected Base Sepolia (chain id 84532), got "@ + decimal(chain_id as nat)
}

/// The first thing that keeps the minter from starting: a provider that does not answer, a key
/// that is none, the wrong chain, an address that is none, or an interface that is none. Each but
/// the chain comes as the text of what is wrong with it, where something is.
pub open spec fn first_minter_fault(
    chain_id: Result<u64, String>,
    key_fault: Option<Seq<char>>,
    address_fault: Option<Seq<char>>,
    abi_fault: Option<Seq<char>>,
) -> Option<Seq<char>> {
    if chain_id is Err {
        Some(chain_id->Err_0@)
    } else if key_fault is Some {
        key_fault
    } else if chain_id->Ok_0 != BASE_SEPOLIA_CHAIN_ID {
        Some(wrong_chain(chain_id->Ok_0))
    } else if address_fault is Some {
        address_fault
    } else {
        abi_fault
    }
}

/// What is wrong with a private key, where something is.
pub open spec fn key_fault(private_key_hex: Seq<char>) -> Option<Seq<char>> {
    match wallet_of(private_key_hex) {
        Ok(_) => None,
        Err(e) => Some(e),
    }
}

/// What is wrong with a written address, where something is.
pub open spec fn address_fault(text: Seq<char>) -> Option<Seq<char>> {
    match address_of(text) {
        Some(_) => None,
        None => Some(address_error(text)),
    }
}

/// What is wrong with a contract's interface, where something is.
pub open spec fn abi_fault(json: Seq<char>) -> Option<Seq<char>> {
    match abi_in(json) {
        Ok(_) => None,
        Err(e) => Some(e),
    }
}

impl AttestationMinter {
    /// Checks what the minter needs, one thing after the other, and stops at the first fault.
    /// `chain_id` is what the provider answered, or the text of why it did not.
    pub fn new(
        chain_id: Result<u64, String>,
        private_key_hex: &str,
        contract_address: &str,
        contract_abi_json: &str,
    ) -> (minter: Result<AttestationMinter, AttestationError>)
        ensures
            match minter {
                Ok(m) => {
                    &&& first_minter_fault(
                        chain_id,
                        key_fault(private_key_hex@),
                        address_fault(contract_address@),
                        abi_fault(contract_abi_json@),
                    ) is None
                    &&& m.chain_id == BASE_SEPOLIA_CHAIN_ID
                    &&& wallet_of(private_key_hex@) == Ok::<Seq<u8>, Seq<char>>(m.signer@)
                    &&& address_of(contract_address@) == Some(m.contract_address@)
                    &&& abi_in(contract_abi_json@) == Ok::<Abi, Seq<char>>(m.abi)
                    &&& m.batch_size == MINTER_BATCH_SIZE
                },
                Err(e) => first_minter_fault(
                    chain_id,
                    key_fault(private_key_hex@),
                    address_fault(contract_address@),
                    abi_fault(contract_abi_json@),
                ) matches Some(detail) && e.is_provider_failure(detail),
            },
    {
        let chain_id: u64 = minter_part(chain_id)?;
        let signer = minter_part(wallet_address(private_key_hex))?;
        check_chain(chain_id)?;
        let contract_address = minter_part(parse_address(contract_address))?;
        let abi = minter_part(read_abi(contract_abi_json))?;
        Ok(
            AttestationMinter {
                chain_id,
                signer,
                contract_address,
                abi,
                batch_size: MINTER_BATCH_SIZE,
            },
        )
    }
}

/// A part that the minter needs, once it has been read, or the failure that it could not be.
pub fn minter_part<T>(part: Result<T, String>) -> (checked: Result<T, AttestationError>)
    ensures
        match part {
            Ok(p) => checked == Ok::<T, AttestationError>(p),
            Err(e) => checked == Err::<T, AttestationError>(
                AttestationError::ProviderConnectionFailed(e),
            ),
        },
{
    match part {
        Ok(p) => Ok(p),
        Err(e) => Err(AttestationError::ProviderConnectionFailed(e)),
    }
}

/// Refuses a provider of any chain but the one that attestations are minted on.
pub fn check_chain(chain_id: u64) -> (checked: Result<(), AttestationError>)
    ensures
        match checked {
            Ok(_) => chain_id == BASE_SEPOLIA_CHAIN_ID,
            Err(e) => chain_id != BASE_SEPOLIA_CHAIN_ID && e.is_provider_failure(
                wrong_chain(chain_id),
            ),
        },
{
    if chain_id == BASE_SEPOLIA_CHAIN_ID {
        return Ok(());
    }
    let number = decimal_text(chain_id);
    let detail = join2("expected Base Sepolia (chain id 84532), got ", number.as_str());
    Err(AttestationError::ProviderConnectionFailed(detail))
}

/// What was found of the wallet of the worker in an incident.
#[derive(Debug)]
pub enum WalletLookup {
    /// The incident names no worker, so nothing was looked up.
    Unattributed,
    /// The query failed, with this text.
    Failed(String),
    /// The worker is no longer there.
    NoSuchWorker,
    /// The worker is there, but the wallet could not be read, with this text.
    Unreadable(String),
    /// The worker's wallet, where there is one.
    Found(Option<String>),
}

/// Twenty zero bytes, which stand for no subject.
pub open spec fn zero_address() -> Seq<u8> {
    Seq::new(20, |i: int| 0u8)
}

/// The subject of an attestation: the wallet of the worker, or the zero address where there is no
/// worker or no wallet; otherwise what is wrong.
pub open spec fn subject_of(lookup: WalletLookup) -> Result<Seq<u8>, Seq<char>> {
    match lookup {
        WalletLookup::Unattributed => Ok(zero_address()),
        WalletLookup::Failed(e) => Err(e@),
        WalletLookup::NoSuchWorker => Ok(zero_address()),
        WalletLookup::Unreadable(e) => Err(e@),
        WalletLookup::Found(None) => Ok(zero_address()),
        WalletLookup::Found(Some(wallet)) => match address_of(wallet@) {
            Some(address) => Ok(address),
            None => Err(address_error(wallet@)),
        },
    }
}

/// The subject of an attestation.
pub fn resolve_subject_address(lookup: WalletLookup) -> (subject: Result<
    [u8; 20],
    AttestationError,
>)
    ensures
        match subject {
            Ok(address) => subject_of(lookup) == Ok::<Seq<u8>, Seq<char>>(address@),
            Err(e) => subject_of(lookup) matches Err(detail) && e.is_call_failure(detail),
        },
{
    let zero: [u8; 20] = [0u8; 20];
    assert(zero@ =~= zero_address());
    match lookup {
        WalletLookup::Unattributed => Ok(zero),
        WalletLookup::Failed(e) => Err(AttestationError::ContractCallFailed(e)),
        WalletLookup::NoSuchWorker => Ok(zero),
        WalletLookup::Unreadable(e) => Err(AttestationError::ContractCallFailed(e)),
        WalletLookup::Found(None) => Ok(zero),
        WalletLookup::Found(Some(wallet)) => wallet_subject(parse_address(wallet.as_str())),
    }
}

/// The subject that a wallet stands for, once its address has been read.
pub fn wallet_subject(parsed: Result<[u8; 20], String>) -> (subject: Result<
    [u8; 20],
    AttestationError,
>)
    ensures
        match parsed {
            Ok(address) => subject == Ok::<[u8; 20], AttestationError>(address),
            Err(e) => subject matches Err(error) && error.is_call_failure(e@),
        },
{
    match parsed {
        Ok(address) => Ok(address),
        Err(e) => Err(AttestationError::ContractCallFailed(e)),
    }
}

/// The arguments of the contract's `mintAttestation`.
#[derive(Clone, Copy, Debug)]
pub struct MintCall {
    pub attestation_type: u8,
    pub site_hash: [u8; 32],
    pub severity_score: u64,
    pub timestamp: u64,
    pub subject: [u8; 20],
}

/// A second since the Unix epoch as an unsigned number: those before the epoch wrap around.
pub open spec fn wrapped(secs: int) -> int {
    if secs < 0 {
        secs + 0x1_0000_0000_0000_0000
    } else {
        secs
    }
}

/// Whether `call` mints the attestation of `incident`, with the given site hash and subject.
pub open spec fn mints(
    call: MintCall,
    incident: IncidentRow,
    site_hash: Seq<u8>,
    subject: Seq<u8>,
) -> bool {
    &&& call.attestation_type == attestation_type(incident.rule_triggered).spec_code()
    &&& call.site_hash@ == site_hash
    &&& call.severity_score == (if incident.confidence_bp < 0 {
        0
    } else {
        incident.confidence_bp as int
    })
    &&& call.timestamp == wrapped(incident.detected_at.spec_secs())
    &&& call.subject@ == subject
}

/// The contract call that mints the attestation of an incident, of parts that are known.
pub fn assemble_call(incident: &IncidentRow, site_hash: [u8; 32], subject: [u8; 20]) -> (call:
    MintCall)
    ensures
        mints(call, *incident, site_hash@, subject@),
{
    let kind = ContractAttestationType::from(incident.rule_triggered);
    let severity_score: u64 = if incident.confidence_bp < 0 {
        0
    } else {
        incident.confidence_bp as u64
    };
    let secs: i64 = incident.detected_at.timestamp();
    let timestamp: u64 = if secs < 0 {
        u64::MAX - ((-(secs + 1)) as u64)
    } else {
        secs as u64
    };
    MintCall { attestation_type: kind.code(), site_hash, severity_score, timestamp, subject }
}

/// The contract call that mints the attestation of an incident.
pub fn mint_call(incident: &IncidentRow, lookup: WalletLookup) -> (call: Result<
    MintCall,
    AttestationError,
>)
    ensures
        match call {
            Ok(c) => subject_of(lookup) matches Ok(subject) && mints(
                c,
                *incident,
                keccak256(incident.site_id.spec_bytes()),
                subject,
            ),
            Err(e) => subject_of(lookup) matches Err(detail) && e.is_call_failure(detail),
        },
{
    let site_hash = keccak256_site_id(incident.site_id);
    let subject = resolve_subject_address(lookup)?;
    Ok(assemble_call(incident, site_hash, subject))
}

/// What the chain recorded of a transaction.
#[derive(Clone, Copy, Debug)]
pub struct TxReceipt {
    /// 1 where the transaction took effect.
    pub status: Option<u64>,
    pub transaction_hash: [u8; 32],
}

/// A transaction hash as it is written.
pub open spec fn tx_hash_text(hash: Seq<u8>) -> Seq<char> {
    "0x"@ + bytes_hex(hash)
}

/// The `Debug` text of the `ethers::types::H256` of these bytes: `0x` and all 64 lower-case
/// hexadecimal digits.
#[verifier::external_body]
fn h256_text(hash: &[u8; 32]) -> (text: String)
    ensures
        text@ == tx_hash_text(hash@),
{
    format!("{:?}", H256(*hash))
}

/// What keeps a transaction from counting as an attestation: the chain refused or dropped it, or
/// it was reverted.
pub open spec fn receipt_fault(receipt: Result<Option<TxReceipt>, String>) -> Option<Seq<char>> {
    match receipt {
        Err(e) => Some(e@),
        Ok(None) => Some("transaction dropped, no receipt"@),
        Ok(Some(r)) => if r.status == Some(1u64) {
            None
        } else {
            Some("transaction reverted, tx hash "@ + tx_hash_text(r.transaction_hash@))
        },
    }
}

/// The hash under which an incident is to be marked as minted. Only a transaction that was mined
/// and took effect has one; until then nothing may be recorded.
pub fn confirmed_hash(receipt: Result<Option<TxReceipt>, String>) -> (hash: Result<
    String,
    AttestationError,
>)
    ensures
        match hash {
            Ok(text) => {
                &&& receipt matches Ok(Some(r)) && r.status == Some(1u64) && text@ == tx_hash_text(
                    r.transaction_hash@,
                )
                &&& receipt_fault(receipt) is None
            },
            Err(e) => receipt_fault(receipt) matches Some(detail) && e.is_call_failure(detail),
        },
{
    match receipt {
        Err(e) => Err(AttestationError::ContractCallFailed(e)),
        Ok(None) => Err(
            AttestationError::ContractCallFailed("transaction dropped, no receipt".to_owned()),
        ),
        Ok(Some(r)) => {
            let text = h256_text(&r.transaction_hash);
            match r.status {
                Some(1) => Ok(text),
                _ => Err(
                    AttestationError::ContractCallFailed(
                        join2("transaction reverted, tx hash ", text.as_str()),
                    ),
                ),
            }
        },
    }
}

/// How the mint of one incident ended.
#[derive(Debug)]
pub struct MintVerdict {
    /// `true` for a clean mint, `false` for one whose row another process had claimed.
    pub result: Result<bool, AttestationError>,
    /// What the log must hear of, though it is no failure.
    pub warning: Option<AttestationError>,
}

/// How the mint of an incident ended, by what became of marking its row.
pub open spec fn mint_result(marked: Result<bool, DbError>) -> Result<bool, AttestationError> {
    match marked {
        Ok(updated) => Ok(updated),
        Err(e) => Err(AttestationError::Db(e)),
    }
}

/// Judges the mint of an incident by what became of marking its row. `marked` tells whether the
/// row was still pending. A row that was not is no failure of the mint, but a warning.
pub fn conclude_mint(
    incident_id: Uuid,
    tx_hash: String,
    marked: Result<bool, DbError>,
) -> (verdict: MintVerdict)
    ensures
        verdict.result == mint_result(marked),
        verdict.warning == (if marked == Ok::<bool, DbError>(false) {
            Some(AttestationError::RaceDetectedAfterMint { incident_id, tx_hash })
        } else {
            None
        }),
{
    match marked {
        Ok(updated) => if updated {
            MintVerdict { result: Ok(true), warning: None }
        } else {
            MintVerdict {
                result: Ok(false),
                warning: Some(AttestationError::RaceDetectedAfterMint { incident_id, tx_hash }),
            }
        },
        Err(e) => MintVerdict { result: Err(AttestationError::from(e)), warning: None },
    }
}

/// Whether a mint ended cleanly.
pub open spec fn is_minted(result: Result<bool, AttestationError>) -> bool {
    result == Ok::<bool, AttestationError>(true)
}

/// The incident whose row must be marked as failed after its mint ended so.
pub open spec fn to_mark_failed(id: Uuid, result: Result<bool, AttestationError>) -> Option<Uuid> {
    match result {
        Ok(_) => None,
        Err(_) => Some(id),
    }
}

/// The number of incidents that have had their turn in a cycle, and of those minted, after one
/// more result.
pub open spec fn cycle_step(counts: (int, int), result: Result<bool, AttestationError>) -> (
    int,
    int,
) {
    (
        counts.0 + 1,
        counts.1 + (if is_minted(result) {
            1int
        } else {
            0
        }),
    )
}

/// The counts of a cycle after these results.
pub open spec fn cycle_counts(results: Seq<Result<bool, AttestationError>>) -> (int, int)
    decreases results.len(),
{
    if results.len() == 0 {
        (0, 0)
    } else {
        cycle_step(cycle_counts(results.drop_last()), results.last())
    }
}

/// One cycle over the pending incidents: each gets its turn once, whatever becomes of the others.
pub struct MintCycle {
    pending: Vec<IncidentRow>,
    done: usize,
    minted: u32,
}

impl MintCycle {
    #[verifier::type_invariant]
    spec fn wf(self) -> bool {
        self.minted <= self.done <= self.pending@.len()
    }

    /// The incidents of the cycle.
    pub closed spec fn spec_pending(self) -> Seq<IncidentRow> {
        self.pending@
    }

    /// How many incidents have had their turn.
    pub closed spec fn spec_done(self) -> int {
        self.done as int
    }

    /// How many of those were minted.
    pub closed spec fn spec_minted(self) -> int {
        self.minted as int
    }

    /// A cycle over these incidents, none of which has had its turn.
    pub fn new(pending: Vec<IncidentRow>) -> (cycle: MintCycle)
        ensures
            cycle.spec_pending() == pending@,
            cycle.spec_done() == 0,
            cycle.spec_minted() == 0,
    {
        MintCycle { pending, done: 0, minted: 0 }
    }

    /// The incident whose turn it is, until all have had theirs.
    pub fn current(&self) -> (incident: Option<&IncidentRow>)
        ensures
            match incident {
                Some(row) => self.spec_done() < self.spec_pending().len() && *row
                    == self.spec_pending()[self.spec_done()],
                None => self.spec_done() == self.spec_pending().len(),
            },
    {
        proof {
            use_type_invariant(self);
        }
        if self.done < self.pending.len() {
            Some(&self.pending[self.done])
        } else {
            None
        }
    }

    /// Takes down how the mint of the current incident ended and moves on to the next. Returns the
    /// incident where its row must now be marked as failed: where the mint failed, and only there.
    pub fn record(&mut self, result: &Result<bool, AttestationError>) -> (failed: Option<Uuid>)
        requires
            old(self).spec_done() < old(self).spec_pending().len(),
            is_minted(*result) ==> old(self).spec_minted() < u32::MAX,
        ensures
            final(self).spec_pending() == old(self).spec_pending(),
            (final(self).spec_done(), final(self).spec_minted()) == cycle_step(
                (old(self).spec_done(), old(self).spec_minted()),
                *result,
            ),
            failed == to_mark_failed(
                old(self).spec_pending()[old(self).spec_done()].id,
                *result,
            ),
    {
        proof {
            use_type_invariant(&*self);
        }
        let id = self.pending[self.done].id;
        assert(self.done < self.pending.len());
        self.done = self.done + 1;
        match result {
            Ok(true) => {
                self.minted = self.minted + 1;
                None
            },
            Ok(false) => None,
            Err(_) => Some(id),
        }
    }

    /// How many incidents the cycle has minted.
    pub fn minted_count(&self) -> (count: u32)
        ensures
            count == self.spec_minted(),
            count <= self.spec_done(),
    {
        proof {
            use_type_invariant(self);
        }
        self.minted
    }
}

/// Stands in for the chain during development: hands out transaction hashes that no one can take
/// for real ones.
pub struct MockMinter {
    counter: u64,
}

/// The stand-in hash of the `n`th incident: a tag and sixteen hexadecimal digits.
pub open spec fn mock_hash(n: nat) -> Seq<char> {
    "MOCK-"@ + hex(n, 16)
}

/// A pending incident, and the stand-in hash that it is to be marked with.
#[derive(Debug)]
pub struct MockMark {
    pub incident_id: Uuid,
    pub tx_hash: String,
}

impl View for MockMark {
    type V = (Uuid, Seq<char>);

    open spec fn view(&self) -> (Uuid, Seq<char>) {
        (self.incident_id, self.tx_hash@)
    }
}

/// How pending incidents are to be marked after `handed_out` others were: each with the hash of
/// its number, counted from the first incident of all.
pub open spec fn marks_after(handed_out: nat, pending: Seq<IncidentRow>) -> Seq<
    (Uuid, Seq<char>),
> {
    Seq::new(
        pending.len(),
        |i: int| (pending[i].id, mock_hash((handed_out + i + 1) as nat)),
    )
}

impl MockMinter {
    /// How many hashes have been handed out.
    pub closed spec fn spec_count(self) -> nat {
        self.counter as nat
    }

    /// A stand-in that has handed out no hash.
    pub fn new() -> (minter: MockMinter)
        ensures
            minter.spec_count() == 0,
    {
        MockMinter { counter: 0 }
    }

    /// How many hashes have been handed out.
    pub fn count(&self) -> (count: u64)
        ensures
            count == self.spec_count(),
    {
        self.counter
    }

    /// The next stand-in hash.
    pub fn next_hash(&mut self) -> (hash: String)
        requires
            old(self).spec_count() < u64::MAX,
        ensures
            final(self).spec_count() == old(self).spec_count() + 1,
            hash@ == mock_hash(final(self).spec_count()),
    {
        self.counter = self.counter + 1;
        let digits = hex_text(self.counter, 16);
        join2("MOCK-", digits.as_str())
    }

    /// How the pending incidents of one cycle are to be marked, in order.
    pub fn marks(&mut self, pending: &[IncidentRow]) -> (marks: Vec<MockMark>)
        requires
            old(self).spec_count() + pending@.len() <= u64::MAX,
        ensures
            final(self).spec_count() == old(self).spec_count() + pending@.len(),
            marks@.map_values(|m: MockMark| m@) == marks_after(old(self).spec_count(), pending@),
    {
        let ghost shown = |m: MockMark| m@;
        let mut marks: Vec<MockMark> = Vec::new();
        let mut i: usize = 0;
        assert(marks@.map_values(shown) =~= marks_after(self.spec_count(), pending@.take(0)));
        while i < pending.len()
            invariant
                i <= pending@.len(),
                old(self).spec_count() + pending@.len() <= u64::MAX,
                self.spec_count() == old(self).spec_count() + i,
                shown == (|m: MockMark| m@),
                marks@.map_values(shown) == marks_after(
                    old(self).spec_count(),
                    pending@.take(i as int),
                ),
            decreases pending.len() - i,
        {
            let ghost before = marks@;
            let tx_hash = self.next_hash();
            marks.push(MockMark { incident_id: pending[i].id, tx_hash });
            i = i + 1;
            assert(marks@.map_values(shown) =~= before.map_values(shown).push(marks@.last()@));
            assert(marks@.map_values(shown) =~= marks_after(
                old(self).spec_count(),
                pending@.take(i as int),
            ));
        }
        assert(pending@.take(pending@.len() as int) =~= pending@);
        marks
    }
}

/// Rules that differ are minted under types that differ, and never under the one for training.
pub proof fn law_rules_have_distinct_codes(a: RuleType, b: RuleType)
    ensures
        attestation_type(a).spec_code() == attestation_type(b).spec_code() ==> a == b,
        attestation_type(a) != ContractAttestationType::TrainingComplete,
{
}

/// An attestation that is on the chain never gets its row marked as failed for being claimed by
/// another process, and counts as minted only where the row was still pending.
pub proof fn law_race_is_neither_failed_nor_minted(id: Uuid, marked: Result<bool, DbError>)
    ensures
        to_mark_failed(id, mint_result(marked)) is Some <==> marked is Err,
        is_minted(mint_result(marked)) <==> marked == Ok::<bool, DbError>(true),
{
}

/// A cycle has moved on once for every result, and counts as minted those that ended cleanly: a
/// failure or a race neither stops it nor is counted.
pub proof fn law_cycle_counts_clean_mints(results: Seq<Result<bool, AttestationError>>)
    ensures
        cycle_counts(results).0 == results.len(),
        cycle_counts(results).1 == results.filter(
            |r: Result<bool, AttestationError>| is_minted(r),
        ).len(),
    decreases results.len(),
{
    reveal(Seq::filter);
    if results.len() > 0 {
        law_cycle_counts_clean_mints(results.drop_last());
    }
}

/// No two of the stand-in hashes that a counter can reach are the same.
pub proof fn law_mock_hashes_are_distinct(m: nat, n: nat)
    requires
        m <= u64::MAX,
        n <= u64::MAX,
        m != n,
    ensures
        mock_hash(m) != mock_hash(n),
{
    assert(pow(16, 16) == 0x1_0000_0000_0000_0000) by {
        reveal_with_fuel(pow, 17);
    }
    if mock_hash(m) == mock_hash(n) {
        let tag = "MOCK-"@;
        assert((tag + hex(m, 16)).skip(tag.len() as int) =~= hex(m, 16));
        assert((tag + hex(n, 16)).skip(tag.len() as int) =~= hex(n, 16));
        lemma_hex_is_injective(m, n, 16);
    }
}

/// How all the incidents of a run are marked, cycle after cycle, whatever became of each mark.
pub open spec fn run_marks(cycles: Seq<Seq<IncidentRow>>) -> Seq<(Uuid, Seq<char>)>
    decreases cycles.len(),
{
    if cycles.len() == 0 {
        Seq::empty()
    } else {
        let earlier = run_marks(cycles.drop_last());
        earlier + marks_after(earlier.len(), cycles.last())
    }
}

/// Over a run of any length, the `k`th incident that was pending is marked, with the hash of `k`,
/// counted from 1 over all cycles. No hash is used twice up to the last that a counter of 64 bits can number. The first
/// is `MOCK-0000000000000001`.
pub proof fn law_a_run_numbers_its_hashes(cycles: Seq<Seq<IncidentRow>>)
    ensures
        run_marks(cycles).len() == cycles.flatten_alt().len(),
        forall|k: int|
            0 <= k < run_marks(cycles).len() ==> #[trigger] run_marks(cycles)[k] == (
                cycles.flatten_alt()[k].id,
                mock_hash((k + 1) as nat),
            ),
        forall|j: int, k: int|
            0 <= j < k < run_marks(cycles).len() && k < u64::MAX ==> (
            #[trigger] run_marks(cycles)[j]).1 != (#[trigger] run_marks(cycles)[k]).1,
        mock_hash(1) == "MOCK-0000000000000001"@,
    decreases cycles.len(),
{
    let run = run_marks(cycles);
    if cycles.len() != 0 {
        law_a_run_numbers_its_hashes(cycles.drop_last());
        let earlier = run_marks(cycles.drop_last());
        assert forall|k: int| 0 <= k < run.len() implies #[trigger] run[k] == (
            cycles.flatten_alt()[k].id,
            mock_hash((k + 1) as nat),
        ) by {
            if k < earlier.len() {
                assert(run[k] == earlier[k]);
            } else {
                assert(run[k] == marks_after(earlier.len(), cycles.last())[k - earlier.len()]);
            }
        }
    }
    assert forall|j: int, k: int| 0 <= j < k < run.len() && k < u64::MAX implies (
    #[trigger] run[j]).1 != (#[trigger] run[k]).1 by {
        law_mock_hashes_are_distinct((j + 1) as nat, (k + 1) as nat);
    }
    reveal_strlit("MOCK-");
    reveal_strlit("MOCK-0000000000000001");
    reveal_with_fuel(hex, 17);
    assert(mock_hash(1) =~= "MOCK-0000000000000001"@);
}

/// A stand-in hash is never the hash of a transaction.
pub proof fn law_mock_hash_is_no_transaction_hash(n: nat, hash: Seq<u8>)
    ensures
        mock_hash(n) != tx_hash_text(hash),
{
    reveal_strlit("MOCK-");
    reveal_strlit("0x");
    assert(mock_hash(n)[0] == 'M');
    assert(tx_hash_text(hash)[0] == '0');
}

} // verus!
