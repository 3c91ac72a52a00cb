//! What holds of the minting of attestations, told by the fields of what goes in and comes out.

use ethers::abi::Abi;
use vstd::arithmetic::div_mod::lemma_div_denominator;
use vstd::arithmetic::power::{lemma_pow_positive, pow};
use vstd::prelude::*;

use crate::abi::read_abi;
use crate::attestation::{
    address_digits, address_of, after_prefix, assemble_call, check_chain,
    conclude_mint, confirmed_hash, digit_value, is_skipped, keccak256, keccak256_site_id, mint_call,
    mock_hash, minter_part, resolve_subject_address, wallet_of, wallet_subject,
    without_blanks, AttestationError, AttestationMinter, ContractAttestationType, MintCall,
    MintCycle, MintVerdict, MockMark, MockMinter, TxReceipt, WalletLookup,
};
use crate::db::{DbError, IncidentRow};
use crate::ids::Uuid;
use crate::rules::RuleType;
use crate::text::{bytes_hex, decimal, digit, hex, lemma_hex_len};

verus! {

/// The arguments of a mint are those of the incident: the number of its rule, its confidence as the
/// severity, whatever the rule, and its second; a confidence below zero counts as none, and a second
/// before the epoch wraps around 64 bits. The site hash and the subject are passed on.
pub proof fn law_a_call_carries_its_incident(
    incident: &IncidentRow,
    site_hash: [u8; 32],
    subject: [u8; 20],
    call: MintCall,
)
    requires
        call_ensures(assemble_call, (incident, site_hash, subject), call),
    ensures
        incident.rule_triggered == RuleType::PpeMissing ==> call.attestation_type == 0,
        incident.rule_triggered == RuleType::ZoneBreach ==> call.attestation_type == 1,
        incident.confidence_bp >= 0 ==> call.severity_score == incident.confidence_bp,
        incident.confidence_bp < 0 ==> call.severity_score == 0,
        incident.detected_at.spec_secs() >= 0 ==> call.timestamp == incident.detected_at.spec_secs(),
        incident.detected_at.spec_secs() < 0 ==> call.timestamp
            == incident.detected_at.spec_secs() + 0x1_0000_0000_0000_0000,
        call.site_hash@ == site_hash@,
        call.subject@ == subject@,
{
}

/// Calls of two incidents that differ in their rule alone differ in their attestation type alone,
/// and differ there if the rules do.
pub proof fn law_the_rule_decides_the_type_alone(
    a: &IncidentRow,
    b: &IncidentRow,
    site_hash: [u8; 32],
    subject: [u8; 20],
    call_a: MintCall,
    call_b: MintCall,
)
    requires
        call_ensures(assemble_call, (a, site_hash, subject), call_a),
        call_ensures(assemble_call, (b, site_hash, subject), call_b),
        a.confidence_bp == b.confidence_bp,
        a.detected_at == b.detected_at,
    ensures
        call_a.severity_score == call_b.severity_score,
        call_a.timestamp == call_b.timestamp,
        call_a.site_hash@ == call_b.site_hash@,
        call_a.subject@ == call_b.subject@,
        call_a.attestation_type == call_b.attestation_type <==> a.rule_triggered
            == b.rule_triggered,
{
}

/// Incidents with different confidences, neither below zero, get different severities, and the
/// larger confidence the larger one, whatever else they differ in.
pub proof fn law_severity_follows_confidence(
    a: &IncidentRow,
    b: &IncidentRow,
    hash_a: [u8; 32],
    hash_b: [u8; 32],
    subject_a: [u8; 20],
    subject_b: [u8; 20],
    call_a: MintCall,
    call_b: MintCall,
)
    requires
        call_ensures(assemble_call, (a, hash_a, subject_a), call_a),
        call_ensures(assemble_call, (b, hash_b, subject_b), call_b),
        a.confidence_bp >= 0,
        b.confidence_bp >= 0,
    ensures
        a.confidence_bp < b.confidence_bp <==> call_a.severity_score < call_b.severity_score,
        a.detected_at.spec_secs() != b.detected_at.spec_secs() && a.detected_at.spec_secs() >= 0
            && b.detected_at.spec_secs() >= 0 ==> call_a.timestamp != call_b.timestamp,
{
}

/// The call that is made for an incident has the digest of its own site's bytes and the subject
/// that the look-up of its worker gives; it fails if and only if that does, with the same failure.
pub proof fn law_a_call_is_made_of_its_parts(
    incident: &IncidentRow,
    lookup: WalletLookup,
    call: Result<MintCall, AttestationError>,
    digest: [u8; 32],
    subject: Result<[u8; 20], AttestationError>,
)
    requires
        call_ensures(mint_call, (incident, lookup), call),
        call_ensures(keccak256_site_id, (incident.site_id,), digest),
        call_ensures(resolve_subject_address, (lookup,), subject),
    ensures
        call is Ok <==> subject is Ok,
        call is Ok ==> {
            let c = call->Ok_0;
            &&& c.site_hash@ == digest@
            &&& c.subject@ == subject->Ok_0@
            &&& incident.rule_triggered == RuleType::PpeMissing ==> c.attestation_type == 0
            &&& incident.rule_triggered == RuleType::ZoneBreach ==> c.attestation_type == 1
            &&& incident.confidence_bp >= 0 ==> c.severity_score == incident.confidence_bp
            &&& incident.confidence_bp < 0 ==> c.severity_score == 0
            &&& incident.detected_at.spec_secs() >= 0 ==> c.timestamp
                == incident.detected_at.spec_secs()
            &&& incident.detected_at.spec_secs() < 0 ==> c.timestamp
                == incident.detected_at.spec_secs() + 0x1_0000_0000_0000_0000
        },
        call is Err ==> call->Err_0 is ContractCallFailed && subject->Err_0 is ContractCallFailed
            && call->Err_0->ContractCallFailed_0@ == subject->Err_0->ContractCallFailed_0@,
        digest@ == keccak256(incident.site_id.spec_bytes()),
{
}

/// Rules have the numbers that the contract has for them.
pub proof fn law_contract_types_have_their_numbers(
    kind: ContractAttestationType,
    code: u8,
    rule: RuleType,
    of_rule: ContractAttestationType,
)
    requires
        call_ensures(ContractAttestationType::code, (&kind,), code),
        call_ensures(<ContractAttestationType as From<RuleType>>::from, (rule,), of_rule),
    ensures
        kind == ContractAttestationType::PpeMissing ==> code == 0,
        kind == ContractAttestationType::ZoneBreach ==> code == 1,
        kind == ContractAttestationType::TrainingComplete ==> code == 2,
        rule == RuleType::PpeMissing ==> of_rule == ContractAttestationType::PpeMissing,
        rule == RuleType::ZoneBreach ==> of_rule == ContractAttestationType::ZoneBreach,
{
}

/// Whether bytes are twenty zeros.
pub open spec fn nobody(address: Seq<u8>) -> bool {
    address.len() == 20 && forall|i: int| 0 <= i < 20 ==> #[trigger] address[i] == 0
}

/// Without a worker, or without a wallet, the subject is nobody; a look-up that failed fails, with
/// its own text.
pub proof fn law_without_a_wallet_the_subject_is_nobody(
    lookup: WalletLookup,
    subject: Result<[u8; 20], AttestationError>,
)
    requires
        call_ensures(resolve_subject_address, (lookup,), subject),
    ensures
        lookup is Unattributed ==> subject is Ok && nobody(subject->Ok_0@),
        lookup is NoSuchWorker ==> subject is Ok && nobody(subject->Ok_0@),
        lookup matches WalletLookup::Found(None) ==> subject is Ok && nobody(subject->Ok_0@),
        lookup matches WalletLookup::Failed(e) ==> subject is Err && subject->Err_0
            is ContractCallFailed && subject->Err_0->ContractCallFailed_0@ == e@,
        lookup matches WalletLookup::Unreadable(e) ==> subject is Err && subject->Err_0
            is ContractCallFailed && subject->Err_0->ContractCallFailed_0@ == e@,
{
}

/// A digit and its value.
proof fn lemma_digit(d: int)
    requires
        0 <= d < 16,
    ensures
        digit_value(digit(d)) == Some(d),
        !is_skipped(digit(d)),
        digit(d) != 'x',
{
}

/// A text of digits alone is its own digits.
proof fn lemma_no_blanks(text: Seq<char>)
    requires
        forall|i: int| 0 <= i < text.len() ==> !is_skipped(#[trigger] text[i]),
    ensures
        without_blanks(text) == text,
    decreases text.len(),
{
    reveal(Seq::filter);
    let keep = |c: char| !is_skipped(c);
    if text.len() > 0 {
        lemma_no_blanks(text.drop_last());
        assert(keep(text.last()));
        assert(text.drop_last().push(text.last()) =~= text);
    } else {
        assert(without_blanks(text) =~= text);
    }
}

/// The digits of bytes spell these bytes.
proof fn lemma_written_address(address: Seq<u8>)
    requires
        address.len() == 20,
    ensures
        without_blanks(bytes_hex(address)) == bytes_hex(address),
        address_of(bytes_hex(address)) == Some(address),
        address_of("0x"@ + bytes_hex(address)) == Some(address),
{
    let text = bytes_hex(address);
    assert forall|i: int| 0 <= i < text.len() implies !is_skipped(#[trigger] text[i])
        && digit_value(text[i]) is Some && text[i] != 'x' by {
        lemma_digit(address[i / 2] as int / 16);
        lemma_digit(address[i / 2] as int % 16);
    }
    lemma_no_blanks(text);
    reveal_strlit("0x");
    let prefixed = "0x"@ + text;
    assert(prefixed.skip(2) =~= text);
    assert(after_prefix(prefixed) == text);
    assert(after_prefix(text) == text);
    let read = Seq::new(
        20,
        |i: int| (16 * digit_value(text[2 * i])->0 + digit_value(text[2 * i + 1])->0) as u8,
    );
    assert forall|i: int| 0 <= i < 20 implies #[trigger] read[i] == address[i] by {
        lemma_digit(address[i] as int / 16);
        lemma_digit(address[i] as int % 16);
        assert(text[2 * i] == digit(address[i] as int / 16));
        assert(text[2 * i + 1] == digit(address[i] as int % 16));
    }
    assert(read =~= address);
}

/// The wallet of a worker is read as the address that it writes: each twenty bytes, written as
/// forty digits, after `0x` or without it, are the subject.
pub proof fn law_wallets_are_read_as_written(
    address: Seq<u8>,
    wallet: String,
    subject: Result<[u8; 20], AttestationError>,
)
    requires
        address.len() == 20,
        wallet@ == bytes_hex(address) || wallet@ == "0x"@ + bytes_hex(address),
        call_ensures(resolve_subject_address, (WalletLookup::Found(Some(wallet)),), subject),
    ensures
        subject is Ok,
        subject->Ok_0@ == address,
{
    lemma_written_address(address);
}

/// Whether two characters are the same up to the case of a hexadecimal digit.
pub open spec fn same_but_case(a: char, b: char) -> bool {
    ||| a == b
    ||| 'a' as u32 <= a as u32 <= 'f' as u32 && b as u32 + 32 == a as u32
    ||| 'A' as u32 <= a as u32 <= 'F' as u32 && b as u32 == a as u32 + 32
}

proof fn lemma_same_digits(a: Seq<char>, b: Seq<char>)
    requires
        a.len() == b.len(),
        forall|i: int| 0 <= i < a.len() ==> same_but_case(#[trigger] a[i], b[i]),
    ensures
        without_blanks(a).len() == without_blanks(b).len(),
        forall|i: int|
            0 <= i < without_blanks(a).len() ==> digit_value(#[trigger] without_blanks(a)[i])
                == digit_value(without_blanks(b)[i]),
    decreases a.len(),
{
    reveal(Seq::filter);
    if a.len() > 0 {
        let (p, q) = (a.drop_last(), b.drop_last());
        assert forall|i: int| 0 <= i < p.len() implies same_but_case(#[trigger] p[i], q[i]) by {
            assert(same_but_case(a[i], b[i]));
        }
        lemma_same_digits(p, q);
        let n = a.len() - 1;
        assert(same_but_case(a[n], b[n]));
        assert(is_skipped(a.last()) == is_skipped(b.last()));
        assert(digit_value(a.last()) == digit_value(b.last()));
        assert forall|i: int| 0 <= i < without_blanks(a).len() implies digit_value(
            #[trigger] without_blanks(a)[i],
        ) == digit_value(without_blanks(b)[i]) by {
            if i < without_blanks(p).len() {
                assert(without_blanks(a)[i] == without_blanks(p)[i]);
                assert(without_blanks(b)[i] == without_blanks(q)[i]);
            }
        }
    }
}

/// The case of the digits of a wallet does not matter.
pub proof fn law_the_case_of_wallets_does_not_matter(
    a: String,
    b: String,
    subject_a: Result<[u8; 20], AttestationError>,
    subject_b: Result<[u8; 20], AttestationError>,
)
    requires
        call_ensures(resolve_subject_address, (WalletLookup::Found(Some(a)),), subject_a),
        call_ensures(resolve_subject_address, (WalletLookup::Found(Some(b)),), subject_b),
        a@.len() == b@.len(),
        forall|i: int| 0 <= i < a@.len() ==> same_but_case(#[trigger] a@[i], b@[i]),
    ensures
        subject_a is Ok <==> subject_b is Ok,
        subject_a is Ok ==> subject_a->Ok_0@ == subject_b->Ok_0@,
{
    let (p, q) = (after_prefix(a@), after_prefix(b@));
    if a@.len() >= 2 {
        assert(same_but_case(a@[0], b@[0]) && same_but_case(a@[1], b@[1]));
        assert((a@[0] == '0' && a@[1] == 'x') == (b@[0] == '0' && b@[1] == 'x'));
    }
    assert forall|i: int| 0 <= i < p.len() implies same_but_case(#[trigger] p[i], q[i]) by {
        let j = i + a@.len() - p.len();
        assert(same_but_case(a@[j], b@[j]));
        assert(p[i] == a@[j] && q[i] == b@[j]);
    }
    lemma_same_digits(p, q);
    let (x, y) = (address_digits(a@), address_digits(b@));
    assert forall|i: int| 0 <= i < x.len() implies digit_value(#[trigger] x[i]) == digit_value(
        y[i],
    ) by {}
    if forall|i: int| 0 <= i < x.len() ==> digit_value(#[trigger] x[i]) is Some {
        assert forall|i: int| 0 <= i < y.len() implies digit_value(#[trigger] y[i]) is Some by {
            assert(digit_value(x[i]) is Some);
        }
    }
    if forall|i: int| 0 <= i < y.len() ==> digit_value(#[trigger] y[i]) is Some {
        assert forall|i: int| 0 <= i < x.len() implies digit_value(#[trigger] x[i]) is Some by {
            assert(digit_value(y[i]) is Some);
        }
    }
    if address_of(a@) is Some && address_of(b@) is Some {
        assert(address_of(a@)->0 =~= address_of(b@)->0);
    }
}

/// Of a wallet that is read, nothing matters but its digits: blanks among them do not.
pub proof fn law_blanks_in_wallets_do_not_matter(
    a: String,
    b: String,
    subject_a: Result<[u8; 20], AttestationError>,
    subject_b: Result<[u8; 20], AttestationError>,
)
    requires
        call_ensures(resolve_subject_address, (WalletLookup::Found(Some(a)),), subject_a),
        call_ensures(resolve_subject_address, (WalletLookup::Found(Some(b)),), subject_b),
        ({
            let solid = |c: char| c != ' ' && c != '\t' && c != '\r' && c != '\n';
            a@.len() >= 2 && b@.len() >= 2 && a@.take(2) == "0x"@ && b@.take(2) == "0x"@
                && a@.skip(2).filter(solid) == b@.skip(2).filter(solid)
        }),
    ensures
        subject_a is Ok <==> subject_b is Ok,
        subject_a is Ok ==> subject_a->Ok_0@ == subject_b->Ok_0@,
{
    reveal_strlit("0x");
    let solid = |c: char| c != ' ' && c != '\t' && c != '\r' && c != '\n';
    assert(a@[0] == a@.take(2)[0] && a@[1] == a@.take(2)[1]);
    assert(b@[0] == b@.take(2)[0] && b@[1] == b@.take(2)[1]);
    lemma_same_filter(a@.skip(2), solid, |c: char| !is_skipped(c));
    lemma_same_filter(b@.skip(2), solid, |c: char| !is_skipped(c));
    assert(address_digits(a@) == address_digits(b@));
}

proof fn lemma_same_filter(text: Seq<char>, p: spec_fn(char) -> bool, q: spec_fn(char) -> bool)
    requires
        forall|c: char| #[trigger] p(c) == q(c),
    ensures
        text.filter(p) == text.filter(q),
    decreases text.len(),
{
    reveal(Seq::filter);
    if text.len() > 0 {
        lemma_same_filter(text.drop_last(), p, q);
        assert(p(text.last()) == q(text.last()));
    }
}

/// Whether a character is neither a hexadecimal digit nor a blank.
pub open spec fn is_stranger(c: char) -> bool {
    let n = c as u32;
    &&& !('0' as u32 <= n <= '9' as u32)
    &&& !('a' as u32 <= n <= 'f' as u32)
    &&& !('A' as u32 <= n <= 'F' as u32)
    &&& c != ' ' && c != '\t' && c != '\r' && c != '\n'
}

/// Whether a text has such a character, other than the `x` of a `0x` at its start.
pub open spec fn has_stranger(text: Seq<char>) -> bool {
    exists|i: int|
        0 <= i < text.len() && is_stranger(#[trigger] text[i]) && !(i == 1 && text[0] == '0'
            && text[1] == 'x')
}

/// A wallet with a character that is no digit and no blank is refused, and so is any other that does
/// not write forty digits; the failure is that of the contract call.
pub proof fn law_broken_wallets_are_refused(
    wallet: String,
    subject: Result<[u8; 20], AttestationError>,
)
    requires
        call_ensures(resolve_subject_address, (WalletLookup::Found(Some(wallet)),), subject),
        has_stranger(wallet@) || wallet@.len() < 40,
    ensures
        subject is Err && subject->Err_0 is ContractCallFailed,
{
    let text = after_prefix(wallet@);
    let keep = |c: char| !is_skipped(c);
    let digits = text.filter(keep);
    lemma_filter_len(text, keep);
    if has_stranger(wallet@) {
        let i = choose|i: int|
            0 <= i < wallet@.len() && is_stranger(#[trigger] wallet@[i]) && !(i == 1 && wallet@[0]
                == '0' && wallet@[1] == 'x');
        let j = if text == wallet@ {
            i
        } else {
            i - 2
        };
        let c = wallet@[i];
        assert(text[j] == c);
        assert(digit_value(c) is None && !is_skipped(c));
        lemma_filter_keeps(text, keep, j);
        let k = choose|k: int| 0 <= k < digits.len() && digits[k] == text[j];
        assert(digit_value(digits[k]) is None);
        assert(address_of(wallet@) is None);
    }
}

proof fn lemma_filter_len(text: Seq<char>, keep: spec_fn(char) -> bool)
    ensures
        text.filter(keep).len() <= text.len(),
    decreases text.len(),
{
    reveal(Seq::filter);
    if text.len() > 0 {
        lemma_filter_len(text.drop_last(), keep);
    }
}

proof fn lemma_filter_keeps(text: Seq<char>, keep: spec_fn(char) -> bool, j: int)
    requires
        0 <= j < text.len(),
        keep(text[j]),
    ensures
        exists|k: int| 0 <= k < text.filter(keep).len() && text.filter(keep)[k] == text[j],
    decreases text.len(),
{
    reveal(Seq::filter);
    let shorter = text.drop_last();
    if j < shorter.len() {
        lemma_filter_keeps(shorter, keep, j);
        let k = choose|k: int| 0 <= k < shorter.filter(keep).len() && shorter.filter(keep)[k]
            == shorter[j];
        assert(text.filter(keep)[k] == text[j]);
    } else {
        assert(text.filter(keep)[text.filter(keep).len() - 1] == text[j]);
    }
}

/// Only a transaction that was mined and took effect gives a hash, and the hash is written in full:
/// two transactions are written alike only if they are the same.
pub proof fn law_only_effective_transactions_count(
    a: Result<Option<TxReceipt>, String>,
    b: Result<Option<TxReceipt>, String>,
    hash_a: Result<String, AttestationError>,
    hash_b: Result<String, AttestationError>,
)
    requires
        call_ensures(confirmed_hash, (a,), hash_a),
        call_ensures(confirmed_hash, (b,), hash_b),
    ensures
        hash_a is Ok <==> a is Ok && a->Ok_0 is Some && (a->Ok_0->0).status == Some(1u64),
        hash_a is Ok ==> hash_a->Ok_0@.len() == 66 && hash_a->Ok_0@.take(2) == "0x"@,
        hash_a is Ok && hash_b is Ok && hash_a->Ok_0@ == hash_b->Ok_0@ ==> (
        a->Ok_0->0).transaction_hash@ == (b->Ok_0->0).transaction_hash@,
        hash_a is Err ==> hash_a->Err_0 is ContractCallFailed,
        a matches Err(e) ==> hash_a->Err_0->ContractCallFailed_0@ == e@,
        a matches Ok(None) ==> hash_a->Err_0->ContractCallFailed_0@
            == "transaction dropped, no receipt"@,
{
    reveal_strlit("0x");
    if hash_a is Ok {
        let x = (a->Ok_0->0).transaction_hash@;
        assert(hash_a->Ok_0@.take(2) =~= "0x"@);
        if hash_b is Ok && hash_a->Ok_0@ == hash_b->Ok_0@ {
            let y = (b->Ok_0->0).transaction_hash@;
            assert forall|i: int| 0 <= i < 32 implies x[i] == y[i] by {
                let (s, t) = (hash_a->Ok_0@, hash_b->Ok_0@);
                assert(s[2 + 2 * i] == bytes_hex(x)[2 * i] && t[2 + 2 * i] == bytes_hex(y)[2 * i]);
                assert(s[3 + 2 * i] == bytes_hex(x)[2 * i + 1] && t[3 + 2 * i] == bytes_hex(y)[2 * i
                    + 1]);
                lemma_digit(x[i] as int / 16);
                lemma_digit(x[i] as int % 16);
                lemma_digit(y[i] as int / 16);
                lemma_digit(y[i] as int % 16);
            }
            assert(x =~= y);
        }
    }
}

/// Whether a character is the lower-case hexadecimal digit of this value.
pub open spec fn writes(c: char, value: int) -> bool {
    &&& value < 10 ==> c as int == '0' as int + value
    &&& value >= 10 ==> c as int == 'a' as int + (value - 10)
}

/// A transaction hash is written as `0x` and two lower-case hexadecimal digits for each byte, in
/// order.
pub proof fn law_hashes_are_written_byte_by_byte(
    receipt: TxReceipt,
    hash: String,
    i: int,
)
    requires
        call_ensures(
            confirmed_hash,
            (Ok::<Option<TxReceipt>, String>(Some(receipt)),),
            Ok::<String, AttestationError>(hash),
        ),
        0 <= i < 32,
    ensures
        hash@.len() == 66 && hash@[0] == '0' && hash@[1] == 'x',
        writes(hash@[2 + 2 * i], receipt.transaction_hash@[i] as int / 16),
        writes(hash@[3 + 2 * i], receipt.transaction_hash@[i] as int % 16),
{
    reveal_strlit("0x");
    let digits = bytes_hex(receipt.transaction_hash@);
    assert(hash@[2 + 2 * i] == digits[2 * i] && hash@[3 + 2 * i] == digits[2 * i + 1]);
}

/// A reverted transaction is reported with its hash, written as the hash of one that took effect
/// would be.
pub proof fn law_reverted_transactions_are_named(
    receipt: TxReceipt,
    reverted: Result<String, AttestationError>,
    effective: Result<String, AttestationError>,
)
    requires
        receipt.status != Some(1u64),
        call_ensures(
            confirmed_hash,
            (Ok::<Option<TxReceipt>, String>(Some(receipt)),),
            reverted,
        ),
        call_ensures(
            confirmed_hash,
            (
                Ok::<Option<TxReceipt>, String>(
                    Some(
                        TxReceipt {
                            status: Some(1u64),
                            transaction_hash: receipt.transaction_hash,
                        },
                    ),
                ),
            ),
            effective,
        ),
    ensures
        reverted is Err && effective is Ok,
        reverted->Err_0->ContractCallFailed_0@ == "transaction reverted, tx hash "@
            + effective->Ok_0@,
{
}

/// A mint ends as marking its row ended: clean where the row was pending, a warning that names the
/// incident and the transaction where it was not, and a failure only where marking failed.
pub proof fn law_a_mint_ends_as_its_row_was_marked(
    id: Uuid,
    tx_hash: String,
    marked: Result<bool, DbError>,
    verdict: MintVerdict,
)
    requires
        call_ensures(conclude_mint, (id, tx_hash, marked), verdict),
    ensures
        verdict.result is Ok <==> marked is Ok,
        marked matches Ok(updated) ==> verdict.result->Ok_0 == updated,
        marked matches Err(e) ==> verdict.result->Err_0 == AttestationError::Db(e),
        verdict.warning is Some <==> marked is Ok && !marked->Ok_0,
        verdict.warning matches Some(w) ==> w is RaceDetectedAfterMint
            && w->RaceDetectedAfterMint_incident_id == id && w->RaceDetectedAfterMint_tx_hash@
            == tx_hash@,
{
}

/// How many of the first `n` results are clean mints.
pub open spec fn clean(results: Seq<&Result<bool, AttestationError>>, n: int) -> int
    decreases n,
{
    if n <= 0 {
        0
    } else {
        clean(results, n - 1) + (if *results[n - 1] == Ok::<bool, AttestationError>(true) {
            1int
        } else {
            0
        })
    }
}

/// Over a cycle, from `MintCycle::new` through any number of calls of `record`: the incidents have
/// their turn in order, the row of one is to be marked as failed if and only if its mint failed, and
/// the count is that of the clean mints.
pub proof fn law_a_cycle_gives_each_incident_its_turn(
    pending: Vec<IncidentRow>,
    cycle: MintCycle,
    calls: Seq<&mut MintCycle>,
    results: Seq<&Result<bool, AttestationError>>,
    failed: Seq<Option<Uuid>>,
    current: Option<&IncidentRow>,
    minted: u32,
)
    requires
        call_ensures(MintCycle::new, (pending,), cycle),
        calls.len() == results.len() == failed.len() <= pending@.len(),
        calls.len() > 0 ==> mut_ref_current(calls[0]) == cycle,
        forall|i: int|
            0 <= i < calls.len() ==> #[trigger] call_ensures(
                MintCycle::record,
                (calls[i], results[i]),
                failed[i],
            ),
        forall|i: int|
            1 <= i < calls.len() ==> mut_ref_current(#[trigger] calls[i]) == mut_ref_future(
                calls[i - 1],
            ),
        ({
            let last = if calls.len() > 0 {
                mut_ref_future(calls.last())
            } else {
                cycle
            };
            &&& call_ensures(MintCycle::current, (&last,), current)
            &&& call_ensures(MintCycle::minted_count, (&last,), minted)
        }),
    ensures
        minted == clean(results, calls.len() as int),
        calls.len() < pending@.len() ==> current is Some && *current->0
            == pending@[calls.len() as int],
        calls.len() == pending@.len() ==> current is None,
        forall|i: int|
            0 <= i < calls.len() ==> #[trigger] failed[i] == (if *results[i] is Err {
                Some(pending@[i].id)
            } else {
                None
            }),
{
    lemma_cycle(pending, cycle, calls, results, failed);
}

proof fn lemma_cycle(
    pending: Vec<IncidentRow>,
    cycle: MintCycle,
    calls: Seq<&mut MintCycle>,
    results: Seq<&Result<bool, AttestationError>>,
    failed: Seq<Option<Uuid>>,
)
    requires
        call_ensures(MintCycle::new, (pending,), cycle),
        calls.len() == results.len() == failed.len() <= pending@.len(),
        calls.len() > 0 ==> mut_ref_current(calls[0]) == cycle,
        forall|i: int|
            0 <= i < calls.len() ==> #[trigger] call_ensures(
                MintCycle::record,
                (calls[i], results[i]),
                failed[i],
            ),
        forall|i: int|
            1 <= i < calls.len() ==> mut_ref_current(#[trigger] calls[i]) == mut_ref_future(
                calls[i - 1],
            ),
    ensures
        ({
            let last = if calls.len() > 0 {
                mut_ref_future(calls.last())
            } else {
                cycle
            };
            &&& last.spec_pending() == pending@
            &&& last.spec_done() == calls.len()
            &&& last.spec_minted() == clean(results, calls.len() as int)
        }),
        forall|i: int|
            0 <= i < calls.len() ==> #[trigger] failed[i] == (if *results[i] is Err {
                Some(pending@[i].id)
            } else {
                None
            }),
    decreases calls.len(),
{
    if calls.len() > 0 {
        let n = calls.len() - 1;
        let (c, r, f) = (calls.drop_last(), results.drop_last(), failed.drop_last());
        assert forall|i: int| 0 <= i < c.len() implies #[trigger] call_ensures(
            MintCycle::record,
            (c[i], r[i]),
            f[i],
        ) by {
            assert(call_ensures(MintCycle::record, (calls[i], results[i]), failed[i]));
        }
        lemma_cycle(pending, cycle, c, r, f);
        lemma_clean(r, results, n);
        assert(call_ensures(MintCycle::record, (calls[n], results[n]), failed[n]));
        if n > 0 {
            assert(mut_ref_current(calls[n]) == mut_ref_future(c.last()));
        }
        assert forall|i: int| 0 <= i < calls.len() implies #[trigger] failed[i] == (
        if *results[i] is Err {
            Some(pending@[i].id)
        } else {
            None
        }) by {
            if i < n {
                assert(f[i] == failed[i] && r[i] == results[i]);
            }
        }
    }
}

proof fn lemma_clean(
    shorter: Seq<&Result<bool, AttestationError>>,
    longer: Seq<&Result<bool, AttestationError>>,
    n: int,
)
    requires
        n <= shorter.len() <= longer.len(),
        forall|i: int| 0 <= i < shorter.len() ==> shorter[i] == longer[i],
    ensures
        clean(shorter, n) == clean(longer, n),
    decreases n,
{
    if n > 0 {
        lemma_clean(shorter, longer, n - 1);
    }
}

/// Whether a stand-in hash is the tag and the sixteen lower-case hexadecimal digits of a number,
/// the most significant first.
pub open spec fn stands_in(hash: Seq<char>, n: int) -> bool {
    &&& hash.len() == 21
    &&& hash.take(5) == "MOCK-"@
    &&& forall|i: int|
        0 <= i < 16 ==> {
            let d = n / pow(16, (15 - i) as nat) % 16;
            &&& d < 10 ==> #[trigger] hash[5 + i] as int == '0' as int + d
            &&& d >= 10 ==> hash[5 + i] as int == 'a' as int + (d - 10)
        }
}

pub proof fn lemma_hex_digits(n: nat, width: nat, i: int)
    requires
        0 <= i < width,
    ensures
        hex(n, width).len() == width,
        hex(n, width)[i] == digit(n as int / pow(16, (width - 1 - i) as nat) % 16),
    decreases width,
{
    reveal(pow);
    let shorter = (width - 1) as nat;
    lemma_hex_len(n, width);
    lemma_hex_len(n / 16, shorter);
    if i < shorter {
        lemma_hex_digits(n / 16, shorter, i);
        let p = pow(16, (shorter - 1 - i) as nat);
        lemma_pow_positive(16, (shorter - 1 - i) as nat);
        assert(pow(16, (width - 1 - i) as nat) == 16 * p);
        lemma_div_denominator(n as int, 16, p);
        assert(n as int / (16 * p) == (n as int / 16) / p);
    } else {
        assert(pow(16, 0) == 1);
    }
}

/// From `MockMinter::new` through any number of cycles, the `k`th incident of all is marked, and
/// with the digits of `k`, counted from 1.
pub proof fn law_stand_in_hashes_count_the_incidents(
    fresh: MockMinter,
    calls: Seq<&mut MockMinter>,
    cycles: Seq<&[IncidentRow]>,
    marks: Seq<Vec<MockMark>>,
    c: int,
    i: int,
)
    requires
        call_ensures(MockMinter::new, (), fresh),
        calls.len() == cycles.len() == marks.len(),
        calls.len() > 0 ==> mut_ref_current(calls[0]) == fresh,
        forall|n: int|
            0 <= n < calls.len() ==> #[trigger] call_ensures(
                MockMinter::marks,
                (calls[n], cycles[n]),
                marks[n],
            ),
        forall|n: int|
            1 <= n < calls.len() ==> mut_ref_current(#[trigger] calls[n]) == mut_ref_future(
                calls[n - 1],
            ),
        0 <= c < calls.len(),
        0 <= i < cycles[c]@.len(),
    ensures
        marks[c]@.len() == cycles[c]@.len(),
        marks[c]@[i].incident_id == cycles[c]@[i].id,
        stands_in(marks[c]@[i].tx_hash@, incidents_before(cycles, c) + i + 1),
{
    lemma_counted(fresh, calls, cycles, marks, c);
    assert(call_ensures(MockMinter::marks, (calls[c], cycles[c]), marks[c]));
    let shown = marks[c]@.map_values(|m: MockMark| m@);
    assert(shown.len() == marks[c]@.len());
    assert(shown[i] == marks[c]@[i]@);
    let n = (incidents_before(cycles, c) + i + 1) as nat;
    let hash = marks[c]@[i].tx_hash@;
    assert(hash == mock_hash(n));
    lemma_stands_in(n);
}

/// Hashes are handed out by number: each call counts one more, and gives the digits of the count.
pub proof fn law_each_hash_counts_one_more(
    minter: &mut MockMinter,
    hash: String,
    before: u64,
    after: u64,
)
    requires
        call_ensures(MockMinter::next_hash, (minter,), hash),
        call_ensures(MockMinter::count, (&mut_ref_current(minter),), before),
        call_ensures(MockMinter::count, (&mut_ref_future(minter),), after),
    ensures
        after == before + 1,
        stands_in(hash@, after as int),
{
    lemma_stands_in(after as nat);
}

proof fn lemma_stands_in(n: nat)
    ensures
        stands_in(mock_hash(n), n as int),
{
    let hash = mock_hash(n);
    reveal_strlit("MOCK-");
    lemma_hex_len(n, 16);
    assert(hash.take(5) =~= "MOCK-"@);
    assert forall|j: int| 0 <= j < 16 implies {
        let d = n as int / pow(16, (15 - j) as nat) % 16;
        &&& d < 10 ==> #[trigger] hash[5 + j] as int == '0' as int + d
        &&& d >= 10 ==> hash[5 + j] as int == 'a' as int + (d - 10)
    } by {
        lemma_hex_digits(n, 16, j);
        assert(hash[5 + j] == hex(n, 16)[j]);
    }
}

/// How many incidents the cycles before the one at `c` had.
pub open spec fn incidents_before(cycles: Seq<&[IncidentRow]>, c: int) -> int
    decreases c,
{
    if c <= 0 {
        0
    } else {
        incidents_before(cycles, c - 1) + cycles[c - 1]@.len()
    }
}

proof fn lemma_counted(
    fresh: MockMinter,
    calls: Seq<&mut MockMinter>,
    cycles: Seq<&[IncidentRow]>,
    marks: Seq<Vec<MockMark>>,
    c: int,
)
    requires
        call_ensures(MockMinter::new, (), fresh),
        calls.len() == cycles.len() == marks.len(),
        calls.len() > 0 ==> mut_ref_current(calls[0]) == fresh,
        forall|n: int|
            0 <= n < calls.len() ==> #[trigger] call_ensures(
                MockMinter::marks,
                (calls[n], cycles[n]),
                marks[n],
            ),
        forall|n: int|
            1 <= n < calls.len() ==> mut_ref_current(#[trigger] calls[n]) == mut_ref_future(
                calls[n - 1],
            ),
        0 <= c < calls.len(),
    ensures
        mut_ref_current(calls[c]).spec_count() == incidents_before(cycles, c),
        incidents_before(cycles, c) >= 0,
    decreases c,
{
    if c > 0 {
        lemma_counted(fresh, calls, cycles, marks, c - 1);
        assert(call_ensures(MockMinter::marks, (calls[c - 1], cycles[c - 1]), marks[c - 1]));
        assert(mut_ref_current(calls[c]) == mut_ref_future(calls[c - 1]));
    }
}

/// A minter is made only on chain 84532, of a key, an address and an interface that can all be
/// read, and it has what they give; ten incidents are its batch.
pub proof fn law_minters_are_made_of_what_was_given(
    chain_id: Result<u64, String>,
    key: &str,
    address: &str,
    interface: &str,
    minter: Result<AttestationMinter, AttestationError>,
    abi: Result<Abi, String>,
    subject: Result<[u8; 20], AttestationError>,
    wallet: String,
)
    requires
        call_ensures(AttestationMinter::new, (chain_id, key, address, interface), minter),
        call_ensures(read_abi, (interface,), abi),
        wallet@ == address@,
        call_ensures(resolve_subject_address, (WalletLookup::Found(Some(wallet)),), subject),
    ensures
        minter is Ok <==> {
            &&& chain_id is Ok && chain_id->Ok_0 == 84_532
            &&& wallet_of(key@) is Ok
            &&& subject is Ok
            &&& abi is Ok
        },
        minter matches Ok(m) ==> {
            &&& m.chain_id == 84_532
            &&& wallet_of(key@) == Ok::<Seq<u8>, Seq<char>>(m.signer@)
            &&& m.contract_address@ == subject->Ok_0@
            &&& m.abi == abi->Ok_0
            &&& m.batch_size == 10
        },
        minter is Err ==> minter->Err_0 is ProviderConnectionFailed,
{
}

/// Of several faults the first counts: a provider that does not answer, then the key, then the
/// chain, then the address, then the interface.
pub proof fn law_the_first_fault_of_a_minter_counts(
    chain_id: Result<u64, String>,
    key: &str,
    address: &str,
    interface: &str,
    minter: Result<AttestationMinter, AttestationError>,
    abi: Result<Abi, String>,
    subject: Result<[u8; 20], AttestationError>,
    wallet: String,
)
    requires
        call_ensures(AttestationMinter::new, (chain_id, key, address, interface), minter),
        call_ensures(read_abi, (interface,), abi),
        wallet@ == address@,
        call_ensures(resolve_subject_address, (WalletLookup::Found(Some(wallet)),), subject),
        minter is Err,
    ensures
        ({
            let told = minter->Err_0->ProviderConnectionFailed_0@;
            if chain_id is Err {
                told == chain_id->Err_0@
            } else if wallet_of(key@) is Err {
                told == wallet_of(key@)->Err_0
            } else if chain_id->Ok_0 != 84_532 {
                told == "expected Base Sepolia (chain id 84532), got "@ + decimal(
                    chain_id->Ok_0 as nat,
                )
            } else if subject is Err {
                told == subject->Err_0->ContractCallFailed_0@
            } else {
                abi is Err && told == abi->Err_0@
            }
        }),
{
}

/// The failures of attestation in words.
pub proof fn law_attestation_failures_in_words(error: AttestationError, message: String)
    requires
        call_ensures(AttestationError::message, (&error,), message),
    ensures
        message@ == error.spec_message(),
        error matches AttestationError::ProviderConnectionFailed(s) ==> message@
            == "provider connection failed: "@ + s@,
        error matches AttestationError::ContractCallFailed(s) ==> message@
            == "contract call failed: "@ + s@,
        error matches AttestationError::RaceDetectedAfterMint { incident_id, tx_hash } ==> message@
            == "race detected: incident "@ + incident_id.spec_text() + " minted (tx "@ + tx_hash@
            + ") but DB row was already claimed"@,
        error matches AttestationError::Db(e) ==> message@ == "db error: "@ + e.spec_message(),
{
}

/// The parts of a minter are passed on as they are, and of chains none but 84532 is.
pub proof fn law_parts_are_passed_on(
    part: Result<u64, String>,
    checked: Result<u64, AttestationError>,
    chain_id: u64,
    chain: Result<(), AttestationError>,
    parsed: Result<[u8; 20], String>,
    subject: Result<[u8; 20], AttestationError>,
)
    requires
        call_ensures(minter_part::<u64>, (part,), checked),
        call_ensures(check_chain, (chain_id,), chain),
        call_ensures(wallet_subject, (parsed,), subject),
    ensures
        part matches Ok(p) ==> checked == Ok::<u64, AttestationError>(p),
        part matches Err(e) ==> checked is Err && checked->Err_0->ProviderConnectionFailed_0@ == e@,
        chain is Ok <==> chain_id == 84_532,
        parsed matches Ok(a) ==> subject == Ok::<[u8; 20], AttestationError>(a),
        parsed matches Err(e) ==> subject is Err && subject->Err_0->ContractCallFailed_0@ == e@,
{
}

} // verus!
