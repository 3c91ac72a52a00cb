use fundi::abi::can_be_read;
use fundi::attestation::{
    check_chain, conclude_mint, confirmed_hash, keccak256_site_id, mint_call, minter_part, resolve_subject_address,
    AttestationError, AttestationMinter, ContractAttestationType, MintCycle, MockMinter, TxReceipt, WalletLookup,
};
use fundi::db::{AttestationStatus, DbError, IncidentRow};
use fundi::ids::Uuid;
use fundi::rules::RuleType;
use fundi::time::Timestamp;

const KEY_ONE: &str = "0000000000000000000000000000000000000000000000000000000000000001";
const ADDRESS: &str = "0x7E5F4552091A69125d5DfCb7b8C2659029395Bdf";
const ADDRESS_BYTES: [u8; 20] = [
    0x7e, 0x5f, 0x45, 0x52, 0x09, 0x1a, 0x69, 0x12, 0x5d, 0x5d, 0xfc, 0xb7, 0xb8, 0xc2, 0x65, 0x90, 0x29, 0x39, 0x5b,
    0xdf,
];

fn new_id() -> Uuid {
    Uuid { bits: uuid::Uuid::new_v4().as_u128() }
}

fn hex_of(bytes: &[u8]) -> String {
    bytes.iter().map(|b| format!("{:02x}", b)).collect()
}

fn incident(id: u128) -> IncidentRow {
    IncidentRow {
        id: Uuid { bits: id },
        site_id: Uuid { bits: 0xa1a2a3a4b1b2c1c2d1d2d3d4d5d6d7d8 },
        worker_id: None,
        rule_triggered: RuleType::ZoneBreach,
        confidence_bp: 8000,
        detected_at: Timestamp::new(1_700_000_000, 0).unwrap(),
        attestation_status: AttestationStatus::Pending,
        attestation_tx_hash: None,
    }
}

#[test]
fn site_hash_is_deterministic_for_same_uuid() {
    let id = new_id();
    assert_eq!(keccak256_site_id(id), keccak256_site_id(id));
}

#[test]
fn site_hash_differs_for_different_uuids() {
    let a = new_id();
    let b = new_id();
    assert_ne!(keccak256_site_id(a), keccak256_site_id(b));
}

#[test]
fn rule_type_maps_to_correct_contract_enum_value() {
    assert_eq!(ContractAttestationType::from(RuleType::PpeMissing) as u8, 0);
    assert_eq!(ContractAttestationType::from(RuleType::ZoneBreach) as u8, 1);
}

#[test]
fn contract_codes_are_those_of_the_enum() {
    for kind in [
        ContractAttestationType::PpeMissing,
        ContractAttestationType::ZoneBreach,
        ContractAttestationType::TrainingComplete,
    ] {
        assert_eq!(kind.code(), kind as u8);
    }
}

#[test]
fn site_hash_is_keccak_of_the_sixteen_bytes() {
    assert_eq!(
        hex_of(&keccak256_site_id(Uuid { bits: 0 })),
        "f490de2920c8a35fabeb13208852aa28c76f9be9b03a4dd2b3c075f7a26923b4"
    );
    assert_eq!(
        hex_of(&keccak256_site_id(Uuid { bits: 0xa1a2a3a4b1b2c1c2d1d2d3d4d5d6d7d8 })),
        "9873f7f87da278f2e534e653ee64acd70124fe047866a11e60e4695407a6aef4"
    );
}

#[test]
fn minter_needs_the_right_chain_and_readable_parts() {
    let minter = AttestationMinter::new(Ok(84_532), KEY_ONE, ADDRESS, "[]").unwrap();
    assert_eq!(minter.chain_id, 84_532);
    assert_eq!(minter.signer, ADDRESS_BYTES);
    assert_eq!(minter.contract_address, ADDRESS_BYTES);
    assert_eq!(minter.batch_size, 10);
    assert!(minter.abi.functions.is_empty());

    let fault = |chain: Result<u64, String>, key: &str, address: &str, abi: &str| {
        match AttestationMinter::new(chain, key, address, abi) {
            Ok(_) => panic!("started"),
            Err(e) => e.message(),
        }
    };
    assert_eq!(fault(Err("down".to_string()), "zz", "zz", "zz"), "provider connection failed: down");
    let key_error = "zz".parse::<ethers::signers::LocalWallet>().unwrap_err().to_string();
    assert_eq!(fault(Ok(1), "zz", "zz", "zz"), format!("provider connection failed: {}", key_error));
    assert_eq!(
        fault(Ok(1), KEY_ONE, "zz", "zz"),
        "provider connection failed: expected Base Sepolia (chain id 84532), got 1"
    );
    assert_eq!(
        fault(Ok(u64::MAX), KEY_ONE, "zz", "zz"),
        "provider connection failed: expected Base Sepolia (chain id 84532), got 18446744073709551615"
    );
    assert_eq!(
        fault(Ok(84_532), KEY_ONE, "zz", "zz"),
        "provider connection failed: Invalid character 'z' at position 0"
    );
    let abi_error = serde_json::from_str::<ethers::abi::Abi>("zz").unwrap_err().to_string();
    assert_eq!(fault(Ok(84_532), KEY_ONE, ADDRESS, "zz"), format!("provider connection failed: {}", abi_error));
}

#[test]
fn interface_is_read_whole() {
    let json = r#"[{"type":"function","name":"mintAttestation","inputs":[],"outputs":[],"stateMutability":"nonpayable"}]"#;
    let minter = AttestationMinter::new(Ok(84_532), KEY_ONE, ADDRESS, json).unwrap();
    assert!(minter.abi.functions.contains_key("mintAttestation"));
}

#[test]
fn parts_that_were_read_are_taken() {
    assert_eq!(minter_part(Ok(7)).unwrap_or_else(|_: AttestationError| panic!("refused")), 7);
    let refused: Result<u8, AttestationError> = minter_part(Err("a".to_string()));
    assert_eq!(refused.unwrap_err().message(), "provider connection failed: a");
    assert!(check_chain(84_532).is_ok());
    assert_eq!(
        check_chain(1).unwrap_err().message(),
        "provider connection failed: expected Base Sepolia (chain id 84532), got 1"
    );
}

fn with_type(kind: &str) -> String {
    format!(
        r#"[{{"type":"function","name":"f","inputs":[{{"name":"a]","type":"{}","internalType":"struct S[] (x)"}}],"outputs":[]}}]"#,
        kind
    )
}

fn reason_of(json: &str) -> String {
    serde_json::from_str::<ethers::abi::Abi>(json).unwrap_err().to_string()
}

fn assert_reads(json: &str) {
    assert!(can_be_read(json), "{}", json);
    let read = serde_json::from_str::<ethers::abi::Abi>(json).unwrap();
    let minter = AttestationMinter::new(Ok(84_532), KEY_ONE, ADDRESS, json).unwrap_or_else(|e| panic!("{:?}", e));
    assert!(minter.abi == read);
}

fn assert_fails(json: &str) {
    assert!(can_be_read(json), "{}", json);
    let fault = AttestationMinter::new(Ok(84_532), KEY_ONE, ADDRESS, json);
    assert_eq!(fault.err().unwrap().message(), format!("provider connection failed: {}", reason_of(json)));
}

fn assert_breaks(json: &str) {
    assert!(!can_be_read(json), "{}", json);
    let fault = AttestationMinter::new(Ok(84_532), KEY_ONE, ADDRESS, json);
    assert_eq!(
        fault.err().unwrap().message(),
        "provider connection failed: the interface has a type that cannot be read"
    );
    let elsewhere = AttestationMinter::new(Ok(1), KEY_ONE, ADDRESS, json);
    assert_eq!(
        elsewhere.err().unwrap().message(),
        "provider connection failed: expected Base Sepolia (chain id 84532), got 1"
    );
}

#[test]
fn interfaces_with_unreadable_types_are_refused() {
    let deep = format!("uint8{}", "[]".repeat(513));
    for kind in [
        "]", "5]", "+5]", "5][]", "(])", "(5])", "(a,])[2]", "((a,5]),b)", "é[]", "é[10]", "(é,é)", "\\u005d",
        "\\u0035]", "\\u00e9[]", "\\ud83d\\ude00[]", deep.as_str(),
    ] {
        assert_breaks(&with_type(kind));
    }
}

#[test]
fn interfaces_with_readable_types_are_read() {
    let deep = format!("uint8{}", "[]".repeat(512));
    for kind in [
        "uint256", "address[]", "bytes32[2][]", "bool[3][4]", "bool[+3]", "é", "", "éa[]", "éé[]", "é[", "foo(5]bar[]",
        "uint8[\\u005d", "\\u0061", "b\\/\\b\\f\\n\\r\\t\\\"\\\\", "\\ud83d\\ude00", "\\u00E9a[]", deep.as_str(),
    ] {
        assert_reads(&with_type(kind));
    }
    for kind in ["uintx", "bool)", "uint8]", "a5]", "[x]", "[]]", "int[x]", "a[+]", "(bool)[]", "())", "\\x", "\\ud83d", "\\u12g4"] {
        assert_fails(&with_type(kind));
    }
}

#[test]
fn types_in_parentheses_take_components() {
    for kind in ["(uint256,bool)", "(uint256,(bool,address[])[2])[]", "()", "(a)5],b(c)", "tuple[2]"] {
        let json = format!(
            r#"[{{"type":"event","name":"E","inputs":[{{"name":"a","type":"{}","components":[{{"name":"b","type":"bool"}}],"indexed":false}}],"anonymous":false}}]"#,
            kind
        );
        assert_reads(&json);
        assert_breaks(&json.replace(r#""type":"bool""#, r#""type":"]""#));
    }
}

#[test]
fn only_what_the_reader_takes_for_a_type_is_judged() {
    assert_reads(r#"[{"type":"constructor","inputs":[{"name":"","type":"a"}]}]"#);
    assert_reads(r#"[{"type":"constructor","inputs":[{"name":"type","]":"]","type":"bool"}]}]"#);
    assert_reads(r#"[{"type":"constructor","inputs":[],"note":{"type":"]","inputs":[{"type":"]"}]}}]"#);
    assert_reads(r#"[{"type":"constructor","inputs":[],"outputs":[{"name":"","type":"]"}]}]"#);
    assert_reads(r#"[{"type":"fallback","inputs":[{"name":"","type":"]"}]}, {"inputs":[{"type":"]"}],"type":"receive"}]"#);
    assert_breaks(r#"[{"type":"constructor","inputs":[{"name":"","type":"]"}]}]"#);
    assert_breaks(r#"[{"inputs":[{"type" : "]","name":""}],"type":"constructor"}]"#);
    assert_breaks(r#"[{"type":"function","name":"f","inputs":[],"outputs":[{"name":"","type":"]"}]}]"#);
    assert_breaks(r#"[{"type":"error","name":"f","inputs":[{"name":"","type":"]"}]}]"#);
    assert_breaks(r#"[["constructor",[{"name":"","type":"]"}]]]"#);
    assert_breaks(r#"[["function","f",[],[{"name":"","type":"]"}]]]"#);
    assert_reads(r#"[["constructor",[{"name":"","type":"bool"}]]]"#);
    assert_reads(r#"[["fallback"]]"#);
    assert_fails(r#"[["fallback",[{"name":"","type":"]"}]]]"#);
    assert_fails(r#"[{"type":0,"inputs":[{"name":"","type":"]"}]}]"#);
    assert_fails(r#"[[0,"constructor",[{"name":"","type":"]"}]]]"#);
    assert_fails(r#"[{"inputs":[{"name":"","type":"]"}]}]"#);
    assert_fails(r#"[{"type":"]","inputs":[{"name":"","type":"]"}]}]"#);
    assert_fails(r#"[{"type":"constructor","inputs":[{"name":"","type":"]"}]"#);
    for text in ["", "[", "]", r#"["type","]"#, r#""type" "]"#, r#"{"name":"]","a\"b":1}"#, r#"["\"#, ":,"] {
        assert_fails(text);
    }
}

#[test]
fn names_that_are_let_through_do_not_panic() {
    for alphabet in [["(", ")", "[", "]", "5"], ["(", ")", "5]", "a", ","], ["(", "é", "[]", ",", ")"]] {
        let mut names = vec![String::new()];
        for _ in 0..5 {
            names = names.iter().flat_map(|n| alphabet.iter().map(move |l| format!("{}{}", n, l))).collect();
            for name in &names {
                let json = with_type(name);
                if can_be_read(&json) {
                    let read = AttestationMinter::new(Ok(84_532), KEY_ONE, ADDRESS, &json).is_ok();
                    assert_eq!(read, serde_json::from_str::<ethers::abi::Abi>(&json).is_ok());
                }
            }
        }
    }
}

#[test]
fn subject_is_the_wallet_or_nobody() {
    let zero = [0u8; 20];
    assert_eq!(resolve_subject_address(WalletLookup::Unattributed).unwrap(), zero);
    assert_eq!(resolve_subject_address(WalletLookup::NoSuchWorker).unwrap(), zero);
    assert_eq!(resolve_subject_address(WalletLookup::Found(None)).unwrap(), zero);
    assert_eq!(resolve_subject_address(WalletLookup::Found(Some(ADDRESS.to_string()))).unwrap(), ADDRESS_BYTES);
    assert_eq!(
        resolve_subject_address(WalletLookup::Failed("q".to_string())).unwrap_err().message(),
        "contract call failed: q"
    );
    assert_eq!(
        resolve_subject_address(WalletLookup::Unreadable("r".to_string())).unwrap_err().message(),
        "contract call failed: r"
    );
    assert_eq!(
        resolve_subject_address(WalletLookup::Found(Some("0x12".to_string()))).unwrap_err().message(),
        "contract call failed: Invalid input length"
    );
}

#[test]
fn addresses_are_forty_digits_however_spaced() {
    let read = |s: &str| resolve_subject_address(WalletLookup::Found(Some(s.to_string())));
    assert_eq!(read("7e5f4552091a69125d5dfcb7b8c2659029395bdf").unwrap(), ADDRESS_BYTES);
    assert_eq!(read("0x7E5F4552091A69125D5DFCB7B8C2659029395BDF").unwrap(), ADDRESS_BYTES);
    assert_eq!(read("0x7e5f 4552\t091a6912\r\n5d5dfcb7b8c265902939 5bdf ").unwrap(), ADDRESS_BYTES);
    assert!(read("0X7e5f4552091a69125d5dfcb7b8c2659029395bdf").is_err());
    assert!(read(" 0x7e5f4552091a69125d5dfcb7b8c2659029395bdf").is_err());
    assert!(read("0x7e5f4552091a69125d5dfcb7b8c2659029395bdf0").is_err());
    assert!(read("0x7e5f4552091a69125d5dfcb7b8c2659029395bd").is_err());
    assert!(read("0x7e5f4552091a69125d5dfcb7b8c2659029395bdg").is_err());
    assert!(read("0x7e5f4552091a69125d5dfcb7b8c2659029395bdf!").is_err());
    assert!(read("").is_err());
    assert!(read("0x").is_err());
}

#[test]
fn refused_addresses_are_told_why() {
    let reason = |s: &str| resolve_subject_address(WalletLookup::Found(Some(s.to_string()))).unwrap_err().message();
    let digits = "7e5f4552091a69125d5dfcb7b8c2659029395bdf";
    let wrong_length = "contract call failed: Invalid input length";
    assert_eq!(reason("0x0 \u{e9}"), "contract call failed: Invalid character '\u{e9}' at position 2");
    assert_eq!(reason("0 x"), "contract call failed: Invalid character 'x' at position 2");
    assert_eq!(reason(&format!("{}!", &digits[..39])), "contract call failed: Invalid character '!' at position 39");
    assert_eq!(reason(&format!("0x{}!\u{e9}", &digits[..3])), "contract call failed: Invalid character '!' at position 3");
    assert_eq!(reason(&format!("{}!", digits)), wrong_length);
    assert_eq!(reason(&digits[..39]), wrong_length);
    assert_eq!(reason(&format!("{}0", digits)), wrong_length);
    assert_eq!(reason(""), wrong_length);
}

#[test]
fn call_carries_the_incident() {
    let call = mint_call(&incident(1), WalletLookup::Found(Some(ADDRESS.to_string()))).unwrap();
    assert_eq!(call.attestation_type, 1);
    assert_eq!(hex_of(&call.site_hash), "9873f7f87da278f2e534e653ee64acd70124fe047866a11e60e4695407a6aef4");
    assert_eq!(call.severity_score, 8000);
    assert_eq!(call.timestamp, 1_700_000_000);
    assert_eq!(call.subject, ADDRESS_BYTES);
    assert!(mint_call(&incident(1), WalletLookup::Failed("x".to_string())).is_err());
}

#[test]
fn negative_numbers_are_floored_or_wrapped() {
    let odd = IncidentRow {
        rule_triggered: RuleType::PpeMissing,
        confidence_bp: -1,
        detected_at: Timestamp::new(-1, 0).unwrap(),
        ..incident(1)
    };
    let call = mint_call(&odd, WalletLookup::Unattributed).unwrap();
    assert_eq!(call.attestation_type, 0);
    assert_eq!(call.severity_score, 0);
    assert_eq!(call.timestamp, -1i64 as u64);
    assert_eq!(call.subject, [0; 20]);
}

#[test]
fn only_an_effective_transaction_has_a_hash() {
    let mut hash = [0u8; 32];
    hash[0] = 0xab;
    hash[31] = 0x0f;
    let text = format!("{:?}", ethers::types::H256(hash));
    assert_eq!(text, format!("0xab{}0f", "00".repeat(30)));
    let receipt = |status| Ok(Some(TxReceipt { status, transaction_hash: hash }));
    assert_eq!(confirmed_hash(receipt(Some(1))).unwrap(), text);
    for status in [None, Some(0), Some(2)] {
        assert_eq!(
            confirmed_hash(receipt(status)).unwrap_err().message(),
            format!("contract call failed: transaction reverted, tx hash {}", text)
        );
    }
    assert_eq!(
        confirmed_hash(Ok(None)).unwrap_err().message(),
        "contract call failed: transaction dropped, no receipt"
    );
    assert_eq!(confirmed_hash(Err("nonce".to_string())).unwrap_err().message(), "contract call failed: nonce");
}

#[test]
fn race_is_a_warning_and_no_failure() {
    let clean = conclude_mint(Uuid { bits: 1 }, "0x1".to_string(), Ok(true));
    assert!(matches!(clean.result, Ok(true)));
    assert!(clean.warning.is_none());

    let raced = conclude_mint(Uuid { bits: 1 }, "0x1".to_string(), Ok(false));
    assert!(matches!(raced.result, Ok(false)));
    assert_eq!(
        raced.warning.unwrap().message(),
        "race detected: incident 00000000-0000-0000-0000-000000000001 minted (tx 0x1) but DB row was already claimed"
    );

    let failed = conclude_mint(Uuid { bits: 1 }, "0x1".to_string(), Err(DbError::NotFound));
    assert!(failed.warning.is_none());
    assert_eq!(failed.result.unwrap_err().message(), "db error: row not found");
    assert!(matches!(AttestationError::from(DbError::NotFound), AttestationError::Db(DbError::NotFound)));
}

#[test]
fn cycle_gives_every_incident_its_turn() {
    let mut cycle = MintCycle::new(vec![incident(1), incident(2), incident(3)]);
    assert_eq!(cycle.current().unwrap().id, Uuid { bits: 1 });
    assert_eq!(cycle.record(&Err(AttestationError::ContractCallFailed("x".to_string()))), Some(Uuid { bits: 1 }));
    assert_eq!(cycle.current().unwrap().id, Uuid { bits: 2 });
    assert_eq!(cycle.record(&Ok(false)), None);
    assert_eq!(cycle.minted_count(), 0);
    assert_eq!(cycle.current().unwrap().id, Uuid { bits: 3 });
    assert_eq!(cycle.record(&Ok(true)), None);
    assert!(cycle.current().is_none());
    assert_eq!(cycle.minted_count(), 1);
    assert!(MintCycle::new(vec![]).current().is_none());
}

#[test]
fn mock_hashes_are_tagged_and_counted() {
    let mut mock = MockMinter::new();
    assert_eq!(mock.count(), 0);
    assert_eq!(mock.next_hash(), "MOCK-0000000000000001");
    assert_eq!(mock.count(), 1);
    for _ in 0..253 {
        mock.next_hash();
    }
    assert_eq!(mock.next_hash(), "MOCK-00000000000000ff");
    assert_eq!(mock.next_hash(), format!("MOCK-{:016x}", 256));
}

#[test]
fn mock_marks_are_numbered_over_all_cycles() {
    let mut mock = MockMinter::new();
    let first = mock.marks(&[incident(7), incident(8)]);
    let none = mock.marks(&[]);
    let second = mock.marks(&[incident(7)]);
    assert!(none.is_empty());
    assert_eq!(mock.count(), 3);
    let shown: Vec<(u128, String)> =
        first.into_iter().chain(second).map(|m| (m.incident_id.bits, m.tx_hash)).collect();
    assert_eq!(
        shown,
        vec![
            (7, "MOCK-0000000000000001".to_string()),
            (8, "MOCK-0000000000000002".to_string()),
            (7, "MOCK-0000000000000003".to_string()),
        ]
    );
}
