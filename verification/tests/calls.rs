use secp256k1::SecretKey;
use shieldcoinbase::account::Account;
use shieldcoinbase::address::{AddressSource, Network, Receiver, TransparentAddress};
use shieldcoinbase::amount::{Zatoshis, MAX_MONEY};
use shieldcoinbase::call::{call, call_to, FeeRule, OutputFilter, PrivacyPolicy};
use shieldcoinbase::collect::{key_needed, keys_needed, standalone_addresses};
use shieldcoinbase::error::{KeystoreError, LegacyCode, RpcError};
use shieldcoinbase::json::JsonValue;
use shieldcoinbase::keys::{KeyDerivation, StandaloneKeys};
use shieldcoinbase::proposal::{Proposal, ProposalStep, TransparentInput};
use shieldcoinbase::resolve::{accept_entry, name_account, not_an_account_error};
use shieldcoinbase::run::{build_terms, run, AwaitBuild, Broadcast, Ending, OvkPolicy, RunStep};
use shieldcoinbase::step::{Order, Ready, Step};
use std::num::NonZeroU32;
use zcash_address::{ToAddress, ZcashAddress};
use zcash_client_backend::data_api::wallet::ConfirmationsPolicy;
use zcash_keys::keys::UnifiedSpendingKey;
use zcash_protocol::consensus::{NetworkType, MAIN_NETWORK, TEST_NETWORK};
use zcash_protocol::local_consensus::LocalNetwork;
use zcash_protocol::memo::MemoBytes;

const ACCOUNT: u128 = 0x67e55044_10b1_426f_9247_bb680e5fe0c8;
const ACCOUNT_TEXT: &str = "67e55044-10b1-426f-9247-bb680e5fe0c8";

fn zats(n: u64) -> Zatoshis {
    Zatoshis::from_u64(n).unwrap()
}

fn p2pkh(n: u8) -> TransparentAddress {
    TransparentAddress::PublicKeyHash([n; 20])
}

fn p2sh(n: u8) -> TransparentAddress {
    TransparentAddress::ScriptHash([n; 20])
}

fn p2pkh_text(n: u8) -> String {
    ZcashAddress::from_transparent_p2pkh(NetworkType::Main, [n; 20]).encode()
}

fn p2sh_text(n: u8) -> String {
    ZcashAddress::from_transparent_p2sh(NetworkType::Main, [n; 20]).encode()
}

fn shielded_text(n: u8) -> String {
    ZcashAddress::from_sapling(NetworkType::Main, [n; 43]).encode()
}

fn tex_text(n: u8) -> String {
    ZcashAddress::from_tex(NetworkType::Main, [n; 20]).encode()
}

fn p2pkh_script(n: u8) -> Vec<u8> {
    let mut script = vec![0x76, 0xa9, 0x14];
    script.extend_from_slice(&[n; 20]);
    script.extend_from_slice(&[0x88, 0xac]);
    script
}

fn p2sh_script(n: u8) -> Vec<u8> {
    let mut script = vec![0xa9, 0x14];
    script.extend_from_slice(&[n; 20]);
    script.push(0x87);
    script
}

fn array(entries: &[String]) -> JsonValue {
    JsonValue::Array(entries.iter().map(|e| JsonValue::String(e.clone())).collect())
}

fn start(fromaddresses: JsonValue) -> Step {
    call(Network::Main, fromaddresses, shielded_text(9), None, None, true)
}

fn error_of(step: Step) -> (LegacyCode, String) {
    match step {
        Step::Done(Err(error)) => (error.code, error.message),
        _ => panic!("the call has not failed"),
    }
}

fn regtest() -> LocalNetwork {
    LocalNetwork {
        overwinter: None,
        sapling: None,
        blossom: None,
        heartwood: None,
        canopy: None,
        nu5: None,
        nu6: None,
        nu6_1: None,
        nu6_2: None,
        nu6_3: None,
        nu7: None,
    }
}

fn secret(n: u8) -> SecretKey {
    SecretKey::from_secret_bytes([n; 32]).unwrap()
}

fn locked() -> KeystoreError {
    KeystoreError { generic: true, message: "Wallet is locked".to_string() }
}

fn policy(trusted: u32, untrusted: u32) -> ConfirmationsPolicy {
    let number = |n| NonZeroU32::new(n).unwrap();
    ConfirmationsPolicy::new(number(trusted), number(untrusted), false).unwrap()
}

/// How the surroundings of a call answer.
struct Answers {
    known: Result<bool, String>,
    receivers: Result<Vec<TransparentAddress>, String>,
    owners: Vec<(TransparentAddress, Result<Option<u128>, String>)>,
    account: Result<bool, String>,
    derivation: Option<KeyDerivation>,
    confirmations: Option<ConfirmationsPolicy>,
    proposal: Result<Vec<Vec<(u64, Vec<u8>)>>, String>,
    privacy: Option<LegacyCode>,
    outputs: Vec<Result<Vec<u64>, String>>,
    seed: Option<Vec<u8>>,
    sources: Result<Vec<Receiver>, String>,
    keys: Vec<Option<u8>>,
}

fn answers() -> Answers {
    Answers {
        known: Ok(true),
        receivers: Ok(vec![p2pkh(1), p2sh(2)]),
        owners: vec![(p2pkh(1), Ok(Some(ACCOUNT))), (p2sh(2), Ok(Some(ACCOUNT)))],
        account: Ok(true),
        derivation: KeyDerivation::new([3; 32], 0),
        confirmations: Some(policy(2, 7)),
        proposal: Ok(vec![vec![(50, p2pkh_script(1)), (60, p2sh_script(2))]]),
        privacy: None,
        outputs: vec![Ok(vec![50, 5]), Ok(vec![60])],
        seed: Some(vec![7; 32]),
        sources: Ok(vec![
            Receiver { address: p2pkh(1), source: AddressSource::Derived },
            Receiver { address: p2sh(2), source: AddressSource::StandaloneScript },
        ]),
        keys: vec![Some(5)],
    }
}

/// Drives a call to its end and lists what it asked for.
fn drive(mut step: Step, answers: Answers) -> (Vec<String>, Result<Ready, RpcError>) {
    let mut asked = Vec::new();
    let mut outputs = answers.outputs.into_iter();
    let mut keys = answers.keys.into_iter();
    let Answers { known, receivers, owners, account, derivation, proposal, seed, sources, .. } =
        Answers { outputs: vec![], keys: vec![], ..answers };
    let (mut known, mut receivers, mut account) = (Some(known), Some(receivers), Some(account));
    let (mut proposal, mut sources) = (Some(proposal), Some(sources));
    loop {
        step = match step {
            Step::LookUpAccount(s) => {
                asked.push(format!("known {:x}", s.account));
                s.resume(known.take().unwrap())
            }
            Step::ListReceivers(s) => {
                let query = s.query();
                assert!(query.include_change && query.include_standalone);
                asked.push(format!("receivers {:x}", query.account));
                s.resume(receivers.take().unwrap())
            }
            Step::FindOwner(s) => {
                asked.push(format!("owner {:?}", s.address));
                let owner = owners.iter().find(|(a, _)| *a == s.address).unwrap().1.clone();
                s.resume(owner)
            }
            Step::FetchAccount(s) => {
                asked.push("account".to_string());
                s.resume(match account.take().unwrap() {
                    Err(e) => Err(e),
                    Ok(false) => Ok(None),
                    Ok(true) => Ok(Some(Account { derivation })),
                })
            }
            Step::ReadConfirmations(s) => {
                asked.push("confirmations".to_string());
                s.resume(answers.confirmations)
            }
            Step::Propose(s) => {
                let terms = s.terms();
                assert_eq!(terms.fee_rule, FeeRule::Zip317);
                assert_eq!(terms.shielding_threshold.into_u64(), 0);
                asked.push(format!("proposal {:?}", terms.limit));
                s.resume(proposal.take().unwrap().map(|steps| Proposal {
                    steps: steps
                        .into_iter()
                        .map(|inputs| ProposalStep {
                            transparent_inputs: inputs
                                .into_iter()
                                .map(|(v, script_pubkey)| TransparentInput { value: zats(v), script_pubkey })
                                .collect(),
                        })
                        .collect(),
                    min_target_height: 77,
                }))
            }
            Step::EnforcePrivacy(s) => {
                assert_eq!(s.policy(), PrivacyPolicy::AllowRevealedSenders);
                asked.push("privacy".to_string());
                s.resume(match answers.privacy {
                    Some(code) => Err(code.with_static("too revealing")),
                    None => Ok(()),
                })
            }
            Step::ListOutputs(s) => {
                let query = s.query();
                assert_eq!(query.target_height, 77);
                assert_eq!(query.filter, OutputFilter::CoinbaseOnly);
                assert_eq!(Some(query.confirmations), answers.confirmations);
                asked.push(format!("outputs {:?}", query.address));
                let found = outputs.next().unwrap();
                s.resume(found.map(|values| values.into_iter().map(zats).collect()))
            }
            Step::WarnManyInputs(s) => {
                asked.push(format!("warning {}", s.preflight.shielding_utxos));
                s.resume()
            }
            Step::DecryptSeed(s) => {
                assert_eq!(s.derivation.seed_fingerprint(), [3; 32]);
                asked.push("seed".to_string());
                match &seed {
                    Some(seed) => s.resume(Ok(seed)),
                    None => s.resume(Err(locked())),
                }
            }
            Step::ListSources(s) => {
                let query = s.query();
                assert!(query.include_change && query.include_standalone);
                asked.push(format!("sources {:x}", query.account));
                s.resume(sources.take().unwrap())
            }
            Step::DecryptKey(s) => {
                asked.push(format!("key {:?}", s.address));
                match keys.next().unwrap() {
                    Some(n) => s.resume(Ok(secret(n))),
                    None => s.resume(Err(locked())),
                }
            }
            Step::Done(result) => return (asked, result),
        };
    }
}

fn failure(fromaddresses: JsonValue, answers: Answers) -> (LegacyCode, String) {
    let error = drive(start(fromaddresses), answers).1.err().unwrap();
    (error.code, error.message)
}

fn both() -> JsonValue {
    array(&[p2pkh_text(1), p2sh_text(2)])
}

#[test]
fn destination_must_be_an_address() {
    let step = call(Network::Main, JsonValue::Other, "nonsense".to_string(), None, None, true);
    assert_eq!(
        error_of(step),
        (
            LegacyCode::InvalidParameter,
            "Invalid parameter, unknown address format: nonsense".to_string(),
        ),
    );
    let step = call_to(None, Network::Main, JsonValue::Other, "x".to_string(), None, None, true);
    assert_eq!(error_of(step).1, "Invalid parameter, unknown address format: x");
}

#[test]
fn destination_is_parsed() {
    let text = p2pkh_text(4);
    match call(Network::Main, array(&[p2pkh_text(1)]), text.clone(), Some(3), None, true) {
        Step::FindOwner(s) => {
            assert_eq!(s.order.to, text.parse().unwrap());
            assert_eq!(s.order.to.encode(), text);
            assert_eq!(s.order.toaddress, text);
            assert_eq!(s.order.limit, Some(3));
            assert!(s.order.memo.is_none());
        }
        _ => panic!("the owner of the first address is to be found"),
    }
}

#[test]
fn memo_errors_come_after_destination_errors_and_before_source_errors() {
    let memo = || Some(Err(LegacyCode::InvalidParameter.with_static("bad memo")));
    let step = call(Network::Main, JsonValue::Other, shielded_text(9), None, memo(), true);
    assert_eq!(error_of(step), (LegacyCode::InvalidParameter, "bad memo".to_string()));
    let step = call(Network::Main, JsonValue::Other, "?".to_string(), None, memo(), true);
    assert_eq!(error_of(step).1, "Invalid parameter, unknown address format: ?");
}

#[test]
fn memo_and_limit_are_handed_to_the_proposal() {
    let memo = MemoBytes::from_bytes(&[1, 2, 3]).unwrap();
    let mut step = call(
        Network::Main,
        array(&[p2pkh_text(1)]),
        shielded_text(9),
        Some(u32::MAX),
        Some(Ok(memo.clone())),
        true,
    );
    step = match step {
        Step::FindOwner(s) => s.resume(Ok(Some(ACCOUNT))),
        _ => panic!("an owner is to be found"),
    };
    step = match step {
        Step::FetchAccount(s) => s.resume(Ok(Some(Account { derivation: None }))),
        _ => panic!("an account is to be fetched"),
    };
    step = match step {
        Step::ReadConfirmations(s) => s.resume(Some(policy(1, 1))),
        _ => panic!("the confirmations are to be read"),
    };
    match step {
        Step::Propose(s) => {
            let terms = s.terms();
            assert_eq!(terms.memo.as_ref(), Some(&memo));
            assert_eq!(terms.limit, Some(u32::MAX as usize));
            assert_eq!(terms.from_addrs, &vec![p2pkh(1)]);
            assert_eq!(terms.to.encode(), shielded_text(9));
        }
        _ => panic!("a proposal is to be made"),
    }
}

#[test]
fn fromaddresses_must_be_a_string_or_an_array() {
    assert_eq!(
        error_of(start(JsonValue::Other)),
        (
            LegacyCode::InvalidParameter,
            "Invalid `fromaddresses`: expected an account UUID string or an array of \
             transparent addresses."
                .to_string(),
        ),
    );
    assert_eq!(
        error_of(start(array(&[]))),
        (
            LegacyCode::InvalidParameter,
            "Invalid `fromaddresses`: array must not be empty.".to_string(),
        ),
    );
}

#[test]
fn a_string_must_be_a_uuid() {
    assert_eq!(
        error_of(start(JsonValue::String("a \"b\"\n".to_string()))),
        (
            LegacyCode::InvalidParameter,
            "Invalid `fromaddresses`: expected an account UUID string or an array of \
             transparent addresses, got \"a \\\"b\\\"\\n\"."
                .to_string(),
        ),
    );
    assert!(not_an_account_error("[q]").message.ends_with("transparent addresses, got [q]."));
}

#[test]
fn a_uuid_may_be_written_in_any_form() {
    for text in [
        ACCOUNT_TEXT,
        "67e5504410b1426f9247bb680e5fe0c8",
        "{67E55044-10B1-426F-9247-BB680E5FE0C8}",
        "urn:uuid:67e55044-10b1-426f-9247-bb680e5fe0c8",
        "URN:UUID:67E55044-10b1-426f-9247-bb680e5fe0c8",
    ] {
        match start(JsonValue::String(text.to_string())) {
            Step::LookUpAccount(s) => {
                assert_eq!(s.account, ACCOUNT);
                assert_eq!(s.text, text);
            }
            _ => panic!("the account is to be looked up"),
        }
    }
}

fn order() -> Order {
    Order {
        network: Network::Main,
        toaddress: shielded_text(9),
        to: shielded_text(9).parse().unwrap(),
        memo: None,
        limit: None,
        import_keys: true,
    }
}

#[test]
fn a_named_account_is_looked_up() {
    match name_account(order(), "text".to_string(), Some(7)) {
        Step::LookUpAccount(s) => assert_eq!((s.account, s.text.as_str()), (7, "text")),
        _ => panic!("the account is to be looked up"),
    }
}

#[test]
fn a_named_account_must_be_known() {
    let source = || JsonValue::String(ACCOUNT_TEXT.to_string());
    assert_eq!(
        failure(source(), Answers { known: Ok(false), ..answers() }),
        (LegacyCode::InvalidParameter, format!("Unknown account UUID: {ACCOUNT_TEXT}")),
    );
    assert_eq!(
        failure(source(), Answers { known: Err("disk".to_string()), ..answers() }),
        (LegacyCode::Database, "disk".to_string()),
    );
    assert_eq!(
        failure(source(), Answers { receivers: Err("rows".to_string()), ..answers() }),
        (LegacyCode::Database, "rows".to_string()),
    );
    assert_eq!(
        failure(source(), Answers { receivers: Ok(vec![]), ..answers() }),
        (
            LegacyCode::InvalidParameter,
            "No source transparent addresses resolved from `fromaddresses`.".to_string(),
        ),
    );
}

#[test]
fn a_named_account_is_swept_whole() {
    let (asked, result) = drive(start(JsonValue::String(ACCOUNT_TEXT.to_string())), answers());
    let ready = result.unwrap();
    assert_eq!(asked[0], format!("known {ACCOUNT:x}"));
    assert_eq!(asked[1], format!("receivers {ACCOUNT:x}"));
    assert_eq!(asked[2], "account");
    assert!(asked.contains(&format!("outputs {:?}", p2pkh(1))));
    assert!(asked.contains(&format!("outputs {:?}", p2sh(2))));
    assert!(matches!(ready.context.fromaddresses, JsonValue::String(s) if s == ACCOUNT_TEXT));
}

#[test]
fn array_entries_must_be_strings() {
    let source = JsonValue::Array(vec![JsonValue::Other]);
    assert_eq!(
        error_of(start(source)),
        (
            LegacyCode::InvalidParameter,
            "Invalid `fromaddresses`: every array entry must be a string.".to_string(),
        ),
    );
    let nested = JsonValue::Array(vec![array(&[p2pkh_text(1)])]);
    assert_eq!(
        error_of(start(nested)).1,
        "Invalid `fromaddresses`: every array entry must be a string.",
    );
}

#[test]
fn array_entries_must_be_transparent_addresses() {
    assert_eq!(
        error_of(start(array(&["zzz".to_string()]))),
        (
            LegacyCode::InvalidAddressOrKey,
            "Invalid `fromaddresses` entry: not a Zcash address: zzz".to_string(),
        ),
    );
    let tex = tex_text(1);
    assert_eq!(
        error_of(start(array(&[tex.clone()]))),
        (
            LegacyCode::InvalidAddressOrKey,
            format!("Invalid `fromaddresses` entry: only transparent addresses are accepted: {tex}"),
        ),
    );
    assert_eq!(accept_entry("t", Some(shieldcoinbase::address::Address::Transparent(p2sh(1)))).unwrap(), p2sh(1));
    for address in [
        shieldcoinbase::address::Address::Sapling,
        shieldcoinbase::address::Address::Unified,
        shieldcoinbase::address::Address::Tex,
    ] {
        let error = accept_entry("t", Some(address)).unwrap_err();
        assert_eq!(
            error.message,
            "Invalid `fromaddresses` entry: only transparent addresses are accepted: t",
        );
    }
    assert_eq!(
        accept_entry("t", None).unwrap_err().message,
        "Invalid `fromaddresses` entry: not a Zcash address: t",
    );
}

#[test]
fn array_entries_must_be_of_the_network() {
    let testnet = ZcashAddress::from_transparent_p2pkh(NetworkType::Test, [1; 20]).encode();
    assert_eq!(
        error_of(start(array(&[testnet.clone()]))).1,
        format!("Invalid `fromaddresses` entry: not a Zcash address: {testnet}"),
    );
    for network in [Network::Test, Network::Regtest(regtest())] {
        match call(network, array(&[testnet.clone()]), shielded_text(9), None, None, true) {
            Step::FindOwner(s) => assert_eq!(s.address, p2pkh(1)),
            _ => panic!("the owner is to be found"),
        }
    }
}

#[test]
fn an_address_must_be_owned() {
    let text = p2pkh_text(1);
    assert_eq!(
        failure(array(&[text.clone()]), Answers { owners: vec![(p2pkh(1), Ok(None))], ..answers() }),
        (
            LegacyCode::InvalidAddressOrKey,
            format!("Transparent address is not owned by any account in this wallet: {text}"),
        ),
    );
    assert_eq!(
        failure(
            array(&[text]),
            Answers { owners: vec![(p2pkh(1), Err("gone".to_string()))], ..answers() },
        ),
        (LegacyCode::Database, "gone".to_string()),
    );
}

#[test]
fn addresses_must_belong_to_one_account() {
    let owners = vec![(p2pkh(1), Ok(Some(ACCOUNT))), (p2sh(2), Ok(Some(ACCOUNT + 1)))];
    assert_eq!(
        failure(both(), Answers { owners, ..answers() }),
        (
            LegacyCode::InvalidParameter,
            "All addresses in `fromaddresses` must belong to the same account.".to_string(),
        ),
    );
}

#[test]
fn the_first_bad_entry_decides() {
    let source = || array(&[p2pkh_text(1), "zzz".to_string()]);
    assert_eq!(
        failure(source(), Answers { owners: vec![(p2pkh(1), Ok(None))], ..answers() }).0,
        LegacyCode::InvalidAddressOrKey,
    );
    assert_eq!(
        failure(source(), answers()).1,
        "Invalid `fromaddresses` entry: not a Zcash address: zzz",
    );
}

#[test]
fn repeated_addresses_count_once() {
    let source = array(&[p2pkh_text(1), p2sh_text(2), p2pkh_text(1), p2sh_text(2)]);
    let (asked, result) = drive(start(source), answers());
    assert!(result.is_ok());
    let owners: Vec<_> = asked.iter().filter(|q| q.starts_with("owner")).collect();
    assert_eq!(owners.len(), 2);
    let outputs: Vec<_> = asked.iter().filter(|q| q.starts_with("outputs")).collect();
    assert_eq!(outputs.len(), 2);
}

#[test]
fn a_key_hash_and_a_script_hash_differ() {
    assert!(p2pkh(1).same(&p2pkh(1)));
    assert!(!p2pkh(1).same(&p2sh(1)));
    let mut hash = [1; 20];
    hash[19] = 2;
    assert!(!p2pkh(1).same(&TransparentAddress::PublicKeyHash(hash)));
}

#[test]
fn a_served_call_asks_in_order() {
    let (asked, result) = drive(start(both()), answers());
    let ready = result.unwrap();
    assert_eq!(
        asked,
        vec![
            format!("owner {:?}", p2pkh(1)),
            format!("owner {:?}", p2sh(2)),
            "account".to_string(),
            "confirmations".to_string(),
            "proposal None".to_string(),
            "privacy".to_string(),
            format!("outputs {:?}", p2pkh(1)),
            format!("outputs {:?}", p2sh(2)),
            "seed".to_string(),
            format!("sources {ACCOUNT:x}"),
            format!("key {:?}", p2sh(2)),
        ],
    );
    assert_eq!(ready.preflight.shielding_utxos, 2);
    assert_eq!(ready.preflight.shielding_value.into_u64(), 110);
    assert_eq!(ready.preflight.remaining_utxos, 1);
    assert_eq!(ready.preflight.remaining_value.into_u64(), 5);
    assert_eq!(ready.context.method, "z_shieldcoinbase");
    assert_eq!(ready.context.toaddress, shielded_text(9));
    assert_eq!(ready.context.limit, None);
    assert!(matches!(ready.context.fromaddresses, JsonValue::Array(entries) if entries.len() == 2));
    let keys = ready.standalone_keys.into_entries();
    assert_eq!(keys.len(), 1);
    assert_eq!(keys[0].address, p2sh(2));
    assert_eq!(keys[0].keys, vec![secret(5)]);
}

#[test]
fn the_source_account_must_still_be_there() {
    assert_eq!(
        failure(both(), Answers { account: Ok(false), ..answers() }),
        (
            LegacyCode::Database,
            format!("Account vanished mid-call: AccountUuid({ACCOUNT_TEXT})"),
        ),
    );
    assert_eq!(
        failure(both(), Answers { account: Err("io".to_string()), ..answers() }),
        (LegacyCode::Database, "io".to_string()),
    );
}

#[test]
fn the_confirmations_policy_must_be_valid() {
    assert_eq!(
        failure(both(), Answers { confirmations: None, ..answers() }),
        (
            LegacyCode::Wallet,
            "Configuration error: minimum confirmations for spending trusted TXOs \
             cannot exceed that for untrusted TXOs."
                .to_string(),
        ),
    );
}

#[test]
fn a_proposal_must_be_made_and_meet_the_policy() {
    assert_eq!(
        failure(both(), Answers { proposal: Err("no funds".to_string()), ..answers() }),
        (
            LegacyCode::Wallet,
            "Failed to propose shielding transaction: no funds".to_string(),
        ),
    );
    assert_eq!(
        failure(both(), Answers { privacy: Some(LegacyCode::InvalidParameter), ..answers() }),
        (LegacyCode::InvalidParameter, "too revealing".to_string()),
    );
}

#[test]
fn sums_must_stay_within_all_money() {
    let proposal = Ok(vec![vec![(MAX_MONEY, vec![]), (1, vec![])]]);
    assert_eq!(
        failure(both(), Answers { proposal, ..answers() }).1,
        "Internal error: shielding value sum overflowed Zatoshis bounds.",
    );
    let outputs = vec![Ok(vec![MAX_MONEY]), Ok(vec![1])];
    assert_eq!(
        failure(both(), Answers { outputs, ..answers() }).1,
        "Internal error: total transparent value overflowed Zatoshis bounds.",
    );
    let outputs = vec![Ok(vec![50, 5]), Err("torn page".to_string())];
    assert_eq!(
        failure(both(), Answers { outputs, ..answers() }),
        (LegacyCode::Database, "torn page".to_string()),
    );
}

#[test]
fn no_secret_is_asked_for_before_the_numbers_add_up() {
    let outputs = vec![Ok(vec![50]), Ok(vec![])];
    let (asked, result) = drive(start(both()), Answers { outputs, ..answers() });
    assert_eq!(result.err().unwrap().code, LegacyCode::Wallet);
    assert!(!asked.iter().any(|q| q == "seed" || q.starts_with("key")));
    let outputs = vec![Ok(vec![50]), Ok(vec![59])];
    let (asked, result) = drive(start(both()), Answers { outputs, ..answers() });
    assert_eq!(result.err().unwrap().code, LegacyCode::Wallet);
    assert!(!asked.iter().any(|q| q == "seed" || q.starts_with("key")));
}

#[test]
fn many_inputs_are_warned_about() {
    for (inputs, warned) in [(400, false), (401, true)] {
        let proposal = Ok(vec![(0..inputs).map(|_| (1, vec![])).collect()]);
        let outputs = vec![Ok(vec![1; inputs]), Ok(vec![])];
        let (asked, result) = drive(start(both()), Answers { proposal, outputs, ..answers() });
        assert!(result.is_ok());
        assert_eq!(asked.contains(&"warning 401".to_string()), warned);
        assert_eq!(asked.iter().any(|q| q.starts_with("warning")), warned);
    }
}

#[test]
fn an_account_without_derivation_cannot_pay() {
    assert_eq!(
        failure(both(), Answers { derivation: None, ..answers() }),
        (
            LegacyCode::InvalidAddressOrKey,
            format!("No payment source found for account {ACCOUNT_TEXT}."),
        ),
    );
}

#[test]
fn a_locked_keystore_asks_for_an_unlock() {
    assert_eq!(
        failure(both(), Answers { seed: None, ..answers() }),
        (LegacyCode::WalletUnlockNeeded, "Wallet is locked".to_string()),
    );
    assert_eq!(
        failure(both(), Answers { keys: vec![None], ..answers() }),
        (LegacyCode::WalletUnlockNeeded, "Wallet is locked".to_string()),
    );
}

#[test]
fn the_spending_key_is_derived_from_the_seed() {
    let key_text = |usk: &UnifiedSpendingKey| {
        format!("{:?}", usk.to_unified_full_viewing_key().encode(&MAIN_NETWORK))
    };
    let seed = vec![7; 32];
    let expected = UnifiedSpendingKey::from_seed(&MAIN_NETWORK, &seed, 0u32.try_into().unwrap()).unwrap();
    let other = UnifiedSpendingKey::from_seed(&MAIN_NETWORK, &seed, 1u32.try_into().unwrap()).unwrap();
    let ready = drive(start(both()), answers()).1.unwrap();
    assert_eq!(key_text(&ready.usk), key_text(&expected));
    let derivation = KeyDerivation::new([3; 32], 1);
    let ready = drive(start(both()), Answers { derivation, ..answers() }).1.unwrap();
    assert_eq!(key_text(&ready.usk), key_text(&other));
    assert!(key_text(&expected) != key_text(&other));
}

#[test]
fn the_spending_key_depends_on_the_network() {
    let key_text = |usk: &UnifiedSpendingKey| {
        format!("{:?}", usk.to_unified_full_viewing_key().encode(&MAIN_NETWORK))
    };
    let seed = vec![7; 32];
    let expected = UnifiedSpendingKey::from_seed(&TEST_NETWORK, &seed, 0u32.try_into().unwrap()).unwrap();
    for network in [Network::Test, Network::Regtest(regtest())] {
        let step = call(
            network,
            JsonValue::String(ACCOUNT_TEXT.to_string()),
            shielded_text(9),
            None,
            None,
            false,
        );
        let ready = drive(step, answers()).1.unwrap();
        assert_eq!(key_text(&ready.usk), key_text(&expected));
    }
}

#[test]
fn a_seed_that_no_key_derives_from_is_refused() {
    assert_eq!(
        failure(both(), Answers { seed: Some(vec![7; 40]), ..answers() }),
        (
            LegacyCode::InvalidAddressOrKey,
            "Transparent error: seed length invalid".to_string(),
        ),
    );
}

#[test]
fn account_indices_are_below_two_to_the_31() {
    assert!(KeyDerivation::new([0; 32], 0x8000_0000).is_none());
    let last = KeyDerivation::new([1; 32], 0x7fff_ffff).unwrap();
    assert_eq!(last.account_index(), 0x7fff_ffff);
    assert_eq!(last.seed_fingerprint(), [1; 32]);
}

#[test]
fn no_keys_are_collected_where_none_can_be_imported() {
    let step = call(Network::Main, both(), shielded_text(9), Some(2), None, false);
    let (asked, result) = drive(step, answers());
    let ready = result.unwrap();
    assert!(!asked.iter().any(|q| q.starts_with("sources") || q.starts_with("key")));
    assert!(asked.contains(&"proposal Some(2)".to_string()));
    assert_eq!(ready.context.limit, Some(2));
    assert!(ready.standalone_keys.into_entries().is_empty());
}

#[test]
fn keys_are_grouped_by_address_in_input_order() {
    let proposal = Ok(vec![
        vec![(10, p2sh_script(2)), (10, p2pkh_script(1)), (10, vec![0x6a])],
        vec![(10, p2pkh_script(4)), (10, p2sh_script(2))],
    ]);
    let sources = Ok(vec![
        Receiver { address: p2sh(2), source: AddressSource::StandaloneScript },
        Receiver { address: p2pkh(4), source: AddressSource::StandalonePubkey },
        Receiver { address: p2pkh(1), source: AddressSource::Derived },
    ]);
    let keys = vec![Some(11), Some(12), Some(13)];
    let (asked, result) = drive(start(both()), Answers {
        proposal,
        sources,
        keys,
        outputs: vec![Ok(vec![10; 5]), Ok(vec![])],
        ..answers()
    });
    let asked: Vec<_> = asked.into_iter().filter(|q| q.starts_with("key")).collect();
    assert_eq!(
        asked,
        vec![
            format!("key {:?}", p2sh(2)),
            format!("key {:?}", p2pkh(4)),
            format!("key {:?}", p2sh(2)),
        ],
    );
    let entries = result.unwrap().standalone_keys.into_entries();
    assert_eq!(entries.len(), 2);
    assert_eq!(entries[0].address, p2sh(2));
    assert_eq!(entries[0].keys, vec![secret(11), secret(13)]);
    assert_eq!(entries[1].address, p2pkh(4));
    assert_eq!(entries[1].keys, vec![secret(12)]);
}

#[test]
fn sources_must_be_listed() {
    assert_eq!(
        failure(both(), Answers { sources: Err("index".to_string()), ..answers() }),
        (LegacyCode::Database, "index".to_string()),
    );
}

#[test]
fn only_addresses_with_keys_of_their_own_need_them() {
    let receivers = vec![
        Receiver { address: p2pkh(1), source: AddressSource::Derived },
        Receiver { address: p2pkh(2), source: AddressSource::StandalonePubkey },
        Receiver { address: p2pkh(3), source: AddressSource::StandaloneAddress },
        Receiver { address: p2sh(4), source: AddressSource::StandaloneScript },
    ];
    let own = standalone_addresses(&receivers);
    assert_eq!(own, vec![p2pkh(2), p2sh(4)]);
    assert_eq!(key_needed(Some(p2pkh(2)), &own), Some(p2pkh(2)));
    assert_eq!(key_needed(Some(p2pkh(1)), &own), None);
    assert_eq!(key_needed(None, &own), None);
}

#[test]
fn keys_are_added_behind_those_of_the_same_address() {
    let keys = StandaloneKeys::new()
        .with_key(p2pkh(1), secret(1))
        .with_key(p2pkh(2), secret(2))
        .with_key(p2pkh(1), secret(3));
    let entries = keys.into_entries();
    assert_eq!(entries.len(), 2);
    assert_eq!(entries[0].keys, vec![secret(1), secret(3)]);
    assert_eq!(entries[1].keys, vec![secret(2)]);
}

#[test]
fn no_other_text_is_a_uuid() {
    for text in [
        "",
        " 67e55044-10b1-426f-9247-bb680e5fe0c8",
        "67e55044-10b1-426f-9247-bb680e5fe0c",
        "67e55044-10b1-426f-9247-bb680e5fe0cg",
        "67e5504-410b1-426f-9247-bb680e5fe0c8",
        "{67e5504410b1426f9247bb680e5fe0c8}",
        "[67e55044-10b1-426f-9247-bb680e5fe0c8]",
        "urn-uuid:67e55044-10b1-426f-9247-bb680e5fe0c8",
    ] {
        let (code, message) = error_of(start(JsonValue::String(text.to_string())));
        assert_eq!(code, LegacyCode::InvalidParameter);
        assert!(message.ends_with(&format!("got {text:?}.")));
    }
}

#[test]
fn the_text_of_an_account_names_it() {
    for id in [0, 1, 0x0123_4567_89ab_cdef_fedc_ba98_7654_3210, u128::MAX] {
        let owners = vec![(p2pkh(1), Ok(Some(id)))];
        let outputs = vec![Ok(vec![50, 60])];
        let (_, message) = failure(
            array(&[p2pkh_text(1)]),
            Answers { owners, outputs, derivation: None, ..answers() },
        );
        let text = message.strip_prefix("No payment source found for account ").unwrap();
        let text = text.strip_suffix(".").unwrap();
        match start(JsonValue::String(text.to_string())) {
            Step::LookUpAccount(s) => assert_eq!(s.account, id),
            _ => panic!("the account is to be looked up"),
        }
    }
}

#[test]
fn only_the_script_of_an_address_pays_to_it() {
    let needed = |script_pubkey: Vec<u8>| {
        let inputs = vec![TransparentInput { value: zats(1), script_pubkey }];
        let steps = vec![ProposalStep { transparent_inputs: inputs }];
        keys_needed(&Proposal { steps, min_target_height: 1 }, &vec![p2pkh(1), p2sh(2)])
    };
    assert_eq!(needed(p2pkh_script(1)), vec![p2pkh(1)]);
    assert_eq!(needed(p2sh_script(2)), vec![p2sh(2)]);
    assert_eq!(needed(p2pkh_script(2)), vec![]);
    assert_eq!(needed(p2sh_script(1)), vec![]);
    let mut longer = p2sh_script(2);
    longer.push(0x87);
    assert_eq!(needed(longer), vec![]);
    let mut pushed_otherwise = vec![0xa9, 0x4c, 0x14];
    pushed_otherwise.extend_from_slice(&[2; 20]);
    pushed_otherwise.push(0x87);
    assert_eq!(needed(pushed_otherwise), vec![]);
    let mut short_hash = vec![0xa9, 0x13];
    short_hash.extend_from_slice(&[2; 19]);
    short_hash.push(0x87);
    assert_eq!(needed(short_hash), vec![]);
    let mut cut = p2pkh_script(1);
    cut.truncate(22);
    assert_eq!(needed(cut), vec![]);
    assert_eq!(needed(vec![]), vec![]);
}

#[test]
fn every_output_query_goes_by_the_configured_policy() {
    for confirmations in [policy(1, 1), policy(3, 10), policy(10, 10)] {
        let answers = Answers { confirmations: Some(confirmations), ..answers() };
        let (asked, result) = drive(start(both()), answers);
        assert!(result.is_ok());
        let queries: Vec<_> = asked.into_iter().filter(|q| q.starts_with("outputs")).collect();
        assert_eq!(
            queries,
            vec![format!("outputs {:?}", p2pkh(1)), format!("outputs {:?}", p2sh(2))],
        );
    }
}

fn ready() -> Ready {
    drive(start(both()), answers()).1.unwrap()
}

/// Drives the work that is left and lists what was broadcast.
fn work<T>(
    mut step: RunStep<T>,
    built: Result<Vec<[u8; 32]>, String>,
    sent: T,
) -> (Vec<Vec<[u8; 32]>>, Ending<T>) {
    let (mut built, mut sent) = (Some(built), Some(sent));
    let mut broadcasts = Vec::new();
    loop {
        step = match step {
            RunStep::Build(s) => {
                let (terms, waiting) = s.start();
                assert_eq!(terms.ovk_policy, OvkPolicy::Sender);
                waiting.resume(built.take().unwrap())
            }
            RunStep::Broadcast(s) => {
                broadcasts.push(s.txids.clone());
                s.resume(sent.take().unwrap())
            }
            RunStep::Done(ending) => return (broadcasts, ending),
        };
    }
}

#[test]
fn the_reported_proposal_is_built_with_the_collected_keys() {
    let (preflight, context, step) = ready().start::<()>();
    assert_eq!(preflight.shielding_utxos, 2);
    assert_eq!(context.method, "z_shieldcoinbase");
    match step {
        RunStep::Build(s) => {
            let (terms, _) = s.start();
            assert_eq!(terms.ovk_policy, OvkPolicy::Sender);
            assert_eq!(terms.proposal.min_target_height, 77);
            assert_eq!(terms.proposal.steps.len(), 1);
            let inputs = &terms.proposal.steps[0].transparent_inputs;
            let values: Vec<_> = inputs.iter().map(|input| input.value.into_u64()).collect();
            assert_eq!(values, vec![50, 60]);
            let keys = terms.standalone_keys.into_entries();
            assert_eq!(keys.len(), 1);
            assert_eq!(keys[0].address, p2sh(2));
            assert_eq!(keys[0].keys, vec![secret(5)]);
        }
        _ => panic!("the transactions are to be built"),
    }
}

#[test]
fn what_was_built_is_broadcast_once_and_the_result_handed_on() {
    for sent in [Ok::<u8, u8>(3), Err(4)] {
        let (broadcasts, ending) = work(ready().start().2, Ok(vec![[1; 32], [2; 32]]), sent);
        assert_eq!(broadcasts, vec![vec![[1; 32], [2; 32]]]);
        assert!(matches!(ending, Ending::Broadcast(result) if result == sent));
    }
}

#[test]
fn nothing_is_broadcast_that_was_not_built() {
    let Ready { proposal, usk, standalone_keys, .. } = ready();
    let step = run(proposal, usk, standalone_keys);
    let (broadcasts, ending) = work(step, Err("no proof".to_string()), ());
    assert!(broadcasts.is_empty());
    match ending {
        Ending::NotBuilt(error) => {
            assert_eq!(error.code, LegacyCode::Wallet);
            assert_eq!(error.message, "Failed to build shielding transaction: no proof");
        }
        Ending::Broadcast(()) => panic!("nothing was built"),
    }
}

#[test]
fn the_steps_of_the_work_stand_alone() {
    let Ready { proposal, usk, standalone_keys, .. } = ready();
    let terms = build_terms(proposal, usk, standalone_keys);
    assert_eq!(terms.ovk_policy, OvkPolicy::Sender);
    match (AwaitBuild {}).resume::<()>(Ok(vec![[9; 32]])) {
        RunStep::Broadcast(s) => assert_eq!(s.txids, vec![[9; 32]]),
        _ => panic!("the transaction is to be broadcast"),
    }
    let step = Broadcast { txids: vec![[9; 32]] }.resume("sent");
    assert!(matches!(step, RunStep::Done(Ending::Broadcast("sent"))));
}
