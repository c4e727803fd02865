use shieldcoinbase::amount::{Zatoshis, MAX_MONEY};
use shieldcoinbase::error::{KeystoreError, LegacyCode};
use shieldcoinbase::preflight::{
    OperationId, Preflight, ShieldCoinbaseResult, COINBASE_INPUTS_WARN_THRESHOLD,
};
use shieldcoinbase::proposal::{
    add_outputs, sum_selected_inputs, Proposal, ProposalStep, Tally, TransparentInput,
};
use zcash_protocol::value::Zatoshis as Outside;

fn zats(n: u64) -> Zatoshis {
    Zatoshis::from_u64(n).unwrap()
}

fn tally(utxos: u64, value: u64) -> Tally {
    Tally { utxos, value: zats(value) }
}

fn step(values: &[u64]) -> ProposalStep {
    ProposalStep {
        transparent_inputs: values
            .iter()
            .map(|v| TransparentInput { value: zats(*v), script_pubkey: Vec::new() })
            .collect(),
    }
}

fn proposal(steps: Vec<ProposalStep>) -> Proposal {
    Proposal { steps, min_target_height: 100 }
}

#[test]
fn amounts_agree_with_the_protocol_crate() {
    assert_eq!(MAX_MONEY, zcash_protocol::value::MAX_MONEY);
    let samples = [0, 1, 2, MAX_MONEY / 2, MAX_MONEY - 1, MAX_MONEY];
    for a in samples {
        for b in samples {
            let (x, y) = (Outside::from_u64(a).unwrap(), Outside::from_u64(b).unwrap());
            assert_eq!(
                zats(a).plus(zats(b)).map(Zatoshis::into_u64),
                (x + y).map(|z| z.into_u64()),
            );
            assert_eq!(
                zats(a).minus(zats(b)).map(Zatoshis::into_u64),
                (x - y).map(|z| z.into_u64()),
            );
        }
    }
    assert!(Zatoshis::from_u64(MAX_MONEY + 1).is_none());
    assert!(Outside::from_u64(MAX_MONEY + 1).is_err());
    assert_eq!(Zatoshis::zero().into_u64(), Outside::ZERO.into_u64());
}

#[test]
fn selected_inputs_are_counted_over_all_steps() {
    let sum = sum_selected_inputs(&proposal(vec![step(&[5, 7]), step(&[]), step(&[11])])).unwrap();
    assert_eq!(sum.utxos, 3);
    assert_eq!(sum.value.into_u64(), 23);
    let none = sum_selected_inputs(&proposal(vec![])).unwrap();
    assert_eq!(none.utxos, 0);
    assert_eq!(none.value.into_u64(), 0);
}

#[test]
fn selected_inputs_may_sum_to_all_money_but_not_more() {
    let all = sum_selected_inputs(&proposal(vec![step(&[MAX_MONEY - 1]), step(&[1])])).unwrap();
    assert_eq!(all.value.into_u64(), MAX_MONEY);
    let error = sum_selected_inputs(&proposal(vec![step(&[MAX_MONEY]), step(&[1])])).unwrap_err();
    assert_eq!(error.code, LegacyCode::Wallet);
    assert_eq!(
        error.message,
        "Internal error: shielding value sum overflowed Zatoshis bounds.",
    );
}

#[test]
fn eligible_outputs_add_up() {
    let sum = add_outputs(tally(2, 10), &vec![zats(3), zats(4)]).unwrap();
    assert_eq!(sum.utxos, 4);
    assert_eq!(sum.value.into_u64(), 17);
    let same = add_outputs(tally(2, 10), &vec![]).unwrap();
    assert_eq!(same.utxos, 2);
    assert_eq!(same.value.into_u64(), 10);
    let counted = add_outputs(tally(u64::MAX, 0), &vec![zats(1)]).unwrap();
    assert_eq!(counted.utxos, u64::MAX);
    let error = add_outputs(tally(1, MAX_MONEY), &vec![zats(0), zats(1)]).unwrap_err();
    assert_eq!(error.code, LegacyCode::Wallet);
    assert_eq!(
        error.message,
        "Internal error: total transparent value overflowed Zatoshis bounds.",
    );
}

#[test]
fn preflight_splits_what_is_eligible() {
    let preflight = Preflight::new(tally(10, 100), tally(4, 30)).unwrap();
    assert_eq!(preflight.remaining_utxos, 6);
    assert_eq!(preflight.remaining_value.into_u64(), 70);
    assert_eq!(preflight.shielding_utxos, 4);
    assert_eq!(preflight.shielding_value.into_u64(), 30);
    let everything = Preflight::new(tally(4, 30), tally(4, 30)).unwrap();
    assert_eq!(everything.remaining_utxos, 0);
    assert_eq!(everything.remaining_value.into_u64(), 0);
}

#[test]
fn preflight_refuses_more_than_is_eligible() {
    let count = Preflight::new(tally(3, 100), tally(4, 200)).unwrap_err();
    assert_eq!(count.code, LegacyCode::Wallet);
    assert_eq!(
        count.message,
        "Internal accounting error: proposal selected more UTXOs than enumeration found \
         (likely a chain race during shielding setup).",
    );
    let value = Preflight::new(tally(4, 100), tally(4, 101)).unwrap_err();
    assert_eq!(value.code, LegacyCode::Wallet);
    assert_eq!(
        value.message,
        "Internal accounting error: proposal value exceeds enumerated total \
         (likely a chain race during shielding setup).",
    );
}

#[test]
fn the_threshold_itself_does_not_warn() {
    assert_eq!(COINBASE_INPUTS_WARN_THRESHOLD, 400);
    let at = Preflight::new(tally(400, 1), tally(400, 1)).unwrap();
    assert!(!at.exceeds_threshold());
    let above = Preflight::new(tally(401, 1), tally(401, 1)).unwrap();
    assert!(above.exceeds_threshold());
}

#[test]
fn result_repeats_the_preflight_numbers() {
    let preflight = Preflight::new(tally(10, 16), tally(7, 11)).unwrap();
    let result = ShieldCoinbaseResult::new(preflight, OperationId { id: "opid-1".to_string() });
    assert_eq!(result.remaining_utxos, 3);
    assert_eq!(result.remaining_value.into_u64(), 5);
    assert_eq!(result.shielding_utxos, 7);
    assert_eq!(result.shielding_value.into_u64(), 11);
    assert_eq!(result.opid.id, "opid-1");
}

#[test]
fn only_a_locked_wallet_asks_for_an_unlock() {
    let code = |generic: bool, message: &str| {
        let error = KeystoreError { generic, message: message.to_string() }.into_rpc_error();
        assert_eq!(error.message, message);
        error.code
    };
    assert_eq!(code(true, "Wallet is locked"), LegacyCode::WalletUnlockNeeded);
    assert_eq!(code(false, "Wallet is locked"), LegacyCode::Database);
    assert_eq!(code(true, "wallet is locked"), LegacyCode::Database);
    assert_eq!(code(true, "Wallet is locked."), LegacyCode::Database);
}

#[test]
fn errors_keep_their_texts() {
    let fixed = LegacyCode::Wallet.with_static("fixed");
    assert_eq!((fixed.code, fixed.message.as_str()), (LegacyCode::Wallet, "fixed"));
    let given = LegacyCode::Database.with_message("given".to_string());
    assert_eq!((given.code, given.message.as_str()), (LegacyCode::Database, "given"));
}
