use journaled_evm::gas::{
    call_cost, cost_per_word, create2_cost, initcode_cost, memory_gas, num_words, warm_cold_cost,
    warm_cold_cost_with_delegation, Gas,
};
use journaled_evm::journal::StateLoad;
use journaled_evm::journal_model::AccountLoad;
use journaled_evm::primitives::SpecId;

fn load(is_cold: bool, delegate: Option<bool>, is_empty: bool) -> StateLoad<AccountLoad> {
    StateLoad::new(AccountLoad { is_delegate_account_cold: delegate, is_empty }, is_cold)
}

#[test]
fn words_round_up() {
    assert_eq!(num_words(0), 0);
    assert_eq!(num_words(1), 1);
    assert_eq!(num_words(32), 1);
    assert_eq!(num_words(33), 2);
    assert_eq!(num_words(usize::MAX), usize::MAX / 32);
}

#[test]
fn memory_price_is_linear_plus_quadratic() {
    assert_eq!(memory_gas(0), 0);
    assert_eq!(memory_gas(1), 3);
    assert_eq!(memory_gas(2), 6);
    assert_eq!(memory_gas(32), 98);
    assert_eq!(memory_gas(1024), 3 * 1024 + 1024 * 1024 / 512);
}

#[test]
fn init_code_and_create2_prices() {
    assert_eq!(initcode_cost(0), 0);
    assert_eq!(initcode_cost(1), 2);
    assert_eq!(initcode_cost(64), 4);
    assert_eq!(initcode_cost(65), 6);
    assert_eq!(create2_cost(0), Some(32000));
    assert_eq!(create2_cost(64), Some(32012));
    assert_eq!(cost_per_word(33, 6), Some(12));
    assert_eq!(cost_per_word(64, u64::MAX), None);
}

#[test]
fn access_prices() {
    assert_eq!(warm_cold_cost(true), 2600);
    assert_eq!(warm_cold_cost(false), 100);
    assert_eq!(warm_cold_cost_with_delegation(&load(true, None, false)), 2600);
    assert_eq!(warm_cold_cost_with_delegation(&load(false, Some(true), false)), 2700);
    assert_eq!(warm_cold_cost_with_delegation(&load(true, Some(true), false)), 5200);
}

#[test]
fn call_price_by_fork() {
    assert_eq!(call_cost(SpecId::FRONTIER, false, &load(true, None, false)), 40);
    assert_eq!(call_cost(SpecId::TANGERINE, false, &load(true, None, false)), 700);
    assert_eq!(call_cost(SpecId::ISTANBUL, false, &load(true, None, false)), 700);
    assert_eq!(call_cost(SpecId::BERLIN, false, &load(true, None, false)), 2600);
    assert_eq!(call_cost(SpecId::BERLIN, false, &load(false, None, false)), 100);
    assert_eq!(call_cost(SpecId::PRAGUE, false, &load(false, Some(true), false)), 2700);
}

#[test]
fn call_price_with_value_and_new_account() {
    assert_eq!(call_cost(SpecId::CANCUN, true, &load(false, None, false)), 100 + 9000);
    assert_eq!(call_cost(SpecId::CANCUN, true, &load(true, None, true)), 2600 + 9000 + 25000);
    // An empty receiver costs nothing more when no value moves.
    assert_eq!(call_cost(SpecId::CANCUN, false, &load(false, None, true)), 100);
    assert_eq!(call_cost(SpecId::HOMESTEAD, false, &load(false, None, true)), 40);
    assert_eq!(call_cost(SpecId::HOMESTEAD, true, &load(false, None, true)), 40 + 9000 + 25000);
}

#[test]
fn gas_meter_pays_and_refuses() {
    let mut gas = Gas::new(100);
    assert_eq!(gas.limit(), 100);
    assert_eq!(gas.remaining(), 100);
    assert!(gas.record_cost(30));
    assert_eq!(gas.remaining(), 70);
    assert_eq!(gas.spent(), 30);
    assert!(!gas.record_cost(71));
    assert_eq!(gas.remaining(), 70);
    assert!(gas.record_cost(70));
    assert_eq!(gas.remaining(), 0);
    gas.erase_cost(64);
    assert_eq!(gas.remaining_63_of_64_parts(), 63);
    let spent = Gas::new_spent(9);
    assert_eq!(spent.remaining(), 0);
    assert_eq!(spent.spent(), 9);
}

#[test]
fn refund_is_capped_by_fork() {
    let mut gas = Gas::new(1000);
    assert!(gas.record_cost(500));
    gas.record_refund(400);
    assert_eq!(gas.refunded(), 400);
    let mut london = gas;
    london.set_final_refund(true);
    assert_eq!(london.refunded(), 100);
    let mut before = gas;
    before.set_final_refund(false);
    assert_eq!(before.refunded(), 250);
    let mut small = Gas::new(1000);
    assert!(small.record_cost(500));
    small.record_refund(7);
    small.set_final_refund(true);
    assert_eq!(small.refunded(), 7);
    let mut negative = Gas::new(1000);
    negative.record_refund(-5);
    negative.set_final_refund(true);
    assert_eq!(negative.refunded(), 0);
}

#[test]
fn memory_growth_is_paid_once() {
    let mut gas = Gas::new(1000);
    assert_eq!(gas.record_new_len(2), Some(6));
    assert_eq!(gas.record_new_len(2), None);
    assert_eq!(gas.record_new_len(1), None);
    assert_eq!(gas.record_new_len(32), Some(92));
    assert_eq!(gas.memory.words_num, 32);
    assert_eq!(gas.memory.expansion_cost, 98);
    gas.set_spent(10);
    assert_eq!(gas.remaining(), 990);
}
