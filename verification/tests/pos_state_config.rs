use once_cell::sync::OnceCell;
use pos_bridge::executive::{
    CollateralCheckResult, CollateralCheckResultToVmResult, VmError, U256,
};
use pos_bridge::pos_state_config::{
    configured, configured_election_views, election_views, ElectionViews, PosStateConfig,
    PosStateConfigTrait, IN_QUEUE_LOCKED_VIEWS, MAX_ROUND_PER_TERM, OUT_QUEUE_LOCKED_VIEWS,
    ROUND_PER_TERM, TERM_ELECTED_SIZE, TERM_LIST_LEN, TERM_MAX_SIZE,
};

fn cell_with(config: PosStateConfig) -> OnceCell<PosStateConfig> {
    let cell = OnceCell::new();
    assert!(cell.set(config).is_ok());
    cell
}

#[test]
fn parameters_come_back_as_given() {
    let config = PosStateConfig::new(20, 300, 40, 5, 6);
    assert_eq!(config.round_per_term(), 20);
    assert_eq!(config.term_max_size(), 300);
    assert_eq!(config.term_elected_size(), 40);
    assert_eq!(config.in_queue_locked_views(), 5);
    assert_eq!(config.out_queue_locked_views(), 6);
    assert_eq!(config.force_retired_locked_views(), 6);
}

#[test]
fn election_window_of_a_term() {
    let config = PosStateConfig::new(20, 300, 40, 5, 6);
    assert_eq!(config.election_term_start_round(), 30);
    assert_eq!(config.election_term_end_round(), 10);
    assert_eq!(config.first_start_election_view(), 90);
    assert_eq!(config.first_end_election_view(), 110);
    let odd = PosStateConfig::new(7, 1, 1, 0, 0);
    assert_eq!(odd.election_term_start_round(), 9);
    assert_eq!(odd.election_term_end_round(), 3);
    assert_eq!(odd.first_start_election_view(), 33);
    assert_eq!(odd.first_end_election_view(), 39);
}

#[test]
fn default_parameters() {
    let config = PosStateConfig::default();
    assert_eq!(config.round_per_term(), ROUND_PER_TERM);
    assert_eq!(config.term_max_size(), TERM_MAX_SIZE);
    assert_eq!(config.term_elected_size(), TERM_ELECTED_SIZE);
    assert_eq!(config.in_queue_locked_views(), IN_QUEUE_LOCKED_VIEWS);
    assert_eq!(config.out_queue_locked_views(), OUT_QUEUE_LOCKED_VIEWS);
    assert_eq!(config.election_term_start_round(), 90);
    assert_eq!(config.election_term_end_round(), 30);
    assert_eq!(config.first_start_election_view(), TERM_LIST_LEN as u64 * 60 - 90);
    assert_eq!(config.first_end_election_view(), 330);
}

#[test]
fn an_empty_cell_gives_nothing() {
    let cell: OnceCell<PosStateConfig> = OnceCell::new();
    assert!(configured(&cell).is_none());
    assert_eq!(configured_election_views(&cell), None);
    assert_eq!(election_views(None), None);
}

#[test]
fn a_set_cell_gives_its_parameters() {
    let cell = cell_with(PosStateConfig::new(20, 300, 40, 5, 6));
    let read = configured(&cell).unwrap();
    assert_eq!(read.round_per_term(), 20);
    assert_eq!(read.term_max_size(), 300);
    assert_eq!(read.out_queue_locked_views(), 6);
    assert_eq!(
        configured_election_views(&cell),
        Some(ElectionViews { first_start: 90, first_end: 110 })
    );
}

#[test]
fn a_cell_keeps_its_first_parameters() {
    let cell = cell_with(PosStateConfig::new(20, 300, 40, 5, 6));
    assert!(cell.set(PosStateConfig::new(8, 1, 1, 1, 1)).is_err());
    assert_eq!(configured(&cell).unwrap().round_per_term(), 20);
}

#[test]
fn views_that_do_not_fit_are_not_given() {
    let most = PosStateConfig::new(MAX_ROUND_PER_TERM, 1, 1, 0, 0);
    assert_eq!(
        election_views(Some(most)),
        Some(ElectionViews {
            first_start: 6 * MAX_ROUND_PER_TERM - MAX_ROUND_PER_TERM / 2 * 3,
            first_end: 6 * MAX_ROUND_PER_TERM - MAX_ROUND_PER_TERM / 2,
        })
    );
    let over = PosStateConfig::new(MAX_ROUND_PER_TERM + 1, 1, 1, 0, 0);
    assert_eq!(election_views(Some(over)), None);
    assert_eq!(configured_election_views(&cell_with(over)), None);
    assert_eq!(election_views(Some(PosStateConfig::new(u64::MAX, 1, 1, 0, 0))), None);
    assert_eq!(
        election_views(Some(PosStateConfig::new(0, 1, 1, 0, 0))),
        Some(ElectionViews { first_start: 0, first_end: 0 })
    );
}

fn amount(low: u64) -> U256 {
    U256 { limbs: [low, 0, 0, 0] }
}

#[test]
fn collateral_outcomes_map_to_vm_results() {
    assert!(CollateralCheckResult::Valid.into_vm_result().is_ok());
    let over = CollateralCheckResult::ExceedStorageLimit { limit: amount(1), required: amount(2) };
    assert!(matches!(over.into_vm_result(), Err(VmError::ExceedStorageLimit)));
    let short = CollateralCheckResult::NotEnoughBalance { required: amount(9), got: amount(4) };
    match short.into_vm_result() {
        Err(VmError::NotEnoughBalanceForStorage { required, got }) => {
            assert_eq!(required.limbs, [9, 0, 0, 0]);
            assert_eq!(got.limbs, [4, 0, 0, 0]);
        }
        _ => panic!("the missing balance was not reported"),
    }
}
