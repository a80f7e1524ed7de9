use player_info::address::Address;
use player_info::record::PlayerInfo;
use player_info::registry::{PlayerInfoContract, RegistryError};

fn addr(hi: u64, lo: u64, tail: u32) -> Address {
    Address { hi, lo, tail }
}

fn alloy_of(a: &Address) -> alloy_primitives::Address {
    let mut bytes = [0u8; 20];
    bytes[0..8].copy_from_slice(&a.hi.to_be_bytes());
    bytes[8..16].copy_from_slice(&a.lo.to_be_bytes());
    bytes[16..20].copy_from_slice(&a.tail.to_be_bytes());
    alloy_primitives::Address::new(bytes)
}

fn record(
    exists: bool,
    name: &str,
    winning_matches: u64,
    total_matches: u64,
    winning_predictions: u64,
    total_predictions: u64,
) -> PlayerInfo {
    PlayerInfo {
        exists,
        display_name: name.to_string(),
        winning_matches,
        total_matches,
        winning_predictions,
        total_predictions,
    }
}

#[test]
fn init_succeeds_and_sets_owner() {
    let mut c = PlayerInfoContract::new();
    assert!(!c.get_initialized());
    let owner = addr(1, 1, 1);
    assert_eq!(c.init(owner), Ok(()));
    assert!(c.get_initialized());
    assert_eq!(c.get_owner(), owner);
}

#[test]
fn init_twice_fails_and_owner_stays() {
    let mut c = PlayerInfoContract::new();
    let first = addr(1, 1, 1);
    let second = addr(2, 2, 2);
    assert_eq!(c.init(first), Ok(()));
    assert_eq!(c.init(second), Err(RegistryError::AlreadyInitialized));
    assert_eq!(c.get_owner(), first);
    // The first caller still has owner rights; the second never gained them.
    assert_eq!(c.set_matchmaking_contract(second, addr(9, 9, 9)), Err(RegistryError::NotOwner));
    assert_eq!(c.set_matchmaking_contract(first, addr(9, 9, 9)), Ok(()));
}

#[test]
fn owner_unchanged_by_other_operations() {
    let mut c = PlayerInfoContract::new();
    let owner = addr(1, 1, 1);
    let m = addr(2, 2, 2);
    let p = addr(3, 3, 3);
    let player = addr(4, 4, 4);
    assert_eq!(c.init(owner), Ok(()));
    assert_eq!(c.set_matchmaking_contract(owner, m), Ok(()));
    assert_eq!(c.set_prediction_contract(owner, p), Ok(()));
    assert_eq!(c.register_player(player), Ok(()));
    assert_eq!(c.update_display_name(player, "someone".to_string()), Ok(()));
    assert_eq!(c.add_match_results(m, player, owner), Ok(()));
    assert_eq!(c.add_prediction_results(p, player, true), Ok(()));
    assert_eq!(c.get_owner(), owner);
    assert!(c.get_initialized());
}

#[test]
fn collaborator_addresses_default_to_zero() {
    let c = PlayerInfoContract::new();
    assert_eq!(c.get_matchmaking_contract(), Address::zero());
    assert_eq!(c.get_prediction_contract(), Address::zero());
    assert_eq!(c.get_owner(), Address::zero());
}

#[test]
fn set_matchmaking_requires_owner() {
    let mut c = PlayerInfoContract::new();
    let owner = addr(1, 1, 1);
    let outsider = addr(2, 2, 2);
    assert_eq!(c.init(owner), Ok(()));
    assert_eq!(c.set_matchmaking_contract(outsider, addr(9, 9, 9)), Err(RegistryError::NotOwner));
    assert_eq!(c.get_matchmaking_contract(), Address::zero());
    assert_eq!(c.set_matchmaking_contract(owner, addr(9, 9, 9)), Ok(()));
    assert_eq!(c.get_matchmaking_contract(), addr(9, 9, 9));
}

#[test]
fn set_prediction_requires_owner() {
    let mut c = PlayerInfoContract::new();
    let owner = addr(1, 1, 1);
    let outsider = addr(2, 2, 2);
    assert_eq!(c.init(owner), Ok(()));
    assert_eq!(c.set_prediction_contract(outsider, addr(8, 8, 8)), Err(RegistryError::NotOwner));
    assert_eq!(c.get_prediction_contract(), Address::zero());
    assert_eq!(c.set_prediction_contract(owner, addr(8, 8, 8)), Ok(()));
    assert_eq!(c.get_prediction_contract(), addr(8, 8, 8));
}

#[test]
fn register_and_read_back_default_name() {
    let mut c = PlayerInfoContract::new();
    let player = addr(0x1234, 0x5678, 0x9abc);
    assert_eq!(c.register_player(player), Ok(()));
    let expected = alloy_of(&player).to_string();
    assert_eq!(c.get_display_name(player), Ok(expected.clone()));
    assert_eq!(c.get_display_name_by_address(player), Ok(expected));
}

#[test]
fn default_name_is_checksummed_hex() {
    let mut c = PlayerInfoContract::new();
    let player = addr(0xdead_beef_0000_0001, 0xcafe_f00d_0000_0002, 3);
    assert_eq!(c.register_player_with_address(player), Ok(()));
    let name = c.get_display_name_by_address(player).unwrap();
    assert_eq!(name.len(), 42);
    assert!(name.starts_with("0x"));
    assert_eq!(name, alloy_of(&player).to_string());
}

#[test]
fn registered_account_has_zero_counters() {
    let mut c = PlayerInfoContract::new();
    let player = addr(5, 5, 5);
    assert_eq!(c.register_player(player), Ok(()));
    assert_eq!(c.get_total_matches(player), Ok(0));
    assert_eq!(c.get_winning_matches(player), Ok(0));
    assert_eq!(c.get_total_predictions(player), Ok(0));
    assert_eq!(c.get_winning_predictions(player), Ok(0));
}

#[test]
fn authorized_match_update() {
    let mut c = PlayerInfoContract::new();
    let owner = addr(1, 1, 1);
    let m = addr(2, 2, 2);
    let winner = addr(10, 10, 10);
    let loser = addr(11, 11, 11);
    assert_eq!(c.init(owner), Ok(()));
    assert_eq!(c.set_matchmaking_contract(owner, m), Ok(()));
    assert_eq!(c.add_match_results(m, winner, loser), Ok(()));
    assert_eq!(c.get_total_matches_by_address(winner), Ok(1));
    assert_eq!(c.get_winning_matches_by_address(winner), Ok(1));
    assert_eq!(c.get_total_matches_by_address(loser), Ok(1));
    assert_eq!(c.get_winning_matches_by_address(loser), Ok(0));
}

#[test]
fn unauthorized_match_rejected() {
    let mut c = PlayerInfoContract::new();
    let owner = addr(1, 1, 1);
    let m = addr(2, 2, 2);
    let outsider = addr(3, 3, 3);
    let winner = addr(10, 10, 10);
    let loser = addr(11, 11, 11);
    assert_eq!(c.init(owner), Ok(()));
    assert_eq!(c.set_matchmaking_contract(owner, m), Ok(()));
    assert_eq!(c.add_match_results(outsider, winner, loser), Err(RegistryError::Unauthorized));
    // No counters changed: the targets still have no record at all.
    assert_eq!(c.get_total_matches_by_address(winner), Err(RegistryError::PlayerNotFound));
    assert_eq!(c.get_total_matches_by_address(loser), Err(RegistryError::PlayerNotFound));
}

#[test]
fn authorization_follows_reconfiguration() {
    let mut c = PlayerInfoContract::new();
    let owner = addr(1, 1, 1);
    let x = addr(2, 2, 2);
    let y = addr(3, 3, 3);
    let a = addr(10, 10, 10);
    let b = addr(11, 11, 11);
    assert_eq!(c.init(owner), Ok(()));
    assert_eq!(c.set_matchmaking_contract(owner, x), Ok(()));
    assert_eq!(c.add_match_results(x, a, b), Ok(()));
    assert_eq!(c.set_matchmaking_contract(owner, y), Ok(()));
    // X lost its right the moment Y was configured; Y holds it now.
    assert_eq!(c.add_match_results(x, a, b), Err(RegistryError::Unauthorized));
    assert_eq!(c.add_match_results(y, a, b), Ok(()));
    assert_eq!(c.get_total_matches_by_address(a), Ok(2));
}

#[test]
fn self_match_counts_once() {
    let mut c = PlayerInfoContract::new();
    let owner = addr(1, 1, 1);
    let m = addr(2, 2, 2);
    let player = addr(10, 10, 10);
    assert_eq!(c.init(owner), Ok(()));
    assert_eq!(c.set_matchmaking_contract(owner, m), Ok(()));
    assert_eq!(c.add_match_results(m, player, player), Ok(()));
    assert_eq!(c.get_total_matches_by_address(player), Ok(1));
    assert_eq!(c.get_winning_matches_by_address(player), Ok(1));
}

#[test]
fn match_update_keeps_existing_name() {
    let mut c = PlayerInfoContract::new();
    let owner = addr(1, 1, 1);
    let m = addr(2, 2, 2);
    let winner = addr(10, 10, 10);
    let loser = addr(11, 11, 11);
    assert_eq!(c.init(owner), Ok(()));
    assert_eq!(c.set_matchmaking_contract(owner, m), Ok(()));
    assert_eq!(c.register_player(winner), Ok(()));
    assert_eq!(c.update_display_name(winner, "Champ".to_string()), Ok(()));
    assert_eq!(c.add_match_results(m, winner, loser), Ok(()));
    assert_eq!(c.get_display_name_by_address(winner), Ok("Champ".to_string()));
}

#[test]
fn name_overwrite() {
    let mut c = PlayerInfoContract::new();
    let player = addr(7, 7, 7);
    assert_eq!(c.register_player(player), Ok(()));
    assert_eq!(c.update_display_name(player, "Alice".to_string()), Ok(()));
    assert_eq!(c.get_display_name(player), Ok("Alice".to_string()));
}

#[test]
fn update_name_auto_registers_missing_player() {
    let mut c = PlayerInfoContract::new();
    let player = addr(7, 7, 7);
    assert_eq!(c.get_display_name(player), Err(RegistryError::PlayerNotFound));
    assert_eq!(c.update_display_name(player, "Bob".to_string()), Ok(()));
    assert_eq!(c.get_display_name(player), Ok("Bob".to_string()));
    assert_eq!(c.get_total_matches(player), Ok(0));
}

#[test]
fn reregistration_resets_name_to_default() {
    let mut c = PlayerInfoContract::new();
    let player = addr(7, 7, 7);
    assert_eq!(c.register_player(player), Ok(()));
    assert_eq!(c.update_display_name(player, "Alice".to_string()), Ok(()));
    assert_eq!(c.register_player(player), Ok(()));
    assert_eq!(c.get_display_name(player), Ok(alloy_of(&player).to_string()));
}

#[test]
fn reads_fail_for_missing_account() {
    let c = PlayerInfoContract::new();
    let ghost_account = addr(42, 42, 42);
    assert_eq!(c.get_display_name(ghost_account), Err(RegistryError::PlayerNotFound));
    assert_eq!(c.get_display_name_by_address(ghost_account), Err(RegistryError::PlayerNotFound));
    assert_eq!(c.get_total_matches(ghost_account), Err(RegistryError::PlayerNotFound));
    assert_eq!(c.get_total_matches_by_address(ghost_account), Err(RegistryError::PlayerNotFound));
    assert_eq!(c.get_winning_matches(ghost_account), Err(RegistryError::PlayerNotFound));
    assert_eq!(c.get_winning_matches_by_address(ghost_account), Err(RegistryError::PlayerNotFound));
    assert_eq!(c.get_total_predictions(ghost_account), Err(RegistryError::PlayerNotFound));
    assert_eq!(
        c.get_total_predictions_by_address(ghost_account),
        Err(RegistryError::PlayerNotFound)
    );
    assert_eq!(c.get_winning_predictions(ghost_account), Err(RegistryError::PlayerNotFound));
    assert_eq!(
        c.get_winning_predictions_by_address(ghost_account),
        Err(RegistryError::PlayerNotFound)
    );
}

#[test]
fn prediction_results_tally_wins_and_losses() {
    let mut c = PlayerInfoContract::new();
    let owner = addr(1, 1, 1);
    let p = addr(3, 3, 3);
    let player = addr(10, 10, 10);
    assert_eq!(c.init(owner), Ok(()));
    assert_eq!(c.set_prediction_contract(owner, p), Ok(()));
    assert_eq!(c.add_prediction_results(p, player, true), Ok(()));
    assert_eq!(c.add_prediction_results(p, player, false), Ok(()));
    assert_eq!(c.get_total_predictions_by_address(player), Ok(2));
    assert_eq!(c.get_winning_predictions_by_address(player), Ok(1));
    // The match counters were never touched.
    assert_eq!(c.get_total_matches_by_address(player), Ok(0));
}

#[test]
fn unauthorized_prediction_rejected() {
    let mut c = PlayerInfoContract::new();
    let owner = addr(1, 1, 1);
    let p = addr(3, 3, 3);
    let outsider = addr(4, 4, 4);
    let player = addr(10, 10, 10);
    assert_eq!(c.init(owner), Ok(()));
    assert_eq!(c.set_prediction_contract(owner, p), Ok(()));
    assert_eq!(c.add_prediction_results(outsider, player, true), Err(RegistryError::Unauthorized));
    assert_eq!(c.get_total_predictions_by_address(player), Err(RegistryError::PlayerNotFound));
}

#[test]
fn match_counter_overflow_aborts() {
    let mut c = PlayerInfoContract::new();
    let owner = addr(1, 1, 1);
    let m = addr(2, 2, 2);
    let saturated = addr(10, 10, 10);
    let other = addr(11, 11, 11);
    assert_eq!(c.init(owner), Ok(()));
    assert_eq!(c.set_matchmaking_contract(owner, m), Ok(()));
    c.load_record(saturated, record(true, "old hand", u64::MAX, u64::MAX, 0, 0));
    assert_eq!(c.add_match_results(m, saturated, other), Err(RegistryError::CounterOverflow));
    assert_eq!(c.add_match_results(m, other, saturated), Err(RegistryError::CounterOverflow));
    // Nothing changed on either path.
    assert_eq!(c.get_total_matches_by_address(saturated), Ok(u64::MAX));
    assert_eq!(c.get_total_matches_by_address(other), Err(RegistryError::PlayerNotFound));
}

#[test]
fn prediction_counter_overflow_aborts() {
    let mut c = PlayerInfoContract::new();
    let owner = addr(1, 1, 1);
    let p = addr(3, 3, 3);
    let saturated = addr(10, 10, 10);
    assert_eq!(c.init(owner), Ok(()));
    assert_eq!(c.set_prediction_contract(owner, p), Ok(()));
    c.load_record(saturated, record(true, "seer", 0, 0, u64::MAX, u64::MAX));
    assert_eq!(c.add_prediction_results(p, saturated, false), Err(RegistryError::CounterOverflow));
    assert_eq!(c.get_total_predictions_by_address(saturated), Ok(u64::MAX));
    // A lost prediction can still be counted once the winning counter alone
    // is saturated.
    c.load_record(saturated, record(true, "seer", 0, 1, u64::MAX, u64::MAX - 1));
    assert_eq!(c.add_prediction_results(p, saturated, true), Err(RegistryError::CounterOverflow));
    assert_eq!(c.add_prediction_results(p, saturated, false), Ok(()));
    assert_eq!(c.get_total_predictions_by_address(saturated), Ok(u64::MAX));
}

#[test]
fn winning_never_exceeds_total() {
    let mut c = PlayerInfoContract::new();
    let owner = addr(1, 1, 1);
    let m = addr(2, 2, 2);
    let p = addr(3, 3, 3);
    let a = addr(10, 10, 10);
    let b = addr(11, 11, 11);
    assert_eq!(c.init(owner), Ok(()));
    assert_eq!(c.set_matchmaking_contract(owner, m), Ok(()));
    assert_eq!(c.set_prediction_contract(owner, p), Ok(()));
    assert_eq!(c.add_match_results(m, a, b), Ok(()));
    assert_eq!(c.add_match_results(m, b, a), Ok(()));
    assert_eq!(c.add_match_results(m, a, b), Ok(()));
    assert_eq!(c.add_prediction_results(p, a, true), Ok(()));
    assert_eq!(c.add_prediction_results(p, a, false), Ok(()));
    for account in [a, b] {
        let total = c.get_total_matches_by_address(account).unwrap();
        let winning = c.get_winning_matches_by_address(account).unwrap();
        assert!(winning <= total);
        let total_p = c.get_total_predictions_by_address(account).unwrap();
        let winning_p = c.get_winning_predictions_by_address(account).unwrap();
        assert!(winning_p <= total_p);
    }
    assert_eq!(c.get_total_matches_by_address(a), Ok(3));
    assert_eq!(c.get_winning_matches_by_address(a), Ok(2));
    assert_eq!(c.get_total_matches_by_address(b), Ok(3));
    assert_eq!(c.get_winning_matches_by_address(b), Ok(1));
}

#[test]
fn load_and_read_back_record() {
    let mut c = PlayerInfoContract::new();
    let player = addr(10, 10, 10);
    c.load_record(player, record(true, "restored", 2, 5, 1, 4));
    assert_eq!(c.get_display_name_by_address(player), Ok("restored".to_string()));
    assert_eq!(c.get_winning_matches_by_address(player), Ok(2));
    assert_eq!(c.get_total_matches_by_address(player), Ok(5));
    assert_eq!(c.get_winning_predictions_by_address(player), Ok(1));
    assert_eq!(c.get_total_predictions_by_address(player), Ok(4));
    let snapshot = c.get_record(player);
    assert!(snapshot.exists);
    assert_eq!(snapshot.display_name, "restored");
    assert_eq!(snapshot.total_matches, 5);
}

#[test]
fn load_config_restores_configuration() {
    let mut c = PlayerInfoContract::new();
    let owner = addr(1, 1, 1);
    let m = addr(2, 2, 2);
    let p = addr(3, 3, 3);
    c.load_config(true, owner, m, p);
    assert!(c.get_initialized());
    assert_eq!(c.get_owner(), owner);
    assert_eq!(c.get_matchmaking_contract(), m);
    assert_eq!(c.get_prediction_contract(), p);
    assert_eq!(c.init(addr(4, 4, 4)), Err(RegistryError::AlreadyInitialized));
}

#[test]
fn error_messages_match_reasons() {
    assert_eq!(
        RegistryError::AlreadyInitialized.message(),
        "Contract has already been initialized"
    );
    assert_eq!(RegistryError::NotOwner.message(), "Only the owner can set contract addresses");
    assert_eq!(
        RegistryError::Unauthorized.message(),
        "Caller is not authorized to update results"
    );
    assert_eq!(RegistryError::PlayerNotFound.message(), "Player does not exist");
    assert_eq!(RegistryError::CounterOverflow.message(), "Counter overflow");
}
