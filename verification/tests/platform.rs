use tfn_platform::{
    Address, HelpersModule, StudentLookup, MainDAOProxy, Payment, PlatformError, State, TFNPlatformContract,
    DEFAULT_MAX_SUBSCRIBERS, DEFAULT_VALIDITY, VALIDITY_FOR_FRANCHISE,
};

fn addr(n: u8) -> Address {
    Address::new([n; 32])
}

const OWNER: u8 = 1;
const DAO: u8 = 2;
const LAUNCHPAD: u8 = 3;

fn token() -> Vec<u8> {
    b"TFN-a1b2c3".to_vec()
}

fn fee() -> Vec<u8> {
    vec![0x01, 0x00]
}

fn payment() -> Payment {
    Payment { token_identifier: token(), token_nonce: 0, amount: fee() }
}

fn deployed() -> TFNPlatformContract {
    TFNPlatformContract::init(addr(10), addr(11), addr(12), addr(13))
}

/// A platform with its DAO, token and fee set, and open.
fn open_platform() -> TFNPlatformContract {
    let mut p = deployed();
    assert_eq!(p.config.set_main_dao(&addr(DAO)), Some(MainDAOProxy::GovernanceToken { dao: addr(DAO) }));
    p.config.receive_governance_token(token());
    assert_eq!(p.config.set_subscription_fee(&addr(OWNER), &addr(OWNER), fee()), Ok(()));
    assert_eq!(p.config.set_state_active(&addr(OWNER), &addr(OWNER)), Ok(()));
    p
}

#[test]
fn init_sets_defaults() {
    let p = deployed();
    assert_eq!(p.config.state, State::Inactive);
    assert_eq!(p.config.subscription_period, DEFAULT_VALIDITY);
    assert_eq!(p.config.max_subscriber_addresses, DEFAULT_MAX_SUBSCRIBERS);
    assert_eq!(p.config.template_test_launchpad, addr(10));
    assert_eq!(p.config.template_test_dex, addr(11));
    assert_eq!(p.config.template_test_staking, addr(12));
    assert_eq!(p.config.template_nft_marketplace, addr(13));
    assert!(p.config.main_dao.is_none());
    assert!(p.config.governance_token.is_empty());
    assert!(p.config.subscribers.is_empty());
}

#[test]
fn activation_needs_owner_and_dao() {
    let mut p = deployed();
    assert_eq!(p.config.set_state_active(&addr(5), &addr(OWNER)), Err(PlatformError::OnlyOwner));
    assert_eq!(p.config.set_state_active(&addr(OWNER), &addr(OWNER)), Err(PlatformError::DaoNotSet));
    assert_eq!(p.config.state, State::Inactive);
    p.config.set_main_dao(&addr(DAO));
    assert_eq!(p.config.set_state_active(&addr(OWNER), &addr(OWNER)), Ok(()));
    assert_eq!(p.config.state, State::Active);
    assert_eq!(p.config.set_state_inactive(&addr(5), &addr(OWNER)), Err(PlatformError::OnlyOwner));
    assert_eq!(p.config.state, State::Active);
    assert_eq!(p.config.set_state_inactive(&addr(OWNER), &addr(OWNER)), Ok(()));
    assert_eq!(p.config.state, State::Inactive);
}

#[test]
fn main_dao_and_identity_are_set_once() {
    let mut p = deployed();
    assert_eq!(p.config.set_main_dao(&addr(DAO)), Some(MainDAOProxy::GovernanceToken { dao: addr(DAO) }));
    assert_eq!(p.config.set_main_dao(&addr(9)), None);
    assert_eq!(p.config.main_dao, Some(addr(DAO)));
    p.config.set_digital_identity(&addr(20));
    p.config.set_digital_identity(&addr(21));
    assert_eq!(p.config.digital_identity, Some(addr(20)));
}

#[test]
fn owner_settings() {
    let mut p = deployed();
    assert_eq!(
        p.config.set_template_addresses(&addr(5), &addr(OWNER), addr(30), addr(31), addr(32), addr(33)),
        Err(PlatformError::OnlyOwner)
    );
    assert_eq!(p.config.template_test_dex, addr(11));
    assert_eq!(
        p.config.set_template_addresses(&addr(OWNER), &addr(OWNER), addr(30), addr(31), addr(32), addr(33)),
        Ok(())
    );
    assert_eq!(p.config.template_test_launchpad, addr(30));
    assert_eq!(p.config.template_nft_marketplace, addr(33));
    assert_eq!(p.config.set_subscription_period(&addr(5), &addr(OWNER), 7), Err(PlatformError::OnlyOwner));
    assert_eq!(p.config.set_subscription_period(&addr(OWNER), &addr(OWNER), 7), Ok(()));
    assert_eq!(p.config.subscription_period, 7);
    assert_eq!(p.config.set_subscription_fee(&addr(5), &addr(OWNER), vec![9]), Err(PlatformError::OnlyOwner));
    assert_eq!(p.config.set_subscription_fee(&addr(OWNER), &addr(OWNER), vec![9]), Ok(()));
    assert_eq!(p.config.subscription_fee, vec![9]);
}

#[test]
fn subscribe_refusals() {
    let mut p = deployed();
    p.config.set_main_dao(&addr(DAO));
    p.config.receive_governance_token(token());
    p.config.set_subscription_fee(&addr(OWNER), &addr(OWNER), fee()).unwrap();
    assert_eq!(p.subscribe(&addr(50), false, payment(), Some(7), 100), Err(PlatformError::StateInactive));
    p.config.set_state_active(&addr(OWNER), &addr(OWNER)).unwrap();
    assert_eq!(p.subscribe(&addr(50), true, payment(), Some(7), 100), Err(PlatformError::NotAllowed));
    let wrong_token = Payment { token_identifier: b"OTHER-000000".to_vec(), ..payment() };
    assert_eq!(p.subscribe(&addr(50), false, wrong_token, Some(7), 100), Err(PlatformError::WrongPaymentToken));
    let wrong_amount = Payment { amount: vec![0x02], ..payment() };
    assert_eq!(p.subscribe(&addr(50), false, wrong_amount, Some(7), 100), Err(PlatformError::WrongPaymentAmount));
    assert_eq!(p.subscribe(&addr(50), false, payment(), None, 100), Err(PlatformError::NoDetails));
    assert!(p.config.subscribers.is_empty());
}

#[test]
fn first_subscription_creates_subscriber_and_forwards_payment() {
    let mut p = open_platform();
    let r = p.subscribe(&addr(50), false, payment(), Some(7), 1_000);
    assert_eq!(r, Ok(MainDAOProxy::AddFunds { dao: addr(DAO), payment: payment() }));
    assert_eq!(p.config.subscribers.len(), 1);
    let s = p.config.subscribers[0];
    assert_eq!(s.id, 0);
    assert_eq!(s.address, addr(50));
    assert_eq!(s.identity_id, 7);
    assert_eq!(s.validity, 1_000 + DEFAULT_VALIDITY);
    assert_eq!(s.launchpad_sc, Address::zero());
    assert_eq!(p.config.get_subscriber_id_by_address(&addr(50)), Some(0));
    assert_eq!(p.config.get_subscriber_id_by_address(&addr(51)), None);
}

#[test]
fn renewal_extends_from_end_or_from_now() {
    let mut p = open_platform();
    p.subscribe(&addr(50), false, payment(), Some(7), 1_000).unwrap();
    // Renewed while still paid: the period is added to the paid time.
    p.subscribe(&addr(50), false, payment(), None, 2_000).unwrap();
    assert_eq!(p.config.subscribers[0].validity, 1_000 + 2 * DEFAULT_VALIDITY);
    // Renewed after expiry: the period counts from now.
    let later = 1_000 + 5 * DEFAULT_VALIDITY;
    p.subscribe(&addr(50), false, payment(), Some(9), later).unwrap();
    assert_eq!(p.config.subscribers[0].validity, later + DEFAULT_VALIDITY);
    // The identity given on renewal is ignored.
    assert_eq!(p.config.subscribers[0].identity_id, 7);
    assert_eq!(p.config.subscribers.len(), 1);
}

#[test]
fn subscription_that_would_overflow_is_refused() {
    let mut p = open_platform();
    p.config.set_subscription_period(&addr(OWNER), &addr(OWNER), u64::MAX).unwrap();
    assert_eq!(p.subscribe(&addr(50), false, payment(), Some(7), 1), Err(PlatformError::Overflow));
    assert!(p.config.subscribers.is_empty());
}

#[test]
fn change_details_updates_identity() {
    let mut p = open_platform();
    assert_eq!(p.change_details(&addr(50), 3), Err(PlatformError::NotSubscribed));
    p.subscribe(&addr(50), false, payment(), Some(7), 1_000).unwrap();
    assert_eq!(p.change_details(&addr(50), 3), Ok(()));
    assert_eq!(p.config.subscribers[0].identity_id, 3);
    p.config.set_state_inactive(&addr(OWNER), &addr(OWNER)).unwrap();
    assert_eq!(p.change_details(&addr(50), 4), Err(PlatformError::StateInactive));
    assert_eq!(p.config.subscribers[0].identity_id, 3);
}

#[test]
fn franchise_subscription() {
    let mut p = open_platform();
    assert_eq!(
        p.subscribe_franchise(&addr(60), &addr(LAUNCHPAD), &addr(70), 5, 100),
        Err(PlatformError::OnlyLaunchpad)
    );
    assert_eq!(p.subscribe_franchise(&addr(LAUNCHPAD), &addr(LAUNCHPAD), &addr(70), 5, 100), Ok(()));
    let s = p.config.subscribers[0];
    assert_eq!(s.address, addr(70));
    assert_eq!(s.identity_id, 5);
    assert_eq!(s.validity, 100 + VALIDITY_FOR_FRANCHISE);
    assert_eq!(
        p.subscribe_franchise(&addr(LAUNCHPAD), &addr(LAUNCHPAD), &addr(70), 6, 200),
        Err(PlatformError::AlreadySubscribed)
    );
    assert_eq!(
        p.subscribe_franchise(&addr(LAUNCHPAD), &addr(LAUNCHPAD), &addr(71), 6, u64::MAX),
        Err(PlatformError::Overflow)
    );
    assert_eq!(p.config.subscribers.len(), 1);
}

#[test]
fn whitelisting_rules() {
    let mut p = open_platform();
    assert_eq!(p.whitelist_address(&addr(50), &addr(80), 1_000), Err(PlatformError::NotSubscribed));
    p.subscribe(&addr(50), false, payment(), Some(7), 1_000).unwrap();
    let end = 1_000 + DEFAULT_VALIDITY;
    assert_eq!(p.whitelist_address(&addr(50), &addr(80), end), Err(PlatformError::SubscriptionExpired));
    assert_eq!(p.whitelist_address(&addr(50), &addr(80), 1_000), Ok(()));
    // Whitelisting twice keeps one entry.
    assert_eq!(p.whitelist_address(&addr(50), &addr(80), 1_000), Ok(()));
    assert_eq!(p.config.get_whitelisted_addresses(0), vec![addr(80)]);
    for k in 1..DEFAULT_MAX_SUBSCRIBERS {
        assert_eq!(p.whitelist_address(&addr(50), &addr(80 + k as u8), 1_000), Ok(()));
    }
    assert_eq!(p.config.get_whitelisted_addresses(0).len(), DEFAULT_MAX_SUBSCRIBERS);
    assert_eq!(p.whitelist_address(&addr(50), &addr(200), 1_000), Err(PlatformError::TooManyAddresses));
    assert_eq!(p.config.get_whitelisted_addresses(7), Vec::<Address>::new());
}

#[test]
fn remove_address_moves_last_into_place() {
    let mut p = open_platform();
    assert_eq!(p.remove_address(&addr(50), &addr(80)), Err(PlatformError::NotSubscribed));
    p.subscribe(&addr(50), false, payment(), Some(7), 1_000).unwrap();
    for k in 0..4u8 {
        p.whitelist_address(&addr(50), &addr(80 + k), 1_000).unwrap();
    }
    assert_eq!(p.remove_address(&addr(50), &addr(81)), Ok(()));
    assert_eq!(p.config.get_whitelisted_addresses(0), vec![addr(80), addr(83), addr(82)]);
    // Removing a wallet that is not there changes nothing.
    assert_eq!(p.remove_address(&addr(50), &addr(99)), Ok(()));
    assert_eq!(p.config.get_whitelisted_addresses(0), vec![addr(80), addr(83), addr(82)]);
}

#[test]
fn whitelist_then_remove_restores_list() {
    let mut p = open_platform();
    p.subscribe(&addr(50), false, payment(), Some(7), 1_000).unwrap();
    p.whitelist_address(&addr(50), &addr(80), 1_000).unwrap();
    p.whitelist_address(&addr(50), &addr(81), 1_000).unwrap();
    let before = p.config.get_whitelisted_addresses(0);
    p.whitelist_address(&addr(50), &addr(82), 1_000).unwrap();
    p.remove_address(&addr(50), &addr(82)).unwrap();
    assert_eq!(p.config.get_whitelisted_addresses(0), before);
}

#[test]
fn access_checks() {
    let mut p = open_platform();
    p.subscribe(&addr(50), false, payment(), Some(7), 1_000).unwrap();
    p.whitelist_address(&addr(50), &addr(80), 1_000).unwrap();
    let end = 1_000 + DEFAULT_VALIDITY;
    assert_eq!(p.config.check_whitelisted(&addr(50), 1_000), Ok(()));
    assert_eq!(p.config.check_whitelisted(&addr(80), end - 1), Ok(()));
    assert_eq!(p.config.check_whitelisted(&addr(81), 1_000), Err(PlatformError::NotWhitelisted));
    assert_eq!(p.config.check_whitelisted(&addr(50), end), Err(PlatformError::NotWhitelisted));
    assert_eq!(p.config.check_whitelisted(&addr(80), end), Err(PlatformError::NotWhitelisted));
    p.remove_address(&addr(50), &addr(80)).unwrap();
    assert_eq!(p.config.check_whitelisted(&addr(80), 1_000), Err(PlatformError::NotWhitelisted));
}

#[test]
fn counts_and_listings() {
    let mut p = open_platform();
    p.subscribe(&addr(50), false, payment(), Some(7), 1_000).unwrap();
    p.subscribe(&addr(51), false, payment(), Some(8), 1_000 + DEFAULT_VALIDITY).unwrap();
    p.whitelist_address(&addr(50), &addr(80), 1_000).unwrap();
    p.whitelist_address(&addr(50), &addr(81), 1_000).unwrap();
    p.whitelist_address(&addr(51), &addr(80), 1_000 + DEFAULT_VALIDITY).unwrap();
    let now = 1_000 + DEFAULT_VALIDITY;
    assert_eq!(p.config.get_subscribers_count(now, false), 2);
    assert_eq!(p.config.get_subscribers_count(now, true), 1);
    assert_eq!(p.config.get_whitelisted_wallets_count(now, false), 5);
    assert_eq!(p.config.get_whitelisted_wallets_count(now, true), 2);
    let all = p.config.get_all_subscribers(now, false);
    assert_eq!(all.iter().map(|s| s.id).collect::<Vec<_>>(), vec![0, 1]);
    let active = p.config.get_all_subscribers(now, true);
    assert_eq!(active.iter().map(|s| s.address).collect::<Vec<_>>(), vec![addr(51)]);
    let info = p.config.get_contract_info(now);
    assert_eq!(info.state, State::Active);
    assert_eq!(info.governance_token, token());
    assert_eq!(info.subscription_fee, fee());
    assert_eq!(info.subscription_period, DEFAULT_VALIDITY);
    assert_eq!(info.max_subscriber_addresses, DEFAULT_MAX_SUBSCRIBERS);
    assert_eq!(info.subscribers_count, 2);
    assert_eq!(info.active_subscribers_count, 1);
    assert_eq!(info.whitelisted_wallets_count, 5);
    assert_eq!(info.active_whitelisted_wallets_count, 2);
}

#[test]
fn address_details() {
    let mut p = open_platform();
    p.subscribe(&addr(50), false, payment(), Some(7), 1_000).unwrap();
    p.subscribe(&addr(51), false, payment(), Some(8), 1_000).unwrap();
    p.whitelist_address(&addr(50), &addr(51), 1_000).unwrap();
    p.whitelist_address(&addr(51), &addr(80), 1_000).unwrap();
    p.whitelist_address(&addr(50), &addr(80), 1_000).unwrap();
    let (own, subs) = p.config.get_address_details(&addr(80));
    assert!(own.is_none());
    assert_eq!(subs.iter().map(|s| s.id).collect::<Vec<_>>(), vec![0, 1]);
    let (own, subs) = p.config.get_address_details(&addr(51));
    assert_eq!(own.map(|s| s.id), Some(1));
    assert_eq!(subs.iter().map(|s| s.id).collect::<Vec<_>>(), vec![0]);
    let (own, subs) = p.config.get_address_details(&addr(99));
    assert!(own.is_none());
    assert!(subs.is_empty());
}

#[test]
fn refused_calls_change_nothing() {
    let mut p = open_platform();
    p.subscribe(&addr(50), false, payment(), Some(7), 1_000).unwrap();
    let before = p.config.subscribers.clone();
    let lists = p.config.whitelisted_addresses.clone();
    assert!(p.subscribe(&addr(50), false, Payment { amount: vec![], ..payment() }, None, 2_000).is_err());
    assert!(p.whitelist_address(&addr(52), &addr(80), 1_000).is_err());
    assert!(p.subscribe_franchise(&addr(9), &addr(LAUNCHPAD), &addr(90), 1, 1).is_err());
    assert_eq!(p.config.subscribers, before);
    assert_eq!(p.config.whitelisted_addresses, lists);
}

#[test]
fn subscribing_grants_access() {
    let mut p = open_platform();
    assert_eq!(p.config.check_whitelisted(&addr(55), 5_000), Err(PlatformError::NotWhitelisted));
    p.subscribe(&addr(55), false, payment(), Some(1), 5_000).unwrap();
    assert_eq!(p.config.check_whitelisted(&addr(55), 5_000), Ok(()));
}

#[test]
fn address_equality_is_bytewise() {
    let mut bytes = [7u8; 32];
    assert_eq!(Address::new(bytes), Address::new(bytes));
    bytes[31] = 8;
    assert_ne!(Address::new(bytes), addr(7));
    assert_eq!(Address::zero(), Address::new([0u8; 32]));
}

#[test]
fn prechecks_follow_state() {
    let mut p = deployed();
    assert_eq!(p.subscribe_precheck(), Err(PlatformError::StateInactive));
    assert_eq!(p.subscribe_franchise_precheck(), Err(PlatformError::StateInactive));
    p.config.set_main_dao(&addr(DAO));
    p.config.set_state_active(&addr(OWNER), &addr(OWNER)).unwrap();
    assert_eq!(p.subscribe_precheck(), Ok(()));
    assert_eq!(p.subscribe_franchise_precheck(), Ok(()));
}

#[test]
fn amount_with_leading_zeros_is_the_fee() {
    let mut p = open_platform();
    let padded = Payment { amount: vec![0, 0, 0x01, 0x00], ..payment() };
    let r = p.subscribe(&addr(50), false, padded.clone(), Some(7), 1_000);
    assert_eq!(r, Ok(MainDAOProxy::AddFunds { dao: addr(DAO), payment: padded }));
    let zero_fee = Payment { amount: vec![0], ..payment() };
    assert_eq!(p.subscribe(&addr(50), false, zero_fee, None, 1_000), Err(PlatformError::WrongPaymentAmount));
    p.config.set_subscription_fee(&addr(OWNER), &addr(OWNER), vec![]).unwrap();
    let zero = Payment { amount: vec![0, 0], ..payment() };
    assert!(p.subscribe(&addr(51), false, zero, Some(2), 1_000).is_ok());
}

#[test]
fn well_formedness_check() {
    let mut p = open_platform();
    assert!(p.config.is_well_formed());
    p.subscribe(&addr(50), false, payment(), Some(7), 1_000).unwrap();
    p.subscribe(&addr(51), false, payment(), Some(7), 1_000).unwrap();
    p.whitelist_address(&addr(50), &addr(80), 1_000).unwrap();
    assert!(p.config.is_well_formed());
    let mut same_address = p.config.subscribers.clone();
    same_address[1].address = addr(50);
    let mut broken = tfn_platform::ConfigModule { subscribers: same_address, ..p.config };
    assert!(!broken.is_well_formed());
    broken.subscribers[1].address = addr(51);
    assert!(broken.is_well_formed());
    broken.whitelisted_addresses[0].push(addr(80));
    assert!(!broken.is_well_formed());
    broken.whitelisted_addresses[0].pop();
    broken.subscribers[0].id = 5;
    assert!(!broken.is_well_formed());
    broken.subscribers[0].id = 0;
    broken.whitelisted_addresses.pop();
    assert!(!broken.is_well_formed());
}

#[test]
fn paid_time_never_shrinks() {
    let mut p = open_platform();
    p.subscribe(&addr(50), false, payment(), Some(7), 1_000).unwrap();
    let v0 = p.config.subscribers[0].validity;
    p.change_details(&addr(50), 4).unwrap();
    p.whitelist_address(&addr(50), &addr(80), 1_000).unwrap();
    p.config.set_subscription_period(&addr(OWNER), &addr(OWNER), 0).unwrap();
    p.subscribe(&addr(50), false, payment(), None, 2_000).unwrap();
    assert_eq!(p.config.subscribers[0].validity, v0);
    p.subscribe_franchise(&addr(LAUNCHPAD), &addr(LAUNCHPAD), &addr(70), 1, 5).unwrap();
    assert_eq!(p.config.subscribers[0].validity, v0);
    assert_eq!(p.config.subscribers[0].address, addr(50));
    assert_eq!(p.config.subscribers[1].id, 1);
}

#[test]
fn access_check_agrees_with_details() {
    let mut p = open_platform();
    p.subscribe(&addr(50), false, payment(), Some(7), 1_000).unwrap();
    p.subscribe(&addr(51), false, payment(), Some(8), 1_000 + DEFAULT_VALIDITY).unwrap();
    p.whitelist_address(&addr(50), &addr(80), 1_000).unwrap();
    p.whitelist_address(&addr(51), &addr(81), 1_000 + DEFAULT_VALIDITY).unwrap();
    for now in [1_000, 1_000 + DEFAULT_VALIDITY, 1_000 + 3 * DEFAULT_VALIDITY] {
        for a in [addr(50), addr(51), addr(80), addr(81), addr(99)] {
            let (own, subs) = p.config.get_address_details(&a);
            let active = own.map_or(false, |s| s.validity > now) || subs.iter().any(|s| s.validity > now);
            assert_eq!(p.config.check_whitelisted(&a, now).is_ok(), active);
        }
    }
}

#[test]
fn governance_token_only_answers_set_main_dao() {
    let mut p = deployed();
    p.config.receive_governance_token(token());
    assert!(p.config.governance_token.is_empty());
    p.config.set_main_dao(&addr(DAO));
    p.config.receive_governance_token(token());
    assert_eq!(p.config.governance_token, token());
    p.config.receive_governance_token(b"OTHER-000000".to_vec());
    assert_eq!(p.config.governance_token, token());
    assert!(p.config.is_well_formed());
}

#[test]
fn franchise_helpers() {
    let franchises = vec![addr(70), addr(71)];
    assert!(HelpersModule::is_franchise(&franchises, &addr(71)));
    assert!(!HelpersModule::is_franchise(&franchises, &addr(72)));
    assert!(!HelpersModule::is_franchise(&Vec::new(), &addr(70)));
    assert_eq!(HelpersModule::student_lookup(true), StudentLookup::ByAddress);
    assert_eq!(HelpersModule::student_lookup(false), StudentLookup::ByWallet);
}
