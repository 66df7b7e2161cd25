//! What holds of the platform across its endpoints.

use vstd::prelude::*;

use crate::state::{
    index_upto, inserted, lemma_active_within_all, lemma_index_upto, lemma_position_upto,
    lemma_swap_removed, own_record_upto, position, renewed, selected_upto, subscriptions_upto,
    swap_removed, ConfigState,
};
use crate::types::{
    Address, MainDAOProxy, Payment, PlatformError, State, Subscriber, VALIDITY_FOR_FRANCHISE,
};

verus! {

/// Each endpoint and setting of the platform, with the arguments of one call.
#[allow(inconsistent_fields)]
pub enum Call {
    SetStateActive { caller: Address, owner: Address },
    SetStateInactive { caller: Address, owner: Address },
    SetMainDao { caller: Address },
    ReceiveGovernanceToken { token: Seq<u8> },
    SetDigitalIdentity { address: Address },
    SetTemplateAddresses {
        caller: Address,
        owner: Address,
        template_test_launchpad: Address,
        template_test_dex: Address,
        template_test_staking: Address,
        template_nft_marketplace: Address,
    },
    SetSubscriptionFee { caller: Address, owner: Address, fee: Seq<u8> },
    SetSubscriptionPeriod { caller: Address, owner: Address, period: u64 },
    Subscribe {
        caller: Address,
        caller_is_franchise: bool,
        payment: Payment,
        identity_id: Option<u64>,
        now: u64,
    },
    ChangeDetails { caller: Address, identity_id: u64 },
    SubscribeFranchise {
        caller: Address,
        launchpad: Address,
        franchise_address: Address,
        identity_id: u64,
        now: u64,
    },
    WhitelistAddress { caller: Address, address: Address, now: u64 },
    RemoveAddress { caller: Address, address: Address },
}

/// The storage after `call`, and whether the call was refused.
pub open spec fn apply(s: ConfigState, call: Call) -> (ConfigState, bool) {
    match call {
        Call::SetStateActive { caller, owner } => {
            let (t, r) = s.set_state_active_step(caller, owner);
            (t, r is Err)
        },
        Call::SetStateInactive { caller, owner } => {
            let (t, r) = s.set_state_inactive_step(caller, owner);
            (t, r is Err)
        },
        Call::SetMainDao { caller } => (s.set_main_dao_step(caller).0, false),
        Call::ReceiveGovernanceToken { token } => (s.receive_governance_token_step(token), false),
        Call::SetDigitalIdentity { address } => (s.set_digital_identity_step(address), false),
        Call::SetTemplateAddresses {
            caller,
            owner,
            template_test_launchpad,
            template_test_dex,
            template_test_staking,
            template_nft_marketplace,
        } => {
            let (t, r) = s.set_template_addresses_step(
                caller,
                owner,
                template_test_launchpad,
                template_test_dex,
                template_test_staking,
                template_nft_marketplace,
            );
            (t, r is Err)
        },
        Call::SetSubscriptionFee { caller, owner, fee } => {
            let (t, r) = s.set_subscription_fee_step(caller, owner, fee);
            (t, r is Err)
        },
        Call::SetSubscriptionPeriod { caller, owner, period } => {
            let (t, r) = s.set_subscription_period_step(caller, owner, period);
            (t, r is Err)
        },
        Call::Subscribe { caller, caller_is_franchise, payment, identity_id, now } => {
            let (t, r) = s.subscribe_step(caller, caller_is_franchise, payment, identity_id, now);
            (t, r is Err)
        },
        Call::ChangeDetails { caller, identity_id } => {
            let (t, r) = s.change_details_step(caller, identity_id);
            (t, r is Err)
        },
        Call::SubscribeFranchise { caller, launchpad, franchise_address, identity_id, now } => {
            let (t, r) = s.subscribe_franchise_step(
                caller,
                launchpad,
                franchise_address,
                identity_id,
                now,
            );
            (t, r is Err)
        },
        Call::WhitelistAddress { caller, address, now } => {
            let (t, r) = s.whitelist_address_step(caller, address, now);
            (t, r is Err)
        },
        Call::RemoveAddress { caller, address } => {
            let (t, r) = s.remove_address_step(caller, address);
            (t, r is Err)
        },
    }
}

/// What no call takes back: subscribers keep their ids, addresses and paid
/// time, the main DAO, its governance token and the digital identity stay once
/// set, and the allowed whitelist size does not change.
pub open spec fn history_kept(pre: ConfigState, post: ConfigState) -> bool {
    &&& pre.subscribers.len() <= post.subscribers.len()
    &&& forall|i: int|
        0 <= i < pre.subscribers.len() ==> {
            &&& (#[trigger] post.subscribers[i]).id == pre.subscribers[i].id
            &&& post.subscribers[i].address == pre.subscribers[i].address
            &&& post.subscribers[i].validity >= pre.subscribers[i].validity
        }
    &&& pre.main_dao is Some ==> post.main_dao == pre.main_dao
    &&& pre.governance_token.len() > 0 ==> post.governance_token == pre.governance_token
    &&& pre.digital_identity is Some ==> post.digital_identity == pre.digital_identity
    &&& post.max_subscriber_addresses == pre.max_subscriber_addresses
}

/// Whether `call` is reserved to the owner and made by someone else.
pub open spec fn foreign_owner_call(call: Call) -> bool {
    match call {
        Call::SetStateActive { caller, owner } => caller != owner,
        Call::SetStateInactive { caller, owner } => caller != owner,
        Call::SetTemplateAddresses { caller, owner, .. } => caller != owner,
        Call::SetSubscriptionFee { caller, owner, .. } => caller != owner,
        Call::SetSubscriptionPeriod { caller, owner, .. } => caller != owner,
        _ => false,
    }
}

proof fn lemma_new_subscriber_keeps_wf(s: ConfigState, address: Address, identity_id: u64, validity: u64)
    requires
        s.wf(),
        s.subscriber_index(address) is None,
        s.subscribers.len() < u64::MAX,
    ensures
        s.with_new_subscriber(address, identity_id, validity).wf(),
        history_kept(s, s.with_new_subscriber(address, identity_id, validity)),
{
    lemma_index_upto(s.subscribers, s.subscribers.len() as int, address);
    let t = s.with_new_subscriber(address, identity_id, validity);
    assert forall|i: int, j: int| 0 <= i < j < t.subscribers.len() implies #[trigger] t.subscribers[i].address
        != #[trigger] t.subscribers[j].address by {
        if j == s.subscribers.len() {
            assert(s.subscribers[i].address != address);
        } else {
            assert(t.subscribers[i] == s.subscribers[i]);
            assert(t.subscribers[j] == s.subscribers[j]);
        }
    }
    assert forall|i: int| 0 <= i < t.whitelisted_addresses.len() implies (
    #[trigger] t.whitelisted_addresses[i]).no_duplicates()
        && t.whitelisted_addresses[i].len() <= t.max_subscriber_addresses by {
        if i < s.whitelisted_addresses.len() {
            assert(t.whitelisted_addresses[i] == s.whitelisted_addresses[i]);
        }
    }
}

proof fn lemma_subscriber_update_keeps_wf(s: ConfigState, i: int, sub: Subscriber)
    requires
        s.wf(),
        0 <= i < s.subscribers.len(),
        sub.id == s.subscribers[i].id,
        sub.address == s.subscribers[i].address,
        sub.validity >= s.subscribers[i].validity,
    ensures
        (ConfigState { subscribers: s.subscribers.update(i, sub), ..s }).wf(),
        history_kept(s, ConfigState { subscribers: s.subscribers.update(i, sub), ..s }),
{
    let t = ConfigState { subscribers: s.subscribers.update(i, sub), ..s };
    assert forall|a: int, b: int| 0 <= a < b < t.subscribers.len() implies #[trigger] t.subscribers[a].address
        != #[trigger] t.subscribers[b].address by {
        assert(t.subscribers[a].address == s.subscribers[a].address);
        assert(t.subscribers[b].address == s.subscribers[b].address);
    }
}

proof fn lemma_whitelist_update_keeps_wf(s: ConfigState, i: int, w: Seq<Address>)
    requires
        s.wf(),
        0 <= i < s.subscribers.len(),
        w.no_duplicates(),
        w.len() <= s.max_subscriber_addresses,
    ensures
        (ConfigState { whitelisted_addresses: s.whitelisted_addresses.update(i, w), ..s }).wf(),
        history_kept(
            s,
            ConfigState { whitelisted_addresses: s.whitelisted_addresses.update(i, w), ..s },
        ),
{
}

proof fn lemma_inserted_is_set(w: Seq<Address>, a: Address)
    requires
        w.no_duplicates(),
    ensures
        inserted(w, a).no_duplicates(),
        inserted(w, a).contains(a),
        inserted(w, a).len() <= w.len() + 1,
{
    if !w.contains(a) {
        let t = w.push(a);
        assert forall|x: int, y: int| 0 <= x < y < t.len() implies t[x] != t[y] by {
            if y == w.len() {
                assert(w[x] != a);
            }
        }
        assert(t[w.len() as int] == a);
    }
}

/// Every call keeps the storage invariant: subscribers numbered by position,
/// distinct subscriber addresses, whitelists that are sets of at most the
/// allowed size, and an active platform only with a main DAO.
pub proof fn lemma_every_call_keeps_invariant(s: ConfigState, call: Call)
    requires
        s.wf(),
    ensures
        apply(s, call).0.wf(),
        history_kept(s, apply(s, call).0),
{
    match call {
        Call::Subscribe { caller, caller_is_franchise, payment, identity_id, now } => {
            let (t, r) = s.subscribe_step(caller, caller_is_franchise, payment, identity_id, now);
            if r is Ok {
                lemma_index_upto(s.subscribers, s.subscribers.len() as int, caller);
                match s.subscriber_index(caller) {
                    Some(i) => {
                        let sub = s.subscribers[i];
                        let v = renewed(sub.validity, now, s.subscription_period);
                        lemma_subscriber_update_keeps_wf(s, i, Subscriber { validity: v as u64, ..sub });
                    },
                    None => {
                        let v = renewed(0, now, s.subscription_period);
                        lemma_new_subscriber_keeps_wf(s, caller, identity_id.unwrap(), v as u64);
                    },
                }
            }
        },
        Call::ChangeDetails { caller, identity_id } => {
            if s.state == State::Active && s.subscriber_index(caller) is Some {
                lemma_index_upto(s.subscribers, s.subscribers.len() as int, caller);
                let i = s.subscriber_index(caller).unwrap();
                lemma_subscriber_update_keeps_wf(
                    s,
                    i,
                    Subscriber { identity_id, ..s.subscribers[i] },
                );
            }
        },
        Call::SubscribeFranchise { caller, launchpad, franchise_address, identity_id, now } => {
            let (t, r) = s.subscribe_franchise_step(
                caller,
                launchpad,
                franchise_address,
                identity_id,
                now,
            );
            if r is Ok {
                lemma_new_subscriber_keeps_wf(
                    s,
                    franchise_address,
                    identity_id,
                    (now + VALIDITY_FOR_FRANCHISE) as u64,
                );
            }
        },
        Call::WhitelistAddress { caller, address, now } => {
            let (t, r) = s.whitelist_address_step(caller, address, now);
            if r is Ok {
                lemma_index_upto(s.subscribers, s.subscribers.len() as int, caller);
                let i = s.subscriber_index(caller).unwrap();
                lemma_inserted_is_set(s.whitelisted_addresses[i], address);
                lemma_whitelist_update_keeps_wf(s, i, inserted(s.whitelisted_addresses[i], address));
            }
        },
        Call::RemoveAddress { caller, address } => {
            let (t, r) = s.remove_address_step(caller, address);
            if r is Ok {
                lemma_index_upto(s.subscribers, s.subscribers.len() as int, caller);
                let i = s.subscriber_index(caller).unwrap();
                lemma_swap_removed(s.whitelisted_addresses[i], address);
                lemma_whitelist_update_keeps_wf(
                    s,
                    i,
                    swap_removed(s.whitelisted_addresses[i], address),
                );
            }
        },
        _ => {},
    }
}

/// A refused call leaves the storage exactly as it was.
pub proof fn lemma_refused_call_changes_nothing(s: ConfigState, call: Call)
    ensures
        apply(s, call).1 ==> apply(s, call).0 == s,
{
}

/// A call reserved to the owner and made by anyone else is refused with
/// `OnlyOwner`, and changes nothing.
pub proof fn lemma_only_owner_configures(s: ConfigState, call: Call)
    requires
        foreign_owner_call(call),
    ensures
        apply(s, call).1,
        apply(s, call).0 == s,
{
}

/// Paying for a subscription grants the payer access right away, for as long as
/// one period lasts; the payment is handed, whole, to the main DAO.
pub proof fn lemma_subscriber_has_access(
    s: ConfigState,
    caller: Address,
    payment: Payment,
    identity_id: Option<u64>,
    now: u64,
)
    requires
        s.wf(),
        s.subscribe_step(caller, false, payment, identity_id, now).1 is Ok,
        s.subscription_period > 0,
    ensures
        ({
            let t = s.subscribe_step(caller, false, payment, identity_id, now).0;
            let i = t.subscriber_index(caller).unwrap();
            &&& t.subscriber_index(caller) is Some
            &&& t.subscribers[i].validity >= now + s.subscription_period
            &&& t.whitelisted_at(caller, now)
        }),
        s.subscribe_step(caller, false, payment, identity_id, now).1 == Ok::<_, PlatformError>(
            MainDAOProxy::AddFunds { dao: s.main_dao.unwrap(), payment },
        ),
{
    let t = s.subscribe_step(caller, false, payment, identity_id, now).0;
    lemma_index_upto(s.subscribers, s.subscribers.len() as int, caller);
    match s.subscriber_index(caller) {
        Some(i) => {
            assert(t.subscribers[i].address == caller);
            lemma_index_upto(t.subscribers, t.subscribers.len() as int, caller);
            assert(t.subscriber_index(caller) == Some(i)) by {
                if t.subscriber_index(caller) != Some(i) {
                    let k = t.subscriber_index(caller).unwrap();
                    assert(k < i);
                    assert(t.subscribers[k] == s.subscribers[k]);
                }
            }
        },
        None => {
            let n = s.subscribers.len() as int;
            assert(t.subscribers[n].address == caller);
            lemma_index_upto(t.subscribers, t.subscribers.len() as int, caller);
            assert(t.subscriber_index(caller) == Some(n)) by {
                if t.subscriber_index(caller) != Some(n) {
                    let k = t.subscriber_index(caller).unwrap();
                    assert(k < n);
                    assert(t.subscribers[k] == s.subscribers[k]);
                }
            }
        },
    }
    let i = t.subscriber_index(caller).unwrap();
    assert(t.subscribers[i].validity > now);
}

/// A wallet that a paid-up subscriber whitelists has access at once.
pub proof fn lemma_whitelisted_wallet_has_access(s: ConfigState, caller: Address, address: Address, now: u64)
    requires
        s.wf(),
        s.whitelist_address_step(caller, address, now).1 is Ok,
    ensures
        s.whitelist_address_step(caller, address, now).0.whitelisted_at(address, now),
{
    let t = s.whitelist_address_step(caller, address, now).0;
    lemma_index_upto(s.subscribers, s.subscribers.len() as int, caller);
    let i = s.subscriber_index(caller).unwrap();
    lemma_inserted_is_set(s.whitelisted_addresses[i], address);
    assert(t.whitelisted_addresses[i].contains(address));
    assert(t.subscribers[i].validity > now);
}

/// Removing a wallet takes it off the subscriber's whitelist.
pub proof fn lemma_removed_wallet_is_gone(s: ConfigState, caller: Address, address: Address)
    requires
        s.wf(),
        s.remove_address_step(caller, address).1 is Ok,
    ensures
        ({
            let t = s.remove_address_step(caller, address).0;
            let id = s.subscriber_index(caller).unwrap();
            !t.whitelisted_addresses[id].contains(address)
        }),
{
    lemma_index_upto(s.subscribers, s.subscribers.len() as int, caller);
    let i = s.subscriber_index(caller).unwrap();
    lemma_swap_removed(s.whitelisted_addresses[i], address);
}

/// Whitelisting a wallet that was not on the list and then removing it gives
/// back the storage exactly as it was, order of the list included.
pub proof fn lemma_whitelist_then_remove(s: ConfigState, caller: Address, address: Address, now: u64)
    requires
        s.wf(),
        s.whitelist_address_step(caller, address, now).1 is Ok,
        !s.whitelisted_addresses[s.subscriber_index(caller).unwrap()].contains(address),
    ensures
        s.whitelist_address_step(caller, address, now).0.remove_address_step(caller, address)
            == (s, Ok::<(), PlatformError>(())),
{
    let t = s.whitelist_address_step(caller, address, now).0;
    lemma_index_upto(s.subscribers, s.subscribers.len() as int, caller);
    let i = s.subscriber_index(caller).unwrap();
    let w = s.whitelisted_addresses[i];
    assert(t.subscribers == s.subscribers);
    assert(t.subscriber_index(caller) == Some(i));
    let wp = w.push(address);
    assert(t.whitelisted_addresses[i] == wp);
    lemma_position_upto(wp, wp.len() as int, address);
    assert(position(wp, address) == w.len()) by {
        let k = position(wp, address);
        if k != w.len() {
            assert(k != -1) by {
                assert(wp[w.len() as int] == address);
            }
            assert(w[k] == address);
        }
    }
    assert(swap_removed(wp, address) =~= w);
    assert(t.whitelisted_addresses.update(i, w) =~= s.whitelisted_addresses);
}

/// Of the counts that `getContractInfo` reports: all subscribers are counted
/// when not restricted to active ones, and the active counts never exceed the
/// full ones.
pub proof fn lemma_contract_info_counts(s: ConfigState, now: u64)
    ensures
        s.listed_subscribers(now, false).len() == s.subscribers.len(),
        s.listed_subscribers(now, true).len() <= s.listed_subscribers(now, false).len(),
        s.wallets_count(now, true) <= s.wallets_count(now, false),
{
    lemma_active_within_all(
        s.subscribers,
        s.whitelisted_addresses,
        s.subscribers.len() as int,
        now,
    );
}


/// With distinct addresses, the last record with address `a` is the one that
/// the first-match search finds.
proof fn lemma_own_record_is_indexed(subs: Seq<Subscriber>, n: int, a: Address)
    requires
        0 <= n <= subs.len(),
        forall|i: int, j: int|
            0 <= i < j < subs.len() ==> #[trigger] subs[i].address != #[trigger] subs[j].address,
    ensures
        own_record_upto(subs, n, a) == match index_upto(subs, n, a) {
            Some(i) => Some(subs[i]),
            None => None,
        },
    decreases n,
{
    if n > 0 {
        lemma_own_record_is_indexed(subs, n - 1, a);
        lemma_index_upto(subs, n - 1, a);
        if subs[n - 1].address == a {
            if let Some(i) = index_upto(subs, n - 1, a) {
                assert(subs[i].address != subs[n - 1].address);
            }
        }
    }
}

/// The subscriber listed at position `k` among those that whitelisted `a`,
/// and its id.
pub(crate) proof fn lemma_subscription_source(
    subs: Seq<Subscriber>,
    lists: Seq<Seq<Address>>,
    n: int,
    a: Address,
    k: int,
) -> (i: int)
    requires
        0 <= n <= subs.len(),
        n <= lists.len(),
        0 <= k < subscriptions_upto(subs, lists, n, a).len(),
    ensures
        0 <= i < n,
        lists[i].contains(a),
        subscriptions_upto(subs, lists, n, a)[k] == subs[i],
    decreases n,
{
    let rest = subscriptions_upto(subs, lists, n - 1, a);
    if lists[n - 1].contains(a) && k == rest.len() {
        n - 1
    } else {
        lemma_subscription_source(subs, lists, n - 1, a, k)
    }
}

/// Where a subscriber that whitelisted `a` is listed among those that did.
pub(crate) proof fn lemma_subscription_position(
    subs: Seq<Subscriber>,
    lists: Seq<Seq<Address>>,
    n: int,
    a: Address,
    i: int,
) -> (k: int)
    requires
        0 <= i < n <= subs.len(),
        n <= lists.len(),
        lists[i].contains(a),
    ensures
        0 <= k < subscriptions_upto(subs, lists, n, a).len(),
        subscriptions_upto(subs, lists, n, a)[k] == subs[i],
    decreases n,
{
    let rest = subscriptions_upto(subs, lists, n - 1, a);
    if i == n - 1 {
        rest.len() as int
    } else {
        let k = lemma_subscription_position(subs, lists, n - 1, a, i);
        if lists[n - 1].contains(a) {
            assert(subscriptions_upto(subs, lists, n, a) == rest.push(subs[n - 1]));
        }
        k
    }
}

/// The access check agrees with `getAddressDetails`: an address has access
/// exactly when its own subscription, or one of the subscriptions that
/// whitelisted it, is still paid.
pub proof fn lemma_access_matches_details(s: ConfigState, a: Address, now: u64)
    requires
        s.wf(),
    ensures
        s.own_record(a) == match s.subscriber_index(a) {
            Some(i) => Some(s.subscribers[i]),
            None => None,
        },
        s.whitelisted_at(a, now) <==> ((s.own_record(a) is Some && s.own_record(a).unwrap().validity
            > now) || exists|k: int|
            0 <= k < s.subscriptions(a).len() && #[trigger] s.subscriptions(a)[k].validity > now),
{
    let n = s.subscribers.len() as int;
    lemma_own_record_is_indexed(s.subscribers, n, a);
    lemma_index_upto(s.subscribers, n, a);
    let subs = s.subscriptions(a);
    if s.whitelisted_at(a, now) {
        let i = choose|i: int|
            0 <= i < n && (s.subscribers[i].address == a || s.whitelisted_addresses[i].contains(a))
                && #[trigger] s.subscribers[i].validity > now;
        if s.subscribers[i].address == a {
            let j = s.subscriber_index(a).unwrap();
            if j != i {
                if j < i {
                    assert(s.subscribers[j].address != s.subscribers[i].address);
                } else {
                    assert(s.subscribers[i].address != s.subscribers[j].address);
                }
            }
        } else {
            let k = lemma_subscription_position(s.subscribers, s.whitelisted_addresses, n, a, i);
            assert(subs[k].validity > now);
        }
    }
    if s.own_record(a) is Some && s.own_record(a).unwrap().validity > now {
        let i = s.subscriber_index(a).unwrap();
        assert(s.subscribers[i].validity > now);
    }
    if exists|k: int| 0 <= k < subs.len() && #[trigger] subs[k].validity > now {
        let k = choose|k: int| 0 <= k < subs.len() && #[trigger] subs[k].validity > now;
        let i = lemma_subscription_source(s.subscribers, s.whitelisted_addresses, n, a, k);
        assert(s.subscribers[i].validity > now);
    }
}

/// Without the restriction to active subscribers, `getAllSubscribers` lists
/// every subscriber, in id order.
pub proof fn lemma_all_subscribers_listed(s: ConfigState, now: u64)
    ensures
        s.listed_subscribers(now, false) == s.subscribers,
{
    lemma_selected_all(s.subscribers, s.subscribers.len() as int, now);
    assert(s.subscribers.take(s.subscribers.len() as int) =~= s.subscribers);
}

proof fn lemma_selected_all(subs: Seq<Subscriber>, n: int, now: u64)
    requires
        0 <= n <= subs.len(),
    ensures
        selected_upto(subs, n, now, false) == subs.take(n),
    decreases n,
{
    if n > 0 {
        lemma_selected_all(subs, n - 1, now);
        assert(subs.take(n - 1).push(subs[n - 1]) =~= subs.take(n));
    }
}

/// The first DAO to call `setMainDAO` becomes the main DAO, and the governance
/// token it answers with is the one stored; later answers change nothing.
pub proof fn lemma_main_dao_sets_token(s: ConfigState, caller: Address, token: Seq<u8>, later: Seq<u8>)
    requires
        s.wf(),
        s.main_dao is None,
        token.len() > 0,
    ensures
        s.set_main_dao_step(caller).1 == Some(MainDAOProxy::GovernanceToken { dao: caller }),
        ({
            let t = s.set_main_dao_step(caller).0.receive_governance_token_step(token);
            &&& t.main_dao == Some(caller)
            &&& t.governance_token == token
            &&& t.receive_governance_token_step(later) == t
        }),
{
}

} // verus!
