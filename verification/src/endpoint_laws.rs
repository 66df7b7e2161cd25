//! What each endpoint does, stated over its inputs and results.

use vstd::prelude::*;

use crate::laws::{lemma_subscription_position, lemma_subscription_source};
use crate::state::{
    index_upto, lemma_index_upto, lemma_swap_removed, selected_upto, subscriptions_upto, trimmed,
    wallets_upto, ConfigState,
};
use crate::types::{DEFAULT_MAX_SUBSCRIBERS, DEFAULT_VALIDITY};
use crate::types::{
    Address, MainDAOProxy, Payment, PlatformError, State, Subscriber, VALIDITY_FOR_FRANCHISE,
};

verus! {

/// Whether a subscriber's subscription is still paid at `now`.
pub open spec fn paid_at(now: u64) -> spec_fn(Subscriber) -> bool {
    |x: Subscriber| x.validity > now
}

/// Adds the length of a whitelist to a running total.
pub open spec fn add_len() -> spec_fn(int, Seq<Address>) -> int {
    |total: int, w: Seq<Address>| total + w.len()
}

/// How many wallets all subscribers whitelisted together.
pub open spec fn total_whitelisted(s: ConfigState) -> int {
    s.whitelisted_addresses.fold_left(0int, add_len())
}

/// When `a` is at position `i` and nowhere before, the search finds `i`.
proof fn lemma_found_at(subs: Seq<Subscriber>, a: Address, i: int)
    requires
        0 <= i < subs.len(),
        subs[i].address == a,
        forall|j: int| 0 <= j < i ==> #[trigger] subs[j].address != a,
    ensures
        index_upto(subs, subs.len() as int, a) == Some(i),
{
    lemma_index_upto(subs, subs.len() as int, a);
}

/// The storage with different subscribers and whitelists only.
pub open spec fn same_settings(s: ConfigState, t: ConfigState) -> bool {
    t == ConfigState {
        subscribers: t.subscribers,
        whitelisted_addresses: t.whitelisted_addresses,
        ..s
    }
}

/// `subscribe` accepts exactly a payment of the fee, in the governance token,
/// from a caller that is no franchise, on an active platform, for a known
/// subscriber or with an identity for a new one. It forwards the payment, whole,
/// to the main DAO, and extends the caller's paid time by one period from its
/// end, or from now if it has lapsed (a new subscriber counts as lapsed). No
/// other subscriber and no whitelist changes.
pub proof fn lemma_subscribe_outcome(
    s: ConfigState,
    caller: Address,
    caller_is_franchise: bool,
    payment: Payment,
    identity_id: Option<u64>,
    now: u64,
)
    requires
        s.wf(),
    ensures
        ({
            let (t, r) = s.subscribe_step(caller, caller_is_franchise, payment, identity_id, now);
            let prev = match s.subscriber_index(caller) {
                Some(j) => s.subscribers[j].validity as int,
                None => 0,
            };
            let next = (if prev < now {
                now as int
            } else {
                prev
            }) + s.subscription_period;
            let accepted = {
                &&& s.state == State::Active
                &&& !caller_is_franchise
                &&& payment.token_identifier@ == s.governance_token
                &&& trimmed(payment.amount@) == trimmed(s.subscription_fee)
                &&& (s.subscriber_index(caller) is Some || identity_id is Some)
                &&& next <= u64::MAX
                &&& (s.subscriber_index(caller) is None ==> s.subscribers.len() < u64::MAX)
            };
            &&& (r is Ok <==> accepted)
            &&& r is Ok ==> {
                &&& r == Ok::<MainDAOProxy, PlatformError>(
                    MainDAOProxy::AddFunds { dao: s.main_dao.unwrap(), payment },
                )
                &&& same_settings(s, t)
                &&& t.subscriber_index(caller) is Some
                &&& {
                    let i = t.subscriber_index(caller).unwrap();
                    &&& t.subscribers[i].address == caller
                    &&& t.subscribers[i].validity == next
                    &&& t.subscribers[i].id == i
                    &&& (s.subscriber_index(caller) is Some ==> i == s.subscriber_index(
                        caller,
                    ).unwrap() && t.subscribers[i].identity_id == s.subscribers[i].identity_id
                        && t.subscribers.len() == s.subscribers.len())
                    &&& (s.subscriber_index(caller) is None ==> i == s.subscribers.len()
                        && t.subscribers[i].identity_id == identity_id.unwrap()
                        && t.subscribers.len() == s.subscribers.len() + 1
                        && t.whitelisted_addresses[i].len() == 0)
                    &&& forall|j: int|
                        0 <= j < s.subscribers.len() && j != i ==> #[trigger] t.subscribers[j]
                            == s.subscribers[j]
                    &&& forall|j: int|
                        0 <= j < s.subscribers.len() ==> #[trigger] t.whitelisted_addresses[j]
                            == s.whitelisted_addresses[j]
                }
            }
            &&& r is Err ==> t == s
        }),
{
    let (t, r) = s.subscribe_step(caller, caller_is_franchise, payment, identity_id, now);
    lemma_index_upto(s.subscribers, s.subscribers.len() as int, caller);
    if r is Ok {
        match s.subscriber_index(caller) {
            Some(i) => {
                assert forall|j: int| 0 <= j < i implies #[trigger] t.subscribers[j].address
                    != caller by {
                    assert(t.subscribers[j] == s.subscribers[j]);
                }
                lemma_found_at(t.subscribers, caller, i);
            },
            None => {
                let n = s.subscribers.len() as int;
                assert forall|j: int| 0 <= j < n implies #[trigger] t.subscribers[j].address
                    != caller by {
                    assert(t.subscribers[j] == s.subscribers[j]);
                }
                lemma_found_at(t.subscribers, caller, n);
            },
        }
    }
}

/// `whitelistAddress` succeeds exactly for a subscriber of an active platform
/// whose subscription is paid at `now` and whose whitelist is below the
/// maximum. Its whitelist then holds what it held and `address`, nothing else;
/// nothing else changes.
pub proof fn lemma_whitelist_outcome(s: ConfigState, caller: Address, address: Address, now: u64)
    requires
        s.wf(),
    ensures
        ({
            let (t, r) = s.whitelist_address_step(caller, address, now);
            let allowed = {
                &&& s.state == State::Active
                &&& s.subscriber_index(caller) is Some
                &&& s.subscribers[s.subscriber_index(caller).unwrap()].validity > now
                &&& s.whitelisted_addresses[s.subscriber_index(caller).unwrap()].len()
                    < s.max_subscriber_addresses
            };
            &&& (r == Ok::<(), PlatformError>(()) <==> allowed)
            &&& r is Ok ==> {
                let i = s.subscriber_index(caller).unwrap();
                &&& t.subscribers == s.subscribers
                &&& same_settings(s, t)
                &&& t.whitelisted_addresses.len() == s.whitelisted_addresses.len()
                &&& forall|x: Address|
                    #[trigger] t.whitelisted_addresses[i].contains(x) <==> (
                    s.whitelisted_addresses[i].contains(x) || x == address)
                &&& forall|j: int|
                    0 <= j < s.whitelisted_addresses.len() && j != i
                        ==> #[trigger] t.whitelisted_addresses[j] == s.whitelisted_addresses[j]
            }
            &&& r is Err ==> t == s
        }),
{
    let (t, r) = s.whitelist_address_step(caller, address, now);
    lemma_index_upto(s.subscribers, s.subscribers.len() as int, caller);
    if r is Ok {
        let i = s.subscriber_index(caller).unwrap();
        let w = s.whitelisted_addresses[i];
        assert forall|x: Address| #[trigger] t.whitelisted_addresses[i].contains(x) <==> (
        w.contains(x) || x == address) by {
            if !w.contains(address) {
                let p = w.push(address);
                if x == address {
                    assert(p[w.len() as int] == address);
                }
                if p.contains(x) {
                    let k = choose|k: int| 0 <= k < p.len() && p[k] == x;
                    if k < w.len() {
                        assert(w[k] == x);
                    }
                }
                if w.contains(x) {
                    let k = choose|k: int| 0 <= k < w.len() && w[k] == x;
                    assert(p[k] == x);
                }
            }
        }
    }
}

/// `removeAddress` succeeds exactly for a subscriber of an active platform. Its
/// whitelist then holds what it held except `address`; nothing else changes.
pub proof fn lemma_remove_outcome(s: ConfigState, caller: Address, address: Address)
    requires
        s.wf(),
    ensures
        ({
            let (t, r) = s.remove_address_step(caller, address);
            &&& (r == Ok::<(), PlatformError>(()) <==> (s.state == State::Active
                && s.subscriber_index(caller) is Some))
            &&& r is Ok ==> {
                let i = s.subscriber_index(caller).unwrap();
                &&& t.subscribers == s.subscribers
                &&& same_settings(s, t)
                &&& t.whitelisted_addresses.len() == s.whitelisted_addresses.len()
                &&& forall|x: Address|
                    #[trigger] t.whitelisted_addresses[i].contains(x) <==> (
                    s.whitelisted_addresses[i].contains(x) && x != address)
                &&& forall|j: int|
                    0 <= j < s.whitelisted_addresses.len() && j != i
                        ==> #[trigger] t.whitelisted_addresses[j] == s.whitelisted_addresses[j]
            }
            &&& r is Err ==> t == s
        }),
{
    let (t, r) = s.remove_address_step(caller, address);
    lemma_index_upto(s.subscribers, s.subscribers.len() as int, caller);
    if r is Ok {
        let i = s.subscriber_index(caller).unwrap();
        lemma_swap_removed(s.whitelisted_addresses[i], address);
    }
}

/// `changeDetails` succeeds exactly for a subscriber of an active platform, and
/// changes the identity of the caller's own record and nothing else.
pub proof fn lemma_change_details_outcome(s: ConfigState, caller: Address, identity_id: u64)
    requires
        s.wf(),
    ensures
        ({
            let (t, r) = s.change_details_step(caller, identity_id);
            &&& (r == Ok::<(), PlatformError>(()) <==> (s.state == State::Active
                && s.subscriber_index(caller) is Some))
            &&& r is Ok ==> {
                let i = s.subscriber_index(caller).unwrap();
                &&& s.subscribers[i].address == caller
                &&& t.subscribers.len() == s.subscribers.len()
                &&& t.subscribers[i] == Subscriber { identity_id, ..s.subscribers[i] }
                &&& forall|j: int|
                    0 <= j < s.subscribers.len() && j != i ==> #[trigger] t.subscribers[j]
                        == s.subscribers[j]
                &&& t.whitelisted_addresses == s.whitelisted_addresses
                &&& same_settings(s, t)
            }
            &&& r is Err ==> t == s
        }),
{
    lemma_index_upto(s.subscribers, s.subscribers.len() as int, caller);
}

/// `subscribeFranchise` succeeds exactly when the launchpad calls it on an
/// active platform for an address that is not yet a subscriber (and the new
/// id and validity fit). The franchise becomes the next subscriber, paid for a
/// fixed period from now, with an empty whitelist; nothing else changes.
pub proof fn lemma_subscribe_franchise_outcome(
    s: ConfigState,
    caller: Address,
    launchpad: Address,
    franchise_address: Address,
    identity_id: u64,
    now: u64,
)
    requires
        s.wf(),
    ensures
        ({
            let (t, r) = s.subscribe_franchise_step(
                caller,
                launchpad,
                franchise_address,
                identity_id,
                now,
            );
            let n = s.subscribers.len() as int;
            &&& (r == Ok::<(), PlatformError>(()) <==> {
                &&& s.state == State::Active
                &&& caller == launchpad
                &&& s.subscriber_index(franchise_address) is None
                &&& n < u64::MAX
                &&& now + VALIDITY_FOR_FRANCHISE <= u64::MAX
            })
            &&& r is Ok ==> {
                &&& t.subscribers.len() == n + 1
                &&& t.subscribers[n] == Subscriber {
                    id: n as u64,
                    address: franchise_address,
                    identity_id,
                    launchpad_sc: Address::null(),
                    dex_sc: Address::null(),
                    staking_sc: Address::null(),
                    nft_marketplace_sc: Address::null(),
                    validity: (now + VALIDITY_FOR_FRANCHISE) as u64,
                }
                &&& t.subscriber_index(franchise_address) == Some(n)
                &&& t.whitelisted_addresses[n].len() == 0
                &&& forall|j: int| 0 <= j < n ==> #[trigger] t.subscribers[j] == s.subscribers[j]
                &&& forall|j: int|
                    0 <= j < n ==> #[trigger] t.whitelisted_addresses[j]
                        == s.whitelisted_addresses[j]
                &&& same_settings(s, t)
            }
            &&& r is Err ==> t == s
        }),
{
    let (t, r) = s.subscribe_franchise_step(
        caller,
        launchpad,
        franchise_address,
        identity_id,
        now,
    );
    let n = s.subscribers.len() as int;
    lemma_index_upto(s.subscribers, n, franchise_address);
    if r is Ok {
        assert forall|j: int| 0 <= j < n implies #[trigger] t.subscribers[j].address
            != franchise_address by {
            assert(t.subscribers[j] == s.subscribers[j]);
        }
        lemma_found_at(t.subscribers, franchise_address, n);
    }
}

proof fn lemma_selected_is_filter(subs: Seq<Subscriber>, n: int, now: u64)
    requires
        0 <= n <= subs.len(),
    ensures
        selected_upto(subs, n, now, true) == subs.take(n).filter(paid_at(now)),
    decreases n,
{
    let p = paid_at(now);
    reveal(Seq::filter);
    if n > 0 {
        lemma_selected_is_filter(subs, n - 1, now);
        let t = subs.take(n);
        assert(t.drop_last() =~= subs.take(n - 1));
        assert(t.last() == subs[n - 1]);
        assert(p(subs[n - 1]) == (subs[n - 1].validity > now));
        assert(t.filter(p) == if p(t.last()) {
            t.drop_last().filter(p).push(t.last())
        } else {
            t.drop_last().filter(p)
        });
    } else {
        assert(subs.take(0) =~= Seq::<Subscriber>::empty());
    }
}

/// The active listing of `getAllSubscribers` (whose length `getSubscribersCount`
/// reports) is exactly the subscribers whose subscription is paid at `now`, in
/// id order: each of them is listed and nobody else.
pub proof fn lemma_active_listing(s: ConfigState, now: u64)
    ensures
        s.listed_subscribers(now, true) == s.subscribers.filter(paid_at(now)),
        forall|i: int|
            0 <= i < s.subscribers.len() && #[trigger] s.subscribers[i].validity > now
                ==> s.listed_subscribers(now, true).contains(s.subscribers[i]),
        forall|k: int|
            0 <= k < s.listed_subscribers(now, true).len() ==> #[trigger] s.listed_subscribers(
                now,
                true,
            )[k].validity > now,
{
    lemma_selected_is_filter(s.subscribers, s.subscribers.len() as int, now);
    assert(s.subscribers.take(s.subscribers.len() as int) =~= s.subscribers);
    broadcast use vstd::seq_lib::group_filter_ensures;
    assert forall|i: int|
        0 <= i < s.subscribers.len() && #[trigger] s.subscribers[i].validity > now implies s.listed_subscribers(
        now,
        true,
    ).contains(s.subscribers[i]) by {
        s.subscribers.lemma_filter_contains(paid_at(now), i);
    }
    assert forall|k: int| 0 <= k < s.listed_subscribers(now, true).len() implies #[trigger] s.listed_subscribers(
        now,
        true,
    )[k].validity > now by {
        s.subscribers.lemma_filter_pred(paid_at(now), k);
    }
}

proof fn lemma_wallets_all_upto(s: ConfigState, n: int, now: u64)
    requires
        s.wf(),
        0 <= n <= s.subscribers.len(),
    ensures
        wallets_upto(s.subscribers, s.whitelisted_addresses, n, now, false) == n
            + s.whitelisted_addresses.take(n).fold_left(0int, add_len()),
    decreases n,
{
    if n > 0 {
        lemma_wallets_all_upto(s, n - 1, now);
        assert(s.whitelisted_addresses.take(n).drop_last() =~= s.whitelisted_addresses.take(
            n - 1,
        ));
        assert(s.whitelisted_addresses.take(n).last() == s.whitelisted_addresses[n - 1]);
    }
}

/// `getWhitelistedWalletsCount(false)` counts every subscriber's own wallet and
/// every wallet it whitelisted: the number of subscribers plus the lengths of
/// all whitelists.
pub proof fn lemma_all_wallets_count(s: ConfigState, now: u64)
    requires
        s.wf(),
    ensures
        s.wallets_count(now, false) == s.subscribers.len() + total_whitelisted(s),
{
    lemma_wallets_all_upto(s, s.subscribers.len() as int, now);
    assert(s.whitelisted_addresses.take(s.subscribers.len() as int) =~= s.whitelisted_addresses);
}

/// A new subscriber, who has whitelisted nobody, adds exactly one wallet to the
/// count of all wallets; whitelisting a new wallet adds exactly one too.
pub proof fn lemma_wallet_count_steps(
    s: ConfigState,
    caller: Address,
    payment: Payment,
    identity_id: Option<u64>,
    address: Address,
    now: u64,
    later: u64,
)
    requires
        s.wf(),
    ensures
        ({
            let (t, r) = s.subscribe_step(caller, false, payment, identity_id, now);
            r is Ok && s.subscriber_index(caller) is None ==> t.wallets_count(later, false)
                == s.wallets_count(later, false) + 1
        }),
        ({
            let (t, r) = s.whitelist_address_step(caller, address, now);
            r is Ok && !s.whitelisted_addresses[s.subscriber_index(caller).unwrap()].contains(
                address,
            ) ==> t.wallets_count(later, false) == s.wallets_count(later, false) + 1
        }),
{
    lemma_all_wallets_count(s, later);
    let (t, r) = s.subscribe_step(caller, false, payment, identity_id, now);
    if r is Ok && s.subscriber_index(caller) is None {
        crate::laws::lemma_every_call_keeps_invariant(
            s,
            crate::laws::Call::Subscribe {
                caller,
                caller_is_franchise: false,
                payment,
                identity_id,
                now,
            },
        );
        lemma_all_wallets_count(t, later);
        assert(t.whitelisted_addresses.drop_last() =~= s.whitelisted_addresses);
    }
    let (u, q) = s.whitelist_address_step(caller, address, now);
    if q is Ok {
        let i = s.subscriber_index(caller).unwrap();
        if !s.whitelisted_addresses[i].contains(address) {
            crate::laws::lemma_every_call_keeps_invariant(
                s,
                crate::laws::Call::WhitelistAddress { caller, address, now },
            );
            lemma_all_wallets_count(u, later);
            lemma_index_upto(s.subscribers, s.subscribers.len() as int, caller);
            lemma_fold_update(s.whitelisted_addresses, i, s.whitelisted_addresses[i].push(address));
        }
    }
}

/// Replacing one whitelist changes the total by the difference in length.
proof fn lemma_fold_update(lists: Seq<Seq<Address>>, i: int, w: Seq<Address>)
    requires
        0 <= i < lists.len(),
    ensures
        lists.update(i, w).fold_left(0int, add_len()) == lists.fold_left(0int, add_len())
            + w.len() - lists[i].len(),
    decreases lists.len(),
{
    let u = lists.update(i, w);
    if i == lists.len() - 1 {
        assert(u.drop_last() =~= lists.drop_last());
    } else {
        lemma_fold_update(lists.drop_last(), i, w);
        assert(u.drop_last() =~= lists.drop_last().update(i, w));
    }
}

/// Adds up a sequence of numbers.
pub open spec fn plus() -> spec_fn(int, int) -> int {
    |total: int, x: int| total + x
}

/// What each subscriber adds to the wallet count: its own wallet and the ones
/// it whitelisted when it is counted, nothing otherwise.
pub open spec fn wallet_shares(s: ConfigState, now: u64, only_active: bool) -> Seq<int> {
    Seq::new(
        s.subscribers.len(),
        |i: int|
            if !only_active || s.subscribers[i].validity > now {
                s.whitelisted_addresses[i].len() + 1int
            } else {
                0int
            },
    )
}

proof fn lemma_wallet_shares_upto(s: ConfigState, n: int, now: u64, only_active: bool)
    requires
        s.wf(),
        0 <= n <= s.subscribers.len(),
    ensures
        wallets_upto(s.subscribers, s.whitelisted_addresses, n, now, only_active) == wallet_shares(
            s,
            now,
            only_active,
        ).take(n).fold_left(0int, plus()),
    decreases n,
{
    let w = wallet_shares(s, now, only_active);
    if n > 0 {
        lemma_wallet_shares_upto(s, n - 1, now, only_active);
        assert(w.take(n).drop_last() =~= w.take(n - 1));
        assert(w.take(n).last() == w[n - 1]);
    }
}

/// `getWhitelistedWalletsCount` (and the wallet counts of `getContractInfo`)
/// add up, over the subscribers counted, each one's whitelist length plus one
/// for its own wallet; active-only counts skip lapsed subscribers.
pub proof fn lemma_wallets_count_shares(s: ConfigState, now: u64, only_active: bool)
    requires
        s.wf(),
    ensures
        s.wallets_count(now, only_active) == wallet_shares(s, now, only_active).fold_left(
            0int,
            plus(),
        ),
{
    lemma_wallet_shares_upto(s, s.subscribers.len() as int, now, only_active);
    let w = wallet_shares(s, now, only_active);
    assert(w.take(s.subscribers.len() as int) =~= w);
}

proof fn lemma_subscriptions_ordered(s: ConfigState, n: int, a: Address)
    requires
        s.wf(),
        0 <= n <= s.subscribers.len(),
    ensures
        forall|k: int|
            0 <= k < subscriptions_upto(s.subscribers, s.whitelisted_addresses, n, a).len()
                ==> #[trigger] subscriptions_upto(s.subscribers, s.whitelisted_addresses, n, a)[k].id
                < n,
        forall|k1: int, k2: int|
            0 <= k1 < k2 < subscriptions_upto(s.subscribers, s.whitelisted_addresses, n, a).len()
                ==> #[trigger] subscriptions_upto(s.subscribers, s.whitelisted_addresses, n, a)[k1].id
                < #[trigger] subscriptions_upto(s.subscribers, s.whitelisted_addresses, n, a)[k2].id,
    decreases n,
{
    if n > 0 {
        lemma_subscriptions_ordered(s, n - 1, a);
        let rest = subscriptions_upto(s.subscribers, s.whitelisted_addresses, n - 1, a);
        let all = subscriptions_upto(s.subscribers, s.whitelisted_addresses, n, a);
        if s.whitelisted_addresses[n - 1].contains(a) {
            assert(all == rest.push(s.subscribers[n - 1]));
            assert(s.subscribers[n - 1].id == n - 1);
            assert forall|k1: int, k2: int| 0 <= k1 < k2 < all.len() implies #[trigger] all[k1].id
                < #[trigger] all[k2].id by {
                assert(all[k1] == rest[k1]);
                if k2 < rest.len() {
                    assert(all[k2] == rest[k2]);
                }
            }
            assert forall|k: int| 0 <= k < all.len() implies #[trigger] all[k].id < n by {
                if k < rest.len() {
                    assert(all[k] == rest[k]);
                }
            }
        }
    }
}

/// The subscriptions that `getAddressDetails` reports for `a` are exactly the
/// subscribers whose whitelist holds `a`, each once, in id order.
pub proof fn lemma_subscriptions_of(s: ConfigState, a: Address)
    requires
        s.wf(),
    ensures
        forall|k: int|
            0 <= k < s.subscriptions(a).len() ==> s.whitelisted_addresses[#[trigger] s.subscriptions(
                a,
            )[k].id as int].contains(a) && s.subscriptions(a)[k] == s.subscribers[s.subscriptions(
                a,
            )[k].id as int],
        forall|i: int|
            0 <= i < s.subscribers.len() && #[trigger] s.whitelisted_addresses[i].contains(a)
                ==> s.subscriptions(a).contains(s.subscribers[i]),
        forall|k1: int, k2: int|
            0 <= k1 < k2 < s.subscriptions(a).len() ==> #[trigger] s.subscriptions(a)[k1].id
                < #[trigger] s.subscriptions(a)[k2].id,
{
    let n = s.subscribers.len() as int;
    lemma_subscriptions_ordered(s, n, a);
    assert forall|k: int| 0 <= k < s.subscriptions(a).len() implies s.whitelisted_addresses[
    #[trigger] s.subscriptions(a)[k].id as int].contains(a) && s.subscriptions(a)[k]
        == s.subscribers[s.subscriptions(a)[k].id as int] by {
        let i = lemma_subscription_source(s.subscribers, s.whitelisted_addresses, n, a, k);
        assert(s.subscribers[i].id == i);
    }
    assert forall|i: int|
        0 <= i < s.subscribers.len() && #[trigger] s.whitelisted_addresses[i].contains(
            a,
        ) implies s.subscriptions(a).contains(s.subscribers[i]) by {
        let k = lemma_subscription_position(s.subscribers, s.whitelisted_addresses, n, a, i);
    }
}

/// `getWhitelistedAddresses` gives a subscriber's whitelist as stored, and no
/// wallets for an id that no subscriber has.
pub proof fn lemma_whitelist_view(s: ConfigState, id: u64)
    ensures
        id < s.subscribers.len() ==> s.whitelist_of(id) == s.whitelisted_addresses[id as int],
        id >= s.subscribers.len() ==> s.whitelist_of(id).len() == 0,
{
}

/// A new platform is inactive, knows no DAO, token, identity or fee, has no
/// subscribers, and uses the default period and whitelist size.
pub proof fn lemma_initial(l: Address, d: Address, st: Address, m: Address)
    ensures
        ({
            let s = ConfigState::initial(l, d, st, m);
            &&& s.wf()
            &&& s.state == State::Inactive
            &&& s.main_dao is None
            &&& s.digital_identity is None
            &&& s.governance_token.len() == 0
            &&& s.subscription_fee.len() == 0
            &&& s.subscribers.len() == 0
            &&& s.subscription_period == DEFAULT_VALIDITY
            &&& s.max_subscriber_addresses == DEFAULT_MAX_SUBSCRIBERS
            &&& s.template_test_launchpad == l && s.template_test_dex == d
            &&& s.template_test_staking == st && s.template_nft_marketplace == m
        }),
{
}

/// The owner's settings: made by the owner, each stores exactly the value given
/// and changes nothing else; `setStateActive` needs the main DAO.
pub proof fn lemma_owner_settings(
    s: ConfigState,
    owner: Address,
    fee: Seq<u8>,
    period: u64,
    l: Address,
    d: Address,
    st: Address,
    m: Address,
)
    ensures
        ({
            let (t, r) = s.set_subscription_fee_step(owner, owner, fee);
            r is Ok && t.subscription_fee == fee && t == (ConfigState { subscription_fee: fee, ..s })
        }),
        ({
            let (t, r) = s.set_subscription_period_step(owner, owner, period);
            r is Ok && t == (ConfigState { subscription_period: period, ..s })
        }),
        ({
            let (t, r) = s.set_template_addresses_step(owner, owner, l, d, st, m);
            r is Ok && t == (ConfigState {
                template_test_launchpad: l,
                template_test_dex: d,
                template_test_staking: st,
                template_nft_marketplace: m,
                ..s
            })
        }),
        ({
            let (t, r) = s.set_state_inactive_step(owner, owner);
            r is Ok && t == (ConfigState { state: State::Inactive, ..s })
        }),
        ({
            let (t, r) = s.set_state_active_step(owner, owner);
            &&& (r is Ok <==> s.main_dao is Some)
            &&& r is Ok ==> t == (ConfigState { state: State::Active, ..s })
            &&& r is Err ==> t == s && r == Err::<(), PlatformError>(PlatformError::DaoNotSet)
        }),
{
}

/// The first address given as the digital identity is kept; later ones are
/// ignored.
pub proof fn lemma_digital_identity(s: ConfigState, a: Address, b: Address)
    requires
        s.digital_identity is None,
    ensures
        s.set_digital_identity_step(a).digital_identity == Some(a),
        s.set_digital_identity_step(a).set_digital_identity_step(b) == s.set_digital_identity_step(
            a,
        ),
        s.set_digital_identity_step(a) == (ConfigState { digital_identity: Some(a), ..s }),
{
}

} // verus!
