//! The platform's storage seen as a mathematical value, and each endpoint as a
//! transition of it.

use vstd::prelude::*;

use crate::types::{
    Address, MainDAOProxy, Payment, PlatformError, State, Subscriber, DEFAULT_MAX_SUBSCRIBERS,
    DEFAULT_VALIDITY, VALIDITY_FOR_FRANCHISE,
};

verus! {

/// What the platform stores. An empty storage entry for a token identifier or
/// an amount is the empty byte string; an address is either set or not.
pub struct ConfigState {
    pub state: State,
    pub governance_token: Seq<u8>,
    pub main_dao: Option<Address>,
    pub digital_identity: Option<Address>,
    pub template_test_launchpad: Address,
    pub template_test_dex: Address,
    pub template_test_staking: Address,
    pub template_nft_marketplace: Address,
    pub subscription_fee: Seq<u8>,
    pub subscription_period: u64,
    pub max_subscriber_addresses: usize,
    /// `subscribers[id]` is the subscriber with that id.
    pub subscribers: Seq<Subscriber>,
    /// `whitelisted_addresses[id]` is the set of wallets that subscriber `id`
    /// whitelisted, in the order in which the chain keeps them.
    pub whitelisted_addresses: Seq<Seq<Address>>,
}

/// Whether a subscriber counts in a view that may be restricted to active ones.
pub open spec fn is_counted(s: Subscriber, now: u64, only_active: bool) -> bool {
    !only_active || s.validity > now
}

/// The first of the first `n` subscribers whose address is `a`.
pub open spec fn index_upto(subs: Seq<Subscriber>, n: int, a: Address) -> Option<int>
    decreases n,
{
    if n <= 0 {
        None
    } else {
        match index_upto(subs, n - 1, a) {
            Some(i) => Some(i),
            None => if subs[n - 1].address == a {
                Some(n - 1)
            } else {
                None
            },
        }
    }
}

/// The first `n` subscribers that are counted, in id order.
pub open spec fn selected_upto(subs: Seq<Subscriber>, n: int, now: u64, only_active: bool) -> Seq<
    Subscriber,
>
    decreases n,
{
    if n <= 0 {
        Seq::empty()
    } else {
        let rest = selected_upto(subs, n - 1, now, only_active);
        if is_counted(subs[n - 1], now, only_active) {
            rest.push(subs[n - 1])
        } else {
            rest
        }
    }
}

/// Among the first `n` subscribers that are counted, their wallets: each
/// subscriber's own and the ones it whitelisted.
pub open spec fn wallets_upto(
    subs: Seq<Subscriber>,
    lists: Seq<Seq<Address>>,
    n: int,
    now: u64,
    only_active: bool,
) -> int
    decreases n,
{
    if n <= 0 {
        0
    } else {
        wallets_upto(subs, lists, n - 1, now, only_active) + if is_counted(
            subs[n - 1],
            now,
            only_active,
        ) {
            lists[n - 1].len() + 1
        } else {
            0
        }
    }
}

/// The last of the first `n` subscribers whose address is `a`.
pub open spec fn own_record_upto(subs: Seq<Subscriber>, n: int, a: Address) -> Option<Subscriber>
    decreases n,
{
    if n <= 0 {
        None
    } else if subs[n - 1].address == a {
        Some(subs[n - 1])
    } else {
        own_record_upto(subs, n - 1, a)
    }
}

/// Among the first `n` subscribers, those that whitelisted `a`, in id order.
pub open spec fn subscriptions_upto(
    subs: Seq<Subscriber>,
    lists: Seq<Seq<Address>>,
    n: int,
    a: Address,
) -> Seq<Subscriber>
    decreases n,
{
    if n <= 0 {
        Seq::empty()
    } else {
        let rest = subscriptions_upto(subs, lists, n - 1, a);
        if lists[n - 1].contains(a) {
            rest.push(subs[n - 1])
        } else {
            rest
        }
    }
}

/// The first position of `a` among the first `n` entries of `w`, or -1.
pub open spec fn position_upto(w: Seq<Address>, n: int, a: Address) -> int
    decreases n,
{
    if n <= 0 {
        -1
    } else {
        let k = position_upto(w, n - 1, a);
        if k >= 0 {
            k
        } else if w[n - 1] == a {
            n - 1
        } else {
            -1
        }
    }
}

/// The position of `a` in `w`, or -1.
pub open spec fn position(w: Seq<Address>, a: Address) -> int {
    position_upto(w, w.len() as int, a)
}

/// `w` after adding `a` to the set, which appends it unless it is there.
pub open spec fn inserted(w: Seq<Address>, a: Address) -> Seq<Address> {
    if w.contains(a) {
        w
    } else {
        w.push(a)
    }
}

/// `w` after removing `a` from the set: the last entry takes its place.
pub open spec fn swap_removed(w: Seq<Address>, a: Address) -> Seq<Address> {
    let k = position(w, a);
    if k < 0 {
        w
    } else {
        w.update(k, w.last()).drop_last()
    }
}

/// A big-endian amount without its leading zero bytes. Two amounts are equal
/// exactly when their trimmed forms are.
pub open spec fn trimmed(s: Seq<u8>) -> Seq<u8>
    decreases s.len(),
{
    if s.len() > 0 && s[0] == 0 {
        trimmed(s.drop_first())
    } else {
        s
    }
}

/// `x` reduced to the range of `u64`, as a `u64` counter that wraps holds it.
pub open spec fn wrapped(x: int) -> int {
    x % (u64::MAX + 1)
}

/// The validity of a subscription renewed at `now` for `period` seconds: the
/// period counts from the end of the paid time, or from now if that is over.
pub open spec fn renewed(validity: u64, now: u64, period: u64) -> int {
    if validity < now {
        now + period
    } else {
        validity + period
    }
}

impl ConfigState {
    /// The storage right after deployment.
    pub open spec fn initial(
        template_test_launchpad: Address,
        template_test_dex: Address,
        template_test_staking: Address,
        template_nft_marketplace: Address,
    ) -> ConfigState {
        ConfigState {
            state: State::Inactive,
            governance_token: Seq::empty(),
            main_dao: None,
            digital_identity: None,
            template_test_launchpad,
            template_test_dex,
            template_test_staking,
            template_nft_marketplace,
            subscription_fee: Seq::empty(),
            subscription_period: DEFAULT_VALIDITY,
            max_subscriber_addresses: DEFAULT_MAX_SUBSCRIBERS,
            subscribers: Seq::empty(),
            whitelisted_addresses: Seq::empty(),
        }
    }

    /// The storage invariant: subscribers are numbered by position, no two share
    /// an address, each one's whitelist is a set within the allowed size, the
    /// platform is only active once it knows its main DAO, and no governance
    /// token is stored before the main DAO is known.
    pub open spec fn wf(self) -> bool {
        &&& self.subscribers.len() == self.whitelisted_addresses.len()
        &&& forall|i: int| 0 <= i < self.subscribers.len() ==> #[trigger] self.subscribers[i].id == i
        &&& forall|i: int, j: int|
            0 <= i < j < self.subscribers.len() ==> #[trigger] self.subscribers[i].address
                != #[trigger] self.subscribers[j].address
        &&& forall|i: int|
            0 <= i < self.whitelisted_addresses.len() ==> (
            #[trigger] self.whitelisted_addresses[i]).no_duplicates()
                && self.whitelisted_addresses[i].len() <= self.max_subscriber_addresses
        &&& self.state == State::Active ==> self.main_dao is Some
        &&& self.main_dao is None ==> self.governance_token.len() == 0
    }

    /// The id of the subscriber whose address is `a`.
    pub open spec fn subscriber_index(self, a: Address) -> Option<int> {
        index_upto(self.subscribers, self.subscribers.len() as int, a)
    }

    /// Whether `a` is a subscriber, or a wallet whitelisted by one, whose
    /// subscription is still paid at `now`.
    pub open spec fn whitelisted_at(self, a: Address, now: u64) -> bool {
        exists|i: int|
            0 <= i < self.subscribers.len() && (self.subscribers[i].address == a
                || self.whitelisted_addresses[i].contains(a)) && #[trigger] self.subscribers[i].validity
                > now
    }

    /// The subscribers listed by `getAllSubscribers`.
    pub open spec fn listed_subscribers(self, now: u64, only_active: bool) -> Seq<Subscriber> {
        selected_upto(self.subscribers, self.subscribers.len() as int, now, only_active)
    }

    /// The number of wallets counted by `getWhitelistedWalletsCount`.
    pub open spec fn wallets_count(self, now: u64, only_active: bool) -> int {
        wallets_upto(
            self.subscribers,
            self.whitelisted_addresses,
            self.subscribers.len() as int,
            now,
            only_active,
        )
    }

    /// The wallets that subscriber `id` whitelisted; none for an unknown id.
    pub open spec fn whitelist_of(self, id: u64) -> Seq<Address> {
        if id < self.subscribers.len() {
            self.whitelisted_addresses[id as int]
        } else {
            Seq::empty()
        }
    }

    /// The subscriber record of `a`, if `a` is a subscriber.
    pub open spec fn own_record(self, a: Address) -> Option<Subscriber> {
        own_record_upto(self.subscribers, self.subscribers.len() as int, a)
    }

    /// The subscribers that whitelisted `a`.
    pub open spec fn subscriptions(self, a: Address) -> Seq<Subscriber> {
        subscriptions_upto(
            self.subscribers,
            self.whitelisted_addresses,
            self.subscribers.len() as int,
            a,
        )
    }

    /// The storage with one more subscriber, who has whitelisted nobody and has
    /// no contract deployed yet.
    pub open spec fn with_new_subscriber(self, address: Address, identity_id: u64, validity: u64) -> ConfigState {
        ConfigState {
            subscribers: self.subscribers.push(
                Subscriber {
                    id: self.subscribers.len() as u64,
                    address,
                    identity_id,
                    launchpad_sc: Address::null(),
                    dex_sc: Address::null(),
                    staking_sc: Address::null(),
                    nft_marketplace_sc: Address::null(),
                    validity,
                },
            ),
            whitelisted_addresses: self.whitelisted_addresses.push(Seq::empty()),
            ..self
        }
    }

    // ---- owner settings ----

    pub open spec fn set_state_active_step(self, caller: Address, owner: Address) -> (ConfigState, Result<(), PlatformError>) {
        if caller != owner {
            (self, Err(PlatformError::OnlyOwner))
        } else if self.main_dao is None {
            (self, Err(PlatformError::DaoNotSet))
        } else {
            (ConfigState { state: State::Active, ..self }, Ok(()))
        }
    }

    pub open spec fn set_state_inactive_step(self, caller: Address, owner: Address) -> (ConfigState, Result<(), PlatformError>) {
        if caller != owner {
            (self, Err(PlatformError::OnlyOwner))
        } else {
            (ConfigState { state: State::Inactive, ..self }, Ok(()))
        }
    }

    pub open spec fn set_template_addresses_step(
        self,
        caller: Address,
        owner: Address,
        template_test_launchpad: Address,
        template_test_dex: Address,
        template_test_staking: Address,
        template_nft_marketplace: Address,
    ) -> (ConfigState, Result<(), PlatformError>) {
        if caller != owner {
            (self, Err(PlatformError::OnlyOwner))
        } else {
            (
                ConfigState {
                    template_test_launchpad,
                    template_test_dex,
                    template_test_staking,
                    template_nft_marketplace,
                    ..self
                },
                Ok(()),
            )
        }
    }

    pub open spec fn set_subscription_fee_step(self, caller: Address, owner: Address, fee: Seq<u8>) -> (ConfigState, Result<(), PlatformError>) {
        if caller != owner {
            (self, Err(PlatformError::OnlyOwner))
        } else {
            (ConfigState { subscription_fee: fee, ..self }, Ok(()))
        }
    }

    pub open spec fn set_subscription_period_step(self, caller: Address, owner: Address, period: u64) -> (ConfigState, Result<(), PlatformError>) {
        if caller != owner {
            (self, Err(PlatformError::OnlyOwner))
        } else {
            (ConfigState { subscription_period: period, ..self }, Ok(()))
        }
    }

    // ---- set once, by the DAO ----

    /// The first caller becomes the main DAO, and is asked for its governance
    /// token; later calls change nothing.
    pub open spec fn set_main_dao_step(self, caller: Address) -> (ConfigState, Option<MainDAOProxy>) {
        if self.main_dao is Some {
            (self, None)
        } else {
            (
                ConfigState { main_dao: Some(caller), ..self },
                Some(MainDAOProxy::GovernanceToken { dao: caller }),
            )
        }
    }

    /// The main DAO's answer is stored only while it is awaited: once the main
    /// DAO is set and before any token is stored. Otherwise nothing changes.
    pub open spec fn receive_governance_token_step(self, token: Seq<u8>) -> ConfigState {
        if self.main_dao is Some && self.governance_token.len() == 0 {
            ConfigState { governance_token: token, ..self }
        } else {
            self
        }
    }

    pub open spec fn set_digital_identity_step(self, address: Address) -> ConfigState {
        if self.digital_identity is Some {
            self
        } else {
            ConfigState { digital_identity: Some(address), ..self }
        }
    }

    // ---- subscriptions ----

    pub open spec fn subscribe_step(
        self,
        caller: Address,
        caller_is_franchise: bool,
        payment: Payment,
        identity_id: Option<u64>,
        now: u64,
    ) -> (ConfigState, Result<MainDAOProxy, PlatformError>) {
        if self.state != State::Active {
            (self, Err(PlatformError::StateInactive))
        } else if caller_is_franchise {
            (self, Err(PlatformError::NotAllowed))
        } else if payment.token_identifier@ != self.governance_token {
            (self, Err(PlatformError::WrongPaymentToken))
        } else if trimmed(payment.amount@) != trimmed(self.subscription_fee) {
            (self, Err(PlatformError::WrongPaymentAmount))
        } else {
            let forward = MainDAOProxy::AddFunds { dao: self.main_dao.unwrap(), payment };
            match self.subscriber_index(caller) {
                Some(i) => {
                    let sub = self.subscribers[i];
                    let v = renewed(sub.validity, now, self.subscription_period);
                    if v > u64::MAX {
                        (self, Err(PlatformError::Overflow))
                    } else {
                        (
                            ConfigState {
                                subscribers: self.subscribers.update(
                                    i,
                                    Subscriber { validity: v as u64, ..sub },
                                ),
                                ..self
                            },
                            Ok(forward),
                        )
                    }
                },
                None => match identity_id {
                    None => (self, Err(PlatformError::NoDetails)),
                    Some(identity) => {
                        let v = renewed(0, now, self.subscription_period);
                        if self.subscribers.len() >= u64::MAX || v > u64::MAX {
                            (self, Err(PlatformError::Overflow))
                        } else {
                            (self.with_new_subscriber(caller, identity, v as u64), Ok(forward))
                        }
                    },
                },
            }
        }
    }

    pub open spec fn change_details_step(self, caller: Address, identity_id: u64) -> (ConfigState, Result<(), PlatformError>) {
        if self.state != State::Active {
            (self, Err(PlatformError::StateInactive))
        } else {
            match self.subscriber_index(caller) {
                None => (self, Err(PlatformError::NotSubscribed)),
                Some(i) => (
                    ConfigState {
                        subscribers: self.subscribers.update(
                            i,
                            Subscriber { identity_id, ..self.subscribers[i] },
                        ),
                        ..self
                    },
                    Ok(()),
                ),
            }
        }
    }

    pub open spec fn subscribe_franchise_step(
        self,
        caller: Address,
        launchpad: Address,
        franchise_address: Address,
        identity_id: u64,
        now: u64,
    ) -> (ConfigState, Result<(), PlatformError>) {
        if self.state != State::Active {
            (self, Err(PlatformError::StateInactive))
        } else if caller != launchpad {
            (self, Err(PlatformError::OnlyLaunchpad))
        } else if self.subscriber_index(franchise_address) is Some {
            (self, Err(PlatformError::AlreadySubscribed))
        } else if self.subscribers.len() >= u64::MAX || now + VALIDITY_FOR_FRANCHISE > u64::MAX {
            (self, Err(PlatformError::Overflow))
        } else {
            (
                self.with_new_subscriber(
                    franchise_address,
                    identity_id,
                    (now + VALIDITY_FOR_FRANCHISE) as u64,
                ),
                Ok(()),
            )
        }
    }

    pub open spec fn whitelist_address_step(self, caller: Address, address: Address, now: u64) -> (ConfigState, Result<(), PlatformError>) {
        if self.state != State::Active {
            (self, Err(PlatformError::StateInactive))
        } else {
            match self.subscriber_index(caller) {
                None => (self, Err(PlatformError::NotSubscribed)),
                Some(i) => if self.subscribers[i].validity <= now {
                    (self, Err(PlatformError::SubscriptionExpired))
                } else if self.whitelisted_addresses[i].len() >= self.max_subscriber_addresses {
                    (self, Err(PlatformError::TooManyAddresses))
                } else {
                    (
                        ConfigState {
                            whitelisted_addresses: self.whitelisted_addresses.update(
                                i,
                                inserted(self.whitelisted_addresses[i], address),
                            ),
                            ..self
                        },
                        Ok(()),
                    )
                },
            }
        }
    }

    pub open spec fn remove_address_step(self, caller: Address, address: Address) -> (ConfigState, Result<(), PlatformError>) {
        if self.state != State::Active {
            (self, Err(PlatformError::StateInactive))
        } else {
            match self.subscriber_index(caller) {
                None => (self, Err(PlatformError::NotSubscribed)),
                Some(i) => (
                    ConfigState {
                        whitelisted_addresses: self.whitelisted_addresses.update(
                            i,
                            swap_removed(self.whitelisted_addresses[i], address),
                        ),
                        ..self
                    },
                    Ok(()),
                ),
            }
        }
    }
}

// ---- facts about the model ----

/// What `index_upto` finds: the first match, or no match at all.
pub proof fn lemma_index_upto(subs: Seq<Subscriber>, n: int, a: Address)
    requires
        0 <= n <= subs.len(),
    ensures
        match index_upto(subs, n, a) {
            Some(i) => 0 <= i < n && subs[i].address == a && forall|j: int|
                0 <= j < i ==> #[trigger] subs[j].address != a,
            None => forall|j: int| 0 <= j < n ==> #[trigger] subs[j].address != a,
        },
    decreases n,
{
    if n > 0 {
        lemma_index_upto(subs, n - 1, a);
    }
}

/// Once a match is found among the first `k` subscribers, looking further
/// finds the same one.
pub proof fn lemma_index_upto_kept(subs: Seq<Subscriber>, k: int, n: int, a: Address)
    requires
        0 <= k <= n,
        index_upto(subs, k, a) is Some,
    ensures
        index_upto(subs, n, a) == index_upto(subs, k, a),
    decreases n - k,
{
    if n > k {
        lemma_index_upto_kept(subs, k, n - 1, a);
    }
}

/// When the first `k` bytes of `s` are zero and the next is not (or there is
/// none), trimming drops exactly those `k` bytes.
pub proof fn lemma_trimmed_skip(s: Seq<u8>, k: int)
    requires
        0 <= k <= s.len(),
        forall|j: int| 0 <= j < k ==> s[j] == 0,
        k == s.len() || s[k] != 0,
    ensures
        trimmed(s) == s.skip(k),
    decreases k,
{
    if k > 0 {
        lemma_trimmed_skip(s.drop_first(), k - 1);
        assert(s.drop_first().skip(k - 1) =~= s.skip(k));
    } else {
        assert(s.skip(0) =~= s);
    }
}

/// What `position_upto` finds: the first match, or -1 when there is none.
pub proof fn lemma_position_upto(w: Seq<Address>, n: int, a: Address)
    requires
        0 <= n <= w.len(),
    ensures
        position_upto(w, n, a) == -1 ==> forall|j: int| 0 <= j < n ==> #[trigger] w[j] != a,
        position_upto(w, n, a) != -1 ==> {
            let k = position_upto(w, n, a);
            &&& 0 <= k < n
            &&& w[k] == a
            &&& forall|j: int| 0 <= j < k ==> #[trigger] w[j] != a
        },
    decreases n,
{
    if n > 0 {
        lemma_position_upto(w, n - 1, a);
    }
}

/// Counting only active subscribers never gives more than counting all.
pub proof fn lemma_active_within_all(
    subs: Seq<Subscriber>,
    lists: Seq<Seq<Address>>,
    n: int,
    now: u64,
)
    requires
        0 <= n,
    ensures
        selected_upto(subs, n, now, true).len() <= selected_upto(subs, n, now, false).len(),
        wallets_upto(subs, lists, n, now, true) <= wallets_upto(subs, lists, n, now, false),
        selected_upto(subs, n, now, false).len() == n,
    decreases n,
{
    if n > 0 {
        lemma_active_within_all(subs, lists, n - 1, now);
    }
}

/// Once `a` is found among the first `k` entries, looking further finds the
/// same position.
pub proof fn lemma_position_kept(w: Seq<Address>, k: int, n: int, a: Address)
    requires
        0 <= k <= n,
        position_upto(w, k, a) >= 0,
    ensures
        position_upto(w, n, a) == position_upto(w, k, a),
    decreases n - k,
{
    if n > k {
        lemma_position_kept(w, k, n - 1, a);
    }
}

/// Removing `a` from a set of addresses keeps it a set, drops `a`, keeps the
/// rest, and leaves the last entry in place of `a`.
pub proof fn lemma_swap_removed(w: Seq<Address>, a: Address)
    requires
        w.no_duplicates(),
    ensures
        swap_removed(w, a).no_duplicates(),
        swap_removed(w, a).len() <= w.len(),
        !swap_removed(w, a).contains(a),
        forall|x: Address| x != a ==> (#[trigger] swap_removed(w, a).contains(x) <==> w.contains(x)),
{
    lemma_position_upto(w, w.len() as int, a);
    let k = position(w, a);
    let r = swap_removed(w, a);
    if k >= 0 {
        let last = w.len() - 1;
        assert forall|i: int, j: int| 0 <= i < j < r.len() implies r[i] != r[j] by {
            if i == k {
                assert(r[i] == w[last]);
                assert(r[j] == w[j]);
            } else if j == k {
                assert(r[j] == w[last]);
                assert(r[i] == w[i]);
            }
        }
        assert forall|x: Address| x != a implies (#[trigger] r.contains(x) <==> w.contains(x)) by {
            if w.contains(x) {
                let m = choose|m: int| 0 <= m < w.len() && w[m] == x;
                if m == last {
                    if k != last {
                        assert(r[k] == x);
                    }
                } else {
                    assert(m != k);
                    assert(r[m] == x);
                }
            }
            if r.contains(x) {
                let m = choose|m: int| 0 <= m < r.len() && r[m] == x;
                if m == k {
                    assert(w[last] == x);
                } else {
                    assert(w[m] == x);
                }
            }
        }
        if r.contains(a) {
            let m = choose|m: int| 0 <= m < r.len() && r[m] == a;
            if m == k {
                assert(w[last] == a);
            } else {
                assert(w[m] == a);
            }
        }
    }
}

/// A selection never holds more subscribers than it looked at.
pub proof fn lemma_selected_len(subs: Seq<Subscriber>, n: int, now: u64, only_active: bool)
    requires
        0 <= n,
    ensures
        selected_upto(subs, n, now, only_active).len() <= n,
    decreases n,
{
    if n > 0 {
        lemma_selected_len(subs, n - 1, now, only_active);
    }
}

} // verus!
