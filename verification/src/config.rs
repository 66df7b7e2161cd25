//! The platform's storage and the endpoints and views that read or set it.

use vstd::arithmetic::div_mod::lemma_add_mod_noop;
use vstd::prelude::*;

use crate::state::{
    index_upto, lemma_index_upto_kept, lemma_selected_len, lemma_trimmed_skip, own_record_upto,
    selected_upto, subscriptions_upto, trimmed, wallets_upto, wrapped,
    ConfigState,
};
use crate::types::{
    Address, MainDAOProxy, PlatformError, PlatformInfo, State, Subscriber,
    DEFAULT_MAX_SUBSCRIBERS, DEFAULT_VALIDITY,
};

verus! {

/// The storage of the platform contract. Its fields are the contract's storage
/// entries; `whitelisted_addresses[id]` belongs to subscriber `id`.
pub struct ConfigModule {
    pub state: State,
    pub governance_token: Vec<u8>,
    pub main_dao: Option<Address>,
    pub digital_identity: Option<Address>,
    pub template_test_launchpad: Address,
    pub template_test_dex: Address,
    pub template_test_staking: Address,
    pub template_nft_marketplace: Address,
    pub subscription_fee: Vec<u8>,
    pub subscription_period: u64,
    pub max_subscriber_addresses: usize,
    pub subscribers: Vec<Subscriber>,
    pub whitelisted_addresses: Vec<Vec<Address>>,
}

impl View for ConfigModule {
    type V = ConfigState;

    open spec fn view(&self) -> ConfigState {
        ConfigState {
            state: self.state,
            governance_token: self.governance_token@,
            main_dao: self.main_dao,
            digital_identity: self.digital_identity,
            template_test_launchpad: self.template_test_launchpad,
            template_test_dex: self.template_test_dex,
            template_test_staking: self.template_test_staking,
            template_nft_marketplace: self.template_nft_marketplace,
            subscription_fee: self.subscription_fee@,
            subscription_period: self.subscription_period,
            max_subscriber_addresses: self.max_subscriber_addresses,
            subscribers: self.subscribers@,
            whitelisted_addresses: self.whitelisted_addresses@.map_values(|w: Vec<Address>| w@),
        }
    }
}

/// Whether two byte strings are equal.
pub fn same_bytes(a: &Vec<u8>, b: &Vec<u8>) -> (r: bool)
    ensures
        r == (a@ == b@),
{
    if a.len() != b.len() {
        return false;
    }
    let mut i: usize = 0;
    while i < a.len()
        invariant
            a.len() == b.len(),
            0 <= i <= a.len(),
            forall|j: int| 0 <= j < i ==> a@[j] == b@[j],
        decreases a.len() - i,
    {
        if a[i] != b[i] {
            return false;
        }
        i = i + 1;
    }
    proof {
        assert(a@ =~= b@);
    }
    true
}

/// Whether `list` holds `address`.
pub fn list_contains(list: &Vec<Address>, address: &Address) -> (r: bool)
    ensures
        r == list@.contains(*address),
{
    let mut i: usize = 0;
    while i < list.len()
        invariant
            0 <= i <= list.len(),
            forall|j: int| 0 <= j < i ==> list@[j] != *address,
        decreases list.len() - i,
    {
        if list[i] == *address {
            proof {
                assert(list@[i as int] == *address);
            }
            return true;
        }
        i = i + 1;
    }
    false
}

/// The number of leading zero bytes of `a`.
fn leading_zeros(a: &Vec<u8>) -> (k: usize)
    ensures
        k <= a.len(),
        trimmed(a@) == a@.skip(k as int),
{
    let mut k: usize = 0;
    while k < a.len() && a[k] == 0
        invariant
            0 <= k <= a.len(),
            forall|j: int| 0 <= j < k ==> a@[j] == 0,
        decreases a.len() - k,
    {
        k = k + 1;
    }
    proof {
        lemma_trimmed_skip(a@, k as int);
    }
    k
}

/// Whether two big-endian amounts are equal, leading zero bytes aside.
pub fn same_amount(a: &Vec<u8>, b: &Vec<u8>) -> (r: bool)
    ensures
        r == (trimmed(a@) == trimmed(b@)),
{
    let i = leading_zeros(a);
    let j = leading_zeros(b);
    if a.len() - i != b.len() - j {
        proof {
            assert(trimmed(a@).len() != trimmed(b@).len());
        }
        return false;
    }
    let n = a.len() - i;
    let mut k: usize = 0;
    while k < n
        invariant
            n == a.len() - i,
            n == b.len() - j,
            i <= a.len(),
            j <= b.len(),
            trimmed(a@) == a@.skip(i as int),
            trimmed(b@) == b@.skip(j as int),
            0 <= k <= n,
            forall|m: int| 0 <= m < k ==> #[trigger] a@.skip(i as int)[m] == b@.skip(j as int)[m],
        decreases n - k,
    {
        if a[i + k] != b[j + k] {
            proof {
                assert(a@.skip(i as int)[k as int] != b@.skip(j as int)[k as int]);
                assert(trimmed(a@)[k as int] != trimmed(b@)[k as int]);
            }
            return false;
        }
        k = k + 1;
    }
    proof {
        assert(a@.skip(i as int) =~= b@.skip(j as int));
    }
    true
}

impl ConfigModule {
    /// The storage right after deployment, with the four template contracts.
    pub fn new(
        template_test_launchpad: Address,
        template_test_dex: Address,
        template_test_staking: Address,
        template_nft_marketplace: Address,
    ) -> (r: ConfigModule)
        ensures
            r@ == ConfigState::initial(
                template_test_launchpad,
                template_test_dex,
                template_test_staking,
                template_nft_marketplace,
            ),
            r@.wf(),
    {
        let r = ConfigModule {
            state: State::Inactive,
            governance_token: Vec::new(),
            main_dao: None,
            digital_identity: None,
            template_test_launchpad,
            template_test_dex,
            template_test_staking,
            template_nft_marketplace,
            subscription_fee: Vec::new(),
            subscription_period: DEFAULT_VALIDITY,
            max_subscriber_addresses: DEFAULT_MAX_SUBSCRIBERS,
            subscribers: Vec::new(),
            whitelisted_addresses: Vec::new(),
        };
        proof {
            assert(r@.whitelisted_addresses =~= Seq::<Seq<Address>>::empty());
        }
        r
    }

    /// Whether the storage satisfies the platform's invariant, as storage that
    /// only the platform's endpoints wrote always does.
    pub fn is_well_formed(&self) -> (r: bool)
        ensures
            r == self@.wf(),
    {
        let n = self.subscribers.len();
        if self.whitelisted_addresses.len() != n {
            return false;
        }
        if self.state == State::Active && self.main_dao.is_none() {
            return false;
        }
        if self.main_dao.is_none() && self.governance_token.len() != 0 {
            return false;
        }
        let mut j: usize = 0;
        while j < n
            invariant
                n == self.subscribers@.len(),
                0 <= j <= n,
                forall|i: int| 0 <= i < j ==> #[trigger] self@.subscribers[i].id == i,
                forall|a: int, b: int|
                    0 <= a < b < j ==> #[trigger] self@.subscribers[a].address
                        != #[trigger] self@.subscribers[b].address,
            decreases n - j,
        {
            if self.subscribers[j].id != j as u64 {
                return false;
            }
            let mut i: usize = 0;
            while i < j
                invariant
                    n == self.subscribers@.len(),
                    0 <= i <= j < n,
                    forall|a: int|
                        0 <= a < i ==> #[trigger] self@.subscribers[a].address
                            != self@.subscribers[j as int].address,
                decreases j - i,
            {
                if self.subscribers[i].address == self.subscribers[j].address {
                    return false;
                }
                i = i + 1;
            }
            j = j + 1;
        }
        let mut k: usize = 0;
        while k < n
            invariant
                n == self.subscribers@.len(),
                n == self.whitelisted_addresses@.len(),
                0 <= k <= n,
                forall|c: int|
                    0 <= c < k ==> (#[trigger] self@.whitelisted_addresses[c]).no_duplicates()
                        && self@.whitelisted_addresses[c].len() <= self.max_subscriber_addresses,
            decreases n - k,
        {
            let list = &self.whitelisted_addresses[k];
            assert(list@ == self@.whitelisted_addresses[k as int]);
            if list.len() > self.max_subscriber_addresses {
                return false;
            }
            let mut b: usize = 0;
            while b < list.len()
                invariant
                    0 <= b <= list@.len(),
                    0 <= k < n,
                    n == self.whitelisted_addresses@.len(),
                    list@ == self@.whitelisted_addresses[k as int],
                    forall|x: int, y: int| 0 <= x < y < b ==> #[trigger] list@[x] != #[trigger] list@[y],
                decreases list.len() - b,
            {
                let mut a: usize = 0;
                while a < b
                    invariant
                        0 <= a <= b < list@.len(),
                        0 <= k < n,
                        n == self.whitelisted_addresses@.len(),
                        list@ == self@.whitelisted_addresses[k as int],
                        forall|x: int| 0 <= x < a ==> #[trigger] list@[x] != list@[b as int],
                    decreases b - a,
                {
                    if list[a] == list[b] {
                        proof {
                            assert(!list@.no_duplicates());
                            assert(!self@.whitelisted_addresses[k as int].no_duplicates());
                        }
                        return false;
                    }
                    a = a + 1;
                }
                b = b + 1;
            }
            proof {
                assert forall|x: int, y: int|
                    0 <= x < list@.len() && 0 <= y < list@.len() && x != y implies list@[x]
                    != list@[y] by {
                    if x > y {
                        assert(list@[y] != list@[x]);
                    }
                }
            }
            k = k + 1;
        }
        true
    }

    /// `setStateActive`: the owner opens the platform, once its main DAO is known.
    pub fn set_state_active(&mut self, caller: &Address, owner: &Address) -> (r: Result<(), PlatformError>)
        requires
            old(self)@.wf(),
        ensures
            (final(self)@, r) == old(self)@.set_state_active_step(*caller, *owner),
            final(self)@.wf(),
    {
        if *caller != *owner {
            return Err(PlatformError::OnlyOwner);
        }
        if self.main_dao.is_none() {
            return Err(PlatformError::DaoNotSet);
        }
        self.state = State::Active;
        Ok(())
    }

    /// `setStateInactive`: the owner closes the platform.
    pub fn set_state_inactive(&mut self, caller: &Address, owner: &Address) -> (r: Result<(), PlatformError>)
        requires
            old(self)@.wf(),
        ensures
            (final(self)@, r) == old(self)@.set_state_inactive_step(*caller, *owner),
            final(self)@.wf(),
    {
        if *caller != *owner {
            return Err(PlatformError::OnlyOwner);
        }
        self.state = State::Inactive;
        Ok(())
    }

    /// `setMainDAO`: the first caller becomes the main DAO. The call returned
    /// asks that DAO for its governance token, which then goes to
    /// [`ConfigModule::receive_governance_token`].
    pub fn set_main_dao(&mut self, caller: &Address) -> (r: Option<MainDAOProxy>)
        requires
            old(self)@.wf(),
        ensures
            (final(self)@, r) == old(self)@.set_main_dao_step(*caller),
            final(self)@.wf(),
    {
        if self.main_dao.is_some() {
            return None;
        }
        self.main_dao = Some(*caller);
        Some(MainDAOProxy::GovernanceToken { dao: *caller })
    }

    /// Stores the governance token that the main DAO answered with, in reply to
    /// [`ConfigModule::set_main_dao`]. Once a token is stored, or while there is
    /// no main DAO, the call changes nothing.
    pub fn receive_governance_token(&mut self, token: Vec<u8>)
        requires
            old(self)@.wf(),
        ensures
            final(self)@ == old(self)@.receive_governance_token_step(token@),
            final(self)@.wf(),
    {
        if self.main_dao.is_some() && self.governance_token.len() == 0 {
            self.governance_token = token;
        }
    }

    /// `setDigitalIdentity`: the first address given is kept for good.
    pub fn set_digital_identity(&mut self, address: &Address)
        requires
            old(self)@.wf(),
        ensures
            final(self)@ == old(self)@.set_digital_identity_step(*address),
            final(self)@.wf(),
    {
        if self.digital_identity.is_some() {
            return;
        }
        self.digital_identity = Some(*address);
    }

    /// `setTemplateAddresses`: the owner replaces the four template contracts.
    pub fn set_template_addresses(
        &mut self,
        caller: &Address,
        owner: &Address,
        template_test_launchpad: Address,
        template_test_dex: Address,
        template_test_staking: Address,
        template_nft_marketplace: Address,
    ) -> (r: Result<(), PlatformError>)
        requires
            old(self)@.wf(),
        ensures
            (final(self)@, r) == old(self)@.set_template_addresses_step(
                *caller,
                *owner,
                template_test_launchpad,
                template_test_dex,
                template_test_staking,
                template_nft_marketplace,
            ),
            final(self)@.wf(),
    {
        if *caller != *owner {
            return Err(PlatformError::OnlyOwner);
        }
        self.template_test_launchpad = template_test_launchpad;
        self.template_test_dex = template_test_dex;
        self.template_test_staking = template_test_staking;
        self.template_nft_marketplace = template_nft_marketplace;
        Ok(())
    }

    /// `setSubscriptionFee`: the owner sets the price of a subscription period.
    pub fn set_subscription_fee(&mut self, caller: &Address, owner: &Address, new_fee: Vec<u8>) -> (r: Result<(), PlatformError>)
        requires
            old(self)@.wf(),
        ensures
            (final(self)@, r) == old(self)@.set_subscription_fee_step(*caller, *owner, new_fee@),
            final(self)@.wf(),
    {
        if *caller != *owner {
            return Err(PlatformError::OnlyOwner);
        }
        self.subscription_fee = new_fee;
        Ok(())
    }

    /// `setSubscriptionPeriod`: the owner sets how long, in seconds, one payment
    /// extends a subscription.
    pub fn set_subscription_period(&mut self, caller: &Address, owner: &Address, new_period: u64) -> (r: Result<(), PlatformError>)
        requires
            old(self)@.wf(),
        ensures
            (final(self)@, r) == old(self)@.set_subscription_period_step(*caller, *owner, new_period),
            final(self)@.wf(),
    {
        if *caller != *owner {
            return Err(PlatformError::OnlyOwner);
        }
        self.subscription_period = new_period;
        Ok(())
    }

    /// `getSubscriberIdByAddress`: the id of the subscriber paying from `address`.
    pub fn get_subscriber_id_by_address(&self, address: &Address) -> (r: Option<u64>)
        ensures
            r is Some <==> self@.subscriber_index(*address) is Some,
            r is Some ==> self@.subscriber_index(*address) == Some(r.unwrap() as int),
    {
        let n = self.subscribers.len();
        let mut i: usize = 0;
        while i < n
            invariant
                n == self.subscribers@.len(),
                0 <= i <= n,
                index_upto(self.subscribers@, i as int, *address) is None,
            decreases n - i,
        {
            if self.subscribers[i].address == *address {
                proof {
                    assert(index_upto(self.subscribers@, i + 1, *address) == Some(i as int));
                    lemma_index_upto_kept(self.subscribers@, i + 1, n as int, *address);
                }
                return Some(i as u64);
            }
            i = i + 1;
        }
        None
    }

    /// `getWhitelistedAddresses`: the wallets that subscriber `subscriber_id`
    /// whitelisted, in stored order; none for an unknown id.
    pub fn get_whitelisted_addresses(&self, subscriber_id: u64) -> (r: Vec<Address>)
        requires
            self@.wf(),
        ensures
            r@ == self@.whitelist_of(subscriber_id),
    {
        let mut addresses: Vec<Address> = Vec::new();
        if subscriber_id >= self.subscribers.len() as u64 {
            return addresses;
        }
        let list = &self.whitelisted_addresses[subscriber_id as usize];
        let mut i: usize = 0;
        while i < list.len()
            invariant
                0 <= i <= list.len(),
                addresses@ == list@.take(i as int),
            decreases list.len() - i,
        {
            addresses.push(list[i]);
            i = i + 1;
            proof {
                assert(addresses@ =~= list@.take(i as int));
            }
        }
        proof {
            assert(list@.take(list.len() as int) =~= list@);
        }
        addresses
    }

    /// `getAllSubscribers`: the subscribers in id order, only those still paid
    /// at `now` when `only_active` holds.
    pub fn get_all_subscribers(&self, now: u64, only_active: bool) -> (r: Vec<Subscriber>)
        ensures
            r@ == self@.listed_subscribers(now, only_active),
    {
        let n = self.subscribers.len();
        let mut subscribers: Vec<Subscriber> = Vec::new();
        let mut i: usize = 0;
        while i < n
            invariant
                n == self.subscribers@.len(),
                0 <= i <= n,
                subscribers@ == selected_upto(self.subscribers@, i as int, now, only_active),
            decreases n - i,
        {
            let subscriber = self.subscribers[i];
            if !only_active || subscriber.validity > now {
                subscribers.push(subscriber);
            }
            i = i + 1;
        }
        subscribers
    }

    /// `checkWhitelisted`: succeeds when `address` is a subscriber, or a wallet
    /// whitelisted by one, whose subscription is still paid at `now`.
    pub fn check_whitelisted(&self, address: &Address, now: u64) -> (r: Result<(), PlatformError>)
        requires
            self@.wf(),
        ensures
            r == if self@.whitelisted_at(*address, now) {
                Ok(())
            } else {
                Err(PlatformError::NotWhitelisted)
            },
    {
        let n = self.subscribers.len();
        let mut i: usize = 0;
        while i < n
            invariant
                n == self.subscribers@.len(),
                self@.wf(),
                0 <= i <= n,
                forall|j: int|
                    0 <= j < i ==> !((self@.subscribers[j].address == *address
                        || self@.whitelisted_addresses[j].contains(*address))
                        && #[trigger] self@.subscribers[j].validity > now),
            decreases n - i,
        {
            let subscriber = self.subscribers[i];
            let is_subscriber = *address == subscriber.address;
            let is_user = list_contains(&self.whitelisted_addresses[i], address);
            if (is_user || is_subscriber) && subscriber.validity > now {
                proof {
                    assert(self@.subscribers[i as int].validity > now);
                }
                return Ok(());
            }
            i = i + 1;
        }
        Err(PlatformError::NotWhitelisted)
    }

    /// `getSubscribersCount`: how many subscribers there are, only those still
    /// paid at `now` when `only_active` holds.
    pub fn get_subscribers_count(&self, now: u64, only_active: bool) -> (r: u64)
        ensures
            r == self@.listed_subscribers(now, only_active).len(),
    {
        let n = self.subscribers.len();
        let mut count: u64 = 0;
        let mut i: usize = 0;
        while i < n
            invariant
                n == self.subscribers@.len(),
                0 <= i <= n,
                count == selected_upto(self.subscribers@, i as int, now, only_active).len(),
            decreases n - i,
        {
            proof {
                lemma_selected_len(self.subscribers@, i as int, now, only_active);
            }
            if !only_active || self.subscribers[i].validity > now {
                count = count + 1;
            }
            i = i + 1;
        }
        count
    }

    /// `getWhitelistedWalletsCount`: how many wallets have access: each counted
    /// subscriber's own and the ones it whitelisted. The count is kept in a
    /// `u64` counter that wraps around on overflow.
    pub fn get_whitelisted_wallets_count(&self, now: u64, only_active: bool) -> (r: u64)
        requires
            self@.wf(),
        ensures
            r == wrapped(self@.wallets_count(now, only_active)),
    {
        let n = self.subscribers.len();
        let mut count: u64 = 0;
        let mut i: usize = 0;
        while i < n
            invariant
                n == self.subscribers@.len(),
                self@.wf(),
                0 <= i <= n,
                count == wrapped(
                    wallets_upto(
                        self@.subscribers,
                        self@.whitelisted_addresses,
                        i as int,
                        now,
                        only_active,
                    ),
                ),
            decreases n - i,
        {
            if !only_active || self.subscribers[i].validity > now {
                let len = self.whitelisted_addresses[i].len() as u64;
                let wallets = len.wrapping_add(1);
                let ghost before = wallets_upto(
                    self@.subscribers,
                    self@.whitelisted_addresses,
                    i as int,
                    now,
                    only_active,
                );
                proof {
                    assert(wallets == wrapped(len + 1));
                    lemma_add_mod_noop(before, len + 1, u64::MAX + 1);
                    assert(count + wallets < 2 * (u64::MAX + 1));
                }
                count = count.wrapping_add(wallets);
                proof {
                    assert(count == wrapped(before + (len + 1)));
                }
            }
            i = i + 1;
        }
        count
    }

    /// `getAddressDetails`: the subscriber record of `address`, if it pays for a
    /// subscription, and the subscribers that whitelisted it, in id order.
    pub fn get_address_details(&self, address: &Address) -> (r: (Option<Subscriber>, Vec<Subscriber>))
        requires
            self@.wf(),
        ensures
            r.0 == self@.own_record(*address),
            r.1@ == self@.subscriptions(*address),
    {
        let n = self.subscribers.len();
        let mut is_subscriber: Option<Subscriber> = None;
        let mut subscriptions: Vec<Subscriber> = Vec::new();
        let mut i: usize = 0;
        while i < n
            invariant
                n == self.subscribers@.len(),
                self@.wf(),
                0 <= i <= n,
                is_subscriber == own_record_upto(self@.subscribers, i as int, *address),
                subscriptions@ == subscriptions_upto(
                    self@.subscribers,
                    self@.whitelisted_addresses,
                    i as int,
                    *address,
                ),
            decreases n - i,
        {
            let subscriber = self.subscribers[i];
            if list_contains(&self.whitelisted_addresses[i], address) {
                subscriptions.push(subscriber);
            }
            if subscriber.address == *address {
                is_subscriber = Some(subscriber);
            }
            i = i + 1;
        }
        (is_subscriber, subscriptions)
    }

    /// `getContractInfo`: the platform's settings and its four counts at `now`.
    pub fn get_contract_info(&self, now: u64) -> (r: PlatformInfo)
        requires
            self@.wf(),
        ensures
            r.state == self@.state,
            r.governance_token@ == self@.governance_token,
            r.subscription_fee@ == self@.subscription_fee,
            r.subscription_period == self@.subscription_period,
            r.max_subscriber_addresses == self@.max_subscriber_addresses,
            r.subscribers_count == self@.listed_subscribers(now, false).len(),
            r.active_subscribers_count == self@.listed_subscribers(now, true).len(),
            r.whitelisted_wallets_count == wrapped(self@.wallets_count(now, false)),
            r.active_whitelisted_wallets_count == wrapped(self@.wallets_count(now, true)),
    {
        PlatformInfo {
            state: self.state,
            governance_token: copy_bytes(&self.governance_token),
            subscription_fee: copy_bytes(&self.subscription_fee),
            subscription_period: self.subscription_period,
            max_subscriber_addresses: self.max_subscriber_addresses,
            subscribers_count: self.get_subscribers_count(now, false),
            active_subscribers_count: self.get_subscribers_count(now, true),
            whitelisted_wallets_count: self.get_whitelisted_wallets_count(now, false),
            active_whitelisted_wallets_count: self.get_whitelisted_wallets_count(now, true),
        }
    }
}

/// A copy of a byte string.
pub fn copy_bytes(v: &Vec<u8>) -> (r: Vec<u8>)
    ensures
        r@ == v@,
{
    let mut r: Vec<u8> = Vec::new();
    let mut i: usize = 0;
    while i < v.len()
        invariant
            0 <= i <= v.len(),
            r@ == v@.take(i as int),
        decreases v.len() - i,
    {
        r.push(v[i]);
        i = i + 1;
        proof {
            assert(r@ =~= v@.take(i as int));
        }
    }
    proof {
        assert(v@.take(v.len() as int) =~= v@);
    }
    r
}

} // verus!
