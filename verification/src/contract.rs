//! The subscription endpoints of the platform.

use vstd::prelude::*;

use crate::config::{list_contains, same_amount, same_bytes, ConfigModule};
use crate::state::{
    inserted, lemma_index_upto, lemma_position_kept, lemma_position_upto, lemma_swap_removed, position_upto,
    swap_removed, ConfigState,
};
use crate::types::{
    Address, MainDAOProxy, Payment, PlatformError, State, Subscriber, VALIDITY_FOR_FRANCHISE,
};

verus! {

/// The platform contract: its storage, and the endpoints through which schools,
/// companies and franchises subscribe and manage the wallets they pay for.
///
/// Calls to other contracts are not made here: what such a call answers is an
/// argument, and a call that must follow is returned as a [`MainDAOProxy`].
pub struct TFNPlatformContract {
    pub config: ConfigModule,
}

impl View for TFNPlatformContract {
    type V = ConfigState;

    open spec fn view(&self) -> ConfigState {
        self.config@
    }
}

impl TFNPlatformContract {
    /// Deployment: an inactive platform with the default subscription period
    /// and whitelist size, and the given template contracts.
    pub fn init(
        template_test_launchpad: Address,
        template_test_dex: Address,
        template_test_staking: Address,
        template_nft_marketplace: Address,
    ) -> (r: TFNPlatformContract)
        ensures
            r@ == ConfigState::initial(
                template_test_launchpad,
                template_test_dex,
                template_test_staking,
                template_nft_marketplace,
            ),
            r@.wf(),
    {
        TFNPlatformContract {
            config: ConfigModule::new(
                template_test_launchpad,
                template_test_dex,
                template_test_staking,
                template_nft_marketplace,
            ),
        }
    }

    /// Appends a new subscriber with an empty whitelist.
    fn push_subscriber(&mut self, address: Address, identity_id: u64, validity: u64)
        requires
            old(self)@.wf(),
            old(self)@.subscriber_index(address) is None,
            old(self)@.subscribers.len() < u64::MAX,
        ensures
            final(self)@ == old(self)@.with_new_subscriber(address, identity_id, validity),
            final(self)@.wf(),
    {
        proof {
            lemma_index_upto(
                old(self)@.subscribers,
                old(self)@.subscribers.len() as int,
                address,
            );
        }
        let id = self.config.subscribers.len() as u64;
        self.config.subscribers.push(
            Subscriber {
                id,
                address,
                identity_id,
                launchpad_sc: Address::zero(),
                dex_sc: Address::zero(),
                staking_sc: Address::zero(),
                nft_marketplace_sc: Address::zero(),
                validity,
            },
        );
        self.config.whitelisted_addresses.push(Vec::new());
        proof {
            assert(self@.whitelisted_addresses =~= old(self)@.whitelisted_addresses.push(
                Seq::empty(),
            ));
            assert(self@ == old(self)@.with_new_subscriber(address, identity_id, validity));
        }
    }

    /// The first step of `subscribe`, taken before the main DAO is asked whether
    /// the caller is a franchise: an inactive platform refuses at once, and then
    /// `subscribe` refuses the same way whatever the DAO would answer, so the
    /// DAO need not be asked.
    pub fn subscribe_precheck(&self) -> (r: Result<(), PlatformError>)
        ensures
            r == if self@.state == State::Active {
                Ok(())
            } else {
                Err(PlatformError::StateInactive)
            },
            r is Err ==> forall|
                caller: Address,
                caller_is_franchise: bool,
                payment: Payment,
                identity_id: Option<u64>,
                now: u64,
            |
                #[trigger] self@.subscribe_step(caller, caller_is_franchise, payment, identity_id, now)
                    == (self@, Err::<MainDAOProxy, PlatformError>(PlatformError::StateInactive)),
    {
        if self.config.state != State::Active {
            return Err(PlatformError::StateInactive);
        }
        Ok(())
    }

    /// The first step of `subscribeFranchise`, taken before the main DAO is
    /// asked for its launchpad: an inactive platform refuses at once, and then
    /// `subscribe_franchise` refuses the same way whatever the launchpad is.
    pub fn subscribe_franchise_precheck(&self) -> (r: Result<(), PlatformError>)
        ensures
            r == if self@.state == State::Active {
                Ok(())
            } else {
                Err(PlatformError::StateInactive)
            },
            r is Err ==> forall|
                caller: Address,
                launchpad: Address,
                franchise_address: Address,
                identity_id: u64,
                now: u64,
            |
                #[trigger] self@.subscribe_franchise_step(
                    caller,
                    launchpad,
                    franchise_address,
                    identity_id,
                    now,
                ) == (self@, Err::<(), PlatformError>(PlatformError::StateInactive)),
    {
        if self.config.state != State::Active {
            return Err(PlatformError::StateInactive);
        }
        Ok(())
    }

    /// `subscribe`: pays for one more subscription period. The payment must be
    /// the subscription fee in the governance token; `caller_is_franchise` is
    /// the main DAO's answer to whether the caller is one of its franchises.
    /// A first subscription needs `identity_id`. On success the payment is to be
    /// handed to the main DAO with the call returned.
    pub fn subscribe(
        &mut self,
        caller: &Address,
        caller_is_franchise: bool,
        payment: Payment,
        identity_id: Option<u64>,
        now: u64,
    ) -> (r: Result<MainDAOProxy, PlatformError>)
        requires
            old(self)@.wf(),
        ensures
            (final(self)@, r) == old(self)@.subscribe_step(
                *caller,
                caller_is_franchise,
                payment,
                identity_id,
                now,
            ),
            final(self)@.wf(),
    {
        if self.config.state != State::Active {
            return Err(PlatformError::StateInactive);
        }
        if caller_is_franchise {
            return Err(PlatformError::NotAllowed);
        }
        if !same_bytes(&payment.token_identifier, &self.config.governance_token) {
            return Err(PlatformError::WrongPaymentToken);
        }
        if !same_amount(&payment.amount, &self.config.subscription_fee) {
            return Err(PlatformError::WrongPaymentAmount);
        }
        let dao = self.config.main_dao.unwrap();
        let period = self.config.subscription_period;
        proof {
            lemma_index_upto(old(self)@.subscribers, old(self)@.subscribers.len() as int, *caller);
        }
        match self.config.get_subscriber_id_by_address(caller) {
            Some(id) => {
                assert(id < self.config.subscribers.len());
                let i = id as usize;
                let subscriber = self.config.subscribers[i];
                let validity = if subscriber.validity < now {
                    now.checked_add(period)
                } else {
                    subscriber.validity.checked_add(period)
                };
                match validity {
                    None => Err(PlatformError::Overflow),
                    Some(v) => {
                        self.config.subscribers.set(i, Subscriber { validity: v, ..subscriber });
                        Ok(MainDAOProxy::AddFunds { dao, payment })
                    },
                }
            },
            None => {
                let identity = match identity_id {
                    None => {
                        return Err(PlatformError::NoDetails);
                    },
                    Some(identity) => identity,
                };
                if self.config.subscribers.len() as u64 == u64::MAX {
                    return Err(PlatformError::Overflow);
                }
                match now.checked_add(period) {
                    None => Err(PlatformError::Overflow),
                    Some(v) => {
                        self.push_subscriber(*caller, identity, v);
                        Ok(MainDAOProxy::AddFunds { dao, payment })
                    },
                }
            },
        }
    }

    /// `changeDetails`: a subscriber changes the identity it registered with.
    pub fn change_details(&mut self, caller: &Address, new_identity_id: u64) -> (r: Result<(), PlatformError>)
        requires
            old(self)@.wf(),
        ensures
            (final(self)@, r) == old(self)@.change_details_step(*caller, new_identity_id),
            final(self)@.wf(),
    {
        if self.config.state != State::Active {
            return Err(PlatformError::StateInactive);
        }
        proof {
            lemma_index_upto(old(self)@.subscribers, old(self)@.subscribers.len() as int, *caller);
        }
        let id = match self.config.get_subscriber_id_by_address(caller) {
            Some(id) => id,
            None => {
                return Err(PlatformError::NotSubscribed);
            },
        };
        assert(id < self.config.subscribers.len());
        let i = id as usize;
        let subscriber = self.config.subscribers[i];
        self.config.subscribers.set(i, Subscriber { identity_id: new_identity_id, ..subscriber });
        Ok(())
    }

    /// `subscribeFranchise`: the main DAO's launchpad subscribes a new franchise,
    /// free of charge, for a fixed period. `launchpad` is the main DAO's answer
    /// to which contract its launchpad is.
    pub fn subscribe_franchise(
        &mut self,
        caller: &Address,
        launchpad: &Address,
        franchise_address: &Address,
        identity_id: u64,
        now: u64,
    ) -> (r: Result<(), PlatformError>)
        requires
            old(self)@.wf(),
        ensures
            (final(self)@, r) == old(self)@.subscribe_franchise_step(
                *caller,
                *launchpad,
                *franchise_address,
                identity_id,
                now,
            ),
            final(self)@.wf(),
    {
        if self.config.state != State::Active {
            return Err(PlatformError::StateInactive);
        }
        if *caller != *launchpad {
            return Err(PlatformError::OnlyLaunchpad);
        }
        if self.config.get_subscriber_id_by_address(franchise_address).is_some() {
            return Err(PlatformError::AlreadySubscribed);
        }
        if self.config.subscribers.len() as u64 == u64::MAX {
            return Err(PlatformError::Overflow);
        }
        match now.checked_add(VALIDITY_FOR_FRANCHISE) {
            None => Err(PlatformError::Overflow),
            Some(v) => {
                self.push_subscriber(*franchise_address, identity_id, v);
                Ok(())
            },
        }
    }

    /// `whitelistAddress`: a subscriber whose subscription is paid at `now` gives
    /// `address` access, within the allowed number of wallets.
    pub fn whitelist_address(&mut self, caller: &Address, address: &Address, now: u64) -> (r: Result<(), PlatformError>)
        requires
            old(self)@.wf(),
        ensures
            (final(self)@, r) == old(self)@.whitelist_address_step(*caller, *address, now),
            final(self)@.wf(),
    {
        if self.config.state != State::Active {
            return Err(PlatformError::StateInactive);
        }
        proof {
            lemma_index_upto(old(self)@.subscribers, old(self)@.subscribers.len() as int, *caller);
        }
        let id = match self.config.get_subscriber_id_by_address(caller) {
            Some(id) => id,
            None => {
                return Err(PlatformError::NotSubscribed);
            },
        };
        assert(id < self.config.subscribers.len());
        let i = id as usize;
        if self.config.subscribers[i].validity <= now {
            return Err(PlatformError::SubscriptionExpired);
        }
        if self.config.whitelisted_addresses[i].len() >= self.config.max_subscriber_addresses {
            return Err(PlatformError::TooManyAddresses);
        }
        if !list_contains(&self.config.whitelisted_addresses[i], address) {
            let mut list: Vec<Address> = Vec::new();
            std::mem::swap(&mut list, &mut self.config.whitelisted_addresses[i]);
            list.push(*address);
            self.config.whitelisted_addresses.set(i, list);
        }
        proof {
            let w = old(self)@.whitelisted_addresses[i as int];
            assert(self@.whitelisted_addresses =~= old(self)@.whitelisted_addresses.update(
                i as int,
                inserted(w, *address),
            ));
            if !w.contains(*address) {
                assert forall|x: int, y: int| 0 <= x < y < w.len() + 1 implies w.push(
                    *address,
                )[x] != w.push(*address)[y] by {
                    if y == w.len() {
                        assert(w[x] != *address);
                    }
                }
            }
        }
        Ok(())
    }

    /// `removeAddress`: a subscriber takes access away from `address`; the last
    /// wallet of its list takes the freed place.
    pub fn remove_address(&mut self, caller: &Address, address: &Address) -> (r: Result<(), PlatformError>)
        requires
            old(self)@.wf(),
        ensures
            (final(self)@, r) == old(self)@.remove_address_step(*caller, *address),
            final(self)@.wf(),
    {
        if self.config.state != State::Active {
            return Err(PlatformError::StateInactive);
        }
        proof {
            lemma_index_upto(old(self)@.subscribers, old(self)@.subscribers.len() as int, *caller);
        }
        let id = match self.config.get_subscriber_id_by_address(caller) {
            Some(id) => id,
            None => {
                return Err(PlatformError::NotSubscribed);
            },
        };
        assert(id < self.config.subscribers.len());
        let i = id as usize;
        let mut list: Vec<Address> = Vec::new();
        std::mem::swap(&mut list, &mut self.config.whitelisted_addresses[i]);
        let ghost w = list@;
        assert(w == old(self)@.whitelisted_addresses[i as int]);
        let n = list.len();
        let mut k: usize = 0;
        while k < n && list[k] != *address
            invariant
                n == list@.len(),
                list@ == w,
                0 <= k <= n,
                position_upto(w, k as int, *address) == -1,
            decreases n - k,
        {
            k = k + 1;
        }
        proof {
            lemma_position_upto(w, n as int, *address);
            if k < n {
                assert(position_upto(w, k + 1, *address) == k);
                lemma_position_kept(w, k + 1, n as int, *address);
            }
            lemma_swap_removed(w, *address);
        }
        if k < n {
            list.swap_remove(k);
        }
        self.config.whitelisted_addresses.set(i, list);
        proof {
            assert(self@.whitelisted_addresses =~= old(self)@.whitelisted_addresses.update(
                i as int,
                swap_removed(w, *address),
            ));
        }
        Ok(())
    }
}

} // verus!
