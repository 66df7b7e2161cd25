//! Plain values that the platform stores and exchanges.

use vstd::prelude::*;

verus! {

/// How long, in seconds, a subscription bought with one payment lasts until the
/// owner sets another period.
pub const DEFAULT_VALIDITY: u64 = 2_592_000;

/// How many wallets each subscriber may whitelist.
pub const DEFAULT_MAX_SUBSCRIBERS: usize = 10;

/// How long, in seconds, the subscription that a franchise receives lasts.
pub const VALIDITY_FOR_FRANCHISE: u64 = 31_536_000;

/// A 32-byte account or contract address.
#[derive(Clone, Copy, Debug)]
pub struct Address {
    pub bytes: [u8; 32],
}

impl Address {
    /// The all-zero address, which stands for "no contract deployed yet".
    pub open spec fn null() -> Address {
        Address { bytes: vstd::array::spec_array_fill_for_copy_type::<u8, 32>(0u8) }
    }

    /// Builds the all-zero address.
    pub fn zero() -> (r: Address)
        ensures
            r == Address::null(),
    {
        Address { bytes: [0u8; 32] }
    }

    /// Builds an address from its 32 bytes.
    pub fn new(bytes: [u8; 32]) -> (r: Address)
        ensures
            r.bytes == bytes,
    {
        Address { bytes }
    }
}

impl PartialEq for Address {
    fn eq(&self, other: &Self) -> (r: bool) {
        let mut i: usize = 0;
        while i < 32
            invariant
                0 <= i <= 32,
                forall|j: int| 0 <= j < i ==> self.bytes@[j] == other.bytes@[j],
            decreases 32 - i,
        {
            if self.bytes[i] != other.bytes[i] {
                return false;
            }
            i = i + 1;
        }
        proof {
            assert(self.bytes =~= other.bytes);
        }
        true
    }
}

impl vstd::std_specs::cmp::PartialEqSpecImpl for Address {
    open spec fn obeys_eq_spec() -> bool {
        true
    }

    open spec fn eq_spec(&self, other: &Self) -> bool {
        *self == *other
    }
}

impl Eq for Address {}

/// Whether the platform accepts subscriptions.
#[derive(Clone, Copy, Debug, PartialEq, Eq, Structural)]
pub enum State {
    Inactive,
    Active,
}

/// A subscriber of the platform: a school, a company or a franchise.
#[derive(Clone, Copy, Debug, PartialEq, Eq)]
pub struct Subscriber {
    /// Position of the subscriber in the order of subscription, from 0.
    pub id: u64,
    /// The wallet that pays for the subscription.
    pub address: Address,
    /// The digital identity the subscriber registered with.
    pub identity_id: u64,
    pub launchpad_sc: Address,
    pub dex_sc: Address,
    pub staking_sc: Address,
    pub nft_marketplace_sc: Address,
    /// Timestamp, in seconds, until which the subscription is paid.
    pub validity: u64,
}

/// A single token transfer that came with a call.
///
/// `amount` is the big-endian byte string of the amount; leading zero bytes do
/// not change its value.
#[derive(Clone, Debug, PartialEq, Eq)]
pub struct Payment {
    pub token_identifier: Vec<u8>,
    pub token_nonce: u64,
    pub amount: Vec<u8>,
}

/// A summary of the platform's settings and of its subscribers.
#[derive(Clone, Debug, PartialEq, Eq)]
pub struct PlatformInfo {
    pub state: State,
    pub governance_token: Vec<u8>,
    pub subscription_fee: Vec<u8>,
    pub subscription_period: u64,
    pub max_subscriber_addresses: usize,
    pub subscribers_count: u64,
    pub active_subscribers_count: u64,
    pub whitelisted_wallets_count: u64,
    pub active_whitelisted_wallets_count: u64,
}

/// Why the platform refuses a call. A refused call changes nothing.
#[derive(Clone, Copy, Debug, PartialEq, Eq, Structural)]
pub enum PlatformError {
    /// The endpoint is reserved to the owner of the contract.
    OnlyOwner,
    /// The platform is not accepting calls.
    StateInactive,
    /// The platform cannot be activated before its main DAO is known.
    DaoNotSet,
    /// Franchises do not subscribe by payment.
    NotAllowed,
    WrongPaymentToken,
    WrongPaymentAmount,
    /// A first subscription must say which identity it is for.
    NoDetails,
    NotSubscribed,
    /// Only the launchpad of the main DAO subscribes franchises.
    OnlyLaunchpad,
    AlreadySubscribed,
    SubscriptionExpired,
    TooManyAddresses,
    NotWhitelisted,
    /// A timestamp or an identifier would leave the range of `u64`.
    Overflow,
}

/// A call that the platform asks to be made on its main DAO contract.
#[derive(Clone, Debug, PartialEq, Eq)]
pub enum MainDAOProxy {
    /// Hand the payment over to the DAO's treasury (`addFunds`).
    AddFunds { dao: Address, payment: Payment },
    /// Ask the DAO for its governance token (`getGovernanceToken`); the answer
    /// goes to `ConfigModule::receive_governance_token`.
    GovernanceToken { dao: Address },
}

} // verus!
