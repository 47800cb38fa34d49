//! The ledger program's handlers: each validates its accounts, updates the
//! profile accounts and returns the event it emits. Lamport transfers and
//! the rent-exempt check are the ledger runtime's and are not modelled here
//! (so `RentExemptViolation` is never returned); the clock's timestamp is
//! passed in.

use vstd::prelude::*;
use crate::events::{
    AdminFundsWithdrawn, FundsDeposited, FundsWithdrawn, AdminCommKeyUpdated, AdminPricesUpdated, AdminProfileClosed, AdminProfileRegistered,
    CommandDispatched, HttpActionLogged, UserCommKeyUpdated, UserProfileClosed, UserProfileCreated,
};
use crate::pubkey::Pubkey;

verus! {

/// The largest payload a command may carry, in bytes.
pub const MAX_PAYLOAD_SIZE: usize = 1024;

/// Errors of the ledger program.
#[derive(Clone, Copy, Debug, PartialEq, Eq, Structural)]
pub enum BridgeError {
    /// The signer does not match the authority on the account.
    Unauthorized,
    /// The transaction would leave the account below the rent-exempt minimum.
    RentExemptViolation,
    /// The user's deposit does not cover the command's price.
    InsufficientDepositBalance,
    /// The account does not hold enough lamports for the withdrawal.
    InsufficientPDABalance,
    /// The command is not in the admin's price list.
    CommandNotFound,
    /// The payload exceeds the allowed size.
    PayloadTooLarge,
}

/// The on-chain profile of a service (admin): its price list of
/// `(command_id, price)` pairs and the fees it collected.
pub struct AdminProfile {
    pub authority: Pubkey,
    pub communication_pubkey: Pubkey,
    pub prices: Vec<(u64, u64)>,
    pub balance: u64,
}

/// The on-chain profile of a user with one service.
pub struct UserProfile {
    pub authority: Pubkey,
    pub communication_pubkey: Pubkey,
    pub admin_authority_on_creation: Pubkey,
    pub deposit_balance: u64,
}

/// The header of the two-signer account layout: owner, co-signer,
/// communication key and whether the account is open.
#[derive(Clone, Copy, Debug)]
pub struct AccountMeta {
    pub owner: Pubkey,
    pub co_signer: Pubkey,
    pub communication_pubkey: Pubkey,
    pub active: bool,
}

impl AccountMeta {
    /// Marks the account closed.
    pub fn deactivate(&mut self)
        ensures
            *final(self) == (AccountMeta { active: false, ..*old(self) }),
    {
        self.active = false;
    }
}

/// The state of a funding request.
#[derive(Clone, Copy, Debug, PartialEq, Eq, Structural)]
pub enum FundingStatus {
    Pending,
    Approved,
    Rejected,
}

impl FundingStatus {
    /// The code the status is stored as.
    pub fn code(&self) -> (r: u8)
        ensures
            r == match *self {
                FundingStatus::Pending => 0u8,
                FundingStatus::Approved => 1u8,
                FundingStatus::Rejected => 2u8,
            },
    {
        match self {
            FundingStatus::Pending => 0,
            FundingStatus::Approved => 1,
            FundingStatus::Rejected => 2,
        }
    }
}

/// The accounts of `register_admin_profile`.
pub struct RegisterAdminProfile {
    pub authority: Pubkey,
    pub admin_profile: AdminProfile,
}

/// The accounts of `update_admin_profile_prices`.
pub struct UpdateAdminProfilePrices {
    pub authority: Pubkey,
    pub admin_profile: AdminProfile,
}

/// The accounts of `update_admin_comm_key`.
pub struct UpdateAdminCommKey {
    pub authority: Pubkey,
    pub admin_profile: AdminProfile,
}

/// The accounts of `close_admin_profile`.
pub struct CloseAdminProfile {
    pub authority: Pubkey,
    pub admin_profile: AdminProfile,
}

/// The accounts of `create_user_profile`.
pub struct CreateUserProfile {
    pub authority: Pubkey,
    pub user_profile: UserProfile,
}

/// The accounts of `update_user_comm_key`.
pub struct UpdateUserCommKey {
    pub authority: Pubkey,
    pub user_profile: UserProfile,
}

/// The accounts of `close_user_profile`.
pub struct CloseUserProfile {
    pub authority: Pubkey,
    pub user_profile: UserProfile,
}

/// The accounts of `dispatch_command`.
pub struct DispatchCommand {
    pub authority: Pubkey,
    pub user_profile: UserProfile,
    pub admin_profile: AdminProfile,
}

/// The accounts of `admin_profile_withdraw`.
pub struct AdminProfileWithdraw {
    pub authority: Pubkey,
    pub admin_profile: AdminProfile,
    pub destination: Pubkey,
}

/// The accounts of `user_profile_deposit`.
pub struct UserProfileDeposit {
    pub authority: Pubkey,
    pub user_profile: UserProfile,
}

/// The accounts of `user_profile_withdraw`.
pub struct UserProfileWithdraw {
    pub authority: Pubkey,
    pub user_profile: UserProfile,
    pub destination: Pubkey,
}

/// The accounts of `log_action`.
pub struct LogAction {
    pub authority: Pubkey,
}

/// The price of `command_id` in `prices` from index `i` on: the price of
/// its first entry, or 0 when it has none.
pub open spec fn price_from(prices: Seq<(u64, u64)>, command_id: u64, i: int) -> u64
    decreases prices.len() - i,
{
    if i < 0 || i >= prices.len() {
        0
    } else if prices[i].0 == command_id {
        prices[i].1
    } else {
        price_from(prices, command_id, i + 1)
    }
}

/// The price of `command_id`: that of its first entry, 0 for a command not
/// in the list.
pub open spec fn price_of(prices: Seq<(u64, u64)>, command_id: u64) -> u64 {
    price_from(prices, command_id, 0)
}

fn lookup_price(prices: &Vec<(u64, u64)>, command_id: u64) -> (r: u64)
    ensures
        r == price_of(prices@, command_id),
{
    let mut i: usize = 0;
    while i < prices.len()
        invariant
            i <= prices.len(),
            price_from(prices@, command_id, 0) == price_from(prices@, command_id, i as int),
        decreases prices.len() - i,
    {
        if prices[i].0 == command_id {
            return prices[i].1;
        }
        i = i + 1;
    }
    0
}

fn copy_prices(prices: &Vec<(u64, u64)>) -> (r: Vec<(u64, u64)>)
    ensures
        r@ == prices@,
{
    let mut r: Vec<(u64, u64)> = Vec::new();
    let mut i: usize = 0;
    while i < prices.len()
        invariant
            i <= prices.len(),
            r@ == prices@.subrange(0, i as int),
        decreases prices.len() - i,
    {
        r.push(prices[i]);
        i = i + 1;
        proof {
            assert(r@ =~= prices@.subrange(0, i as int));
        }
    }
    proof {
        assert(r@ =~= prices@);
    }
    r
}

fn authorized(recorded: &Pubkey, signer: &Pubkey) -> (r: Result<(), BridgeError>)
    ensures
        r is Ok <==> *recorded == *signer,
        r is Err ==> r == Err::<(), BridgeError>(BridgeError::Unauthorized),
{
    if recorded.same(signer) {
        Ok(())
    } else {
        Err(BridgeError::Unauthorized)
    }
}

/// Initializes the admin profile of `authority`: no prices, zero balance.
pub fn register_admin_profile(ctx: &mut RegisterAdminProfile, communication_pubkey: Pubkey, ts: i64) -> (r: AdminProfileRegistered)
    ensures
        final(ctx).authority == old(ctx).authority,
        final(ctx).admin_profile.authority == old(ctx).authority,
        final(ctx).admin_profile.communication_pubkey == communication_pubkey,
        final(ctx).admin_profile.prices@ == Seq::<(u64, u64)>::empty(),
        final(ctx).admin_profile.balance == 0,
        r == (AdminProfileRegistered { authority: old(ctx).authority, communication_pubkey, ts }),
{
    ctx.admin_profile.authority = ctx.authority;
    ctx.admin_profile.communication_pubkey = communication_pubkey;
    ctx.admin_profile.prices = Vec::new();
    ctx.admin_profile.balance = 0;
    AdminProfileRegistered { authority: ctx.admin_profile.authority, communication_pubkey, ts }
}

/// Replaces the price list, when signed by the profile's authority.
pub fn update_admin_profile_prices(ctx: &mut UpdateAdminProfilePrices, new_prices: Vec<(u64, u64)>, ts: i64) -> (r: Result<AdminPricesUpdated, BridgeError>)
    ensures
        final(ctx).authority == old(ctx).authority,
        r is Ok <==> old(ctx).admin_profile.authority == old(ctx).authority,
        r is Err ==> r == Err::<AdminPricesUpdated, BridgeError>(BridgeError::Unauthorized)
            && final(ctx).admin_profile == old(ctx).admin_profile,
        r matches Ok(e) ==> e.authority == old(ctx).authority && e.new_prices@ == new_prices@ && e.ts == ts
            && final(ctx).admin_profile.prices@ == new_prices@
            && final(ctx).admin_profile.authority == old(ctx).admin_profile.authority
            && final(ctx).admin_profile.communication_pubkey == old(ctx).admin_profile.communication_pubkey
            && final(ctx).admin_profile.balance == old(ctx).admin_profile.balance,
{
    authorized(&ctx.admin_profile.authority, &ctx.authority)?;
    ctx.admin_profile.prices = copy_prices(&new_prices);
    Ok(AdminPricesUpdated { authority: ctx.authority, new_prices, ts })
}

/// Replaces the admin's communication key, when signed by its authority.
pub fn update_admin_comm_key(ctx: &mut UpdateAdminCommKey, new_key: Pubkey, ts: i64) -> (r: Result<AdminCommKeyUpdated, BridgeError>)
    ensures
        final(ctx).authority == old(ctx).authority,
        r is Ok <==> old(ctx).admin_profile.authority == old(ctx).authority,
        r is Err ==> r == Err::<AdminCommKeyUpdated, BridgeError>(BridgeError::Unauthorized)
            && final(ctx).admin_profile == old(ctx).admin_profile,
        r is Ok ==> r == Ok::<AdminCommKeyUpdated, BridgeError>(AdminCommKeyUpdated {
                authority: old(ctx).authority,
                new_comm_pubkey: new_key,
                ts,
            })
            && final(ctx).admin_profile.communication_pubkey == new_key
            && final(ctx).admin_profile.authority == old(ctx).admin_profile.authority
            && final(ctx).admin_profile.prices == old(ctx).admin_profile.prices
            && final(ctx).admin_profile.balance == old(ctx).admin_profile.balance,
{
    authorized(&ctx.admin_profile.authority, &ctx.authority)?;
    ctx.admin_profile.communication_pubkey = new_key;
    Ok(AdminCommKeyUpdated { authority: ctx.authority, new_comm_pubkey: new_key, ts })
}

/// Closes the admin profile, when signed by its authority; the runtime then
/// returns its lamports to the authority.
pub fn close_admin_profile(ctx: &CloseAdminProfile, ts: i64) -> (r: Result<AdminProfileClosed, BridgeError>)
    ensures
        r is Ok <==> ctx.admin_profile.authority == ctx.authority,
        r is Err ==> r == Err::<AdminProfileClosed, BridgeError>(BridgeError::Unauthorized),
        r is Ok ==> r == Ok::<AdminProfileClosed, BridgeError>(AdminProfileClosed { authority: ctx.authority, ts }),
{
    authorized(&ctx.admin_profile.authority, &ctx.authority)?;
    Ok(AdminProfileClosed { authority: ctx.authority, ts })
}

/// Initializes the user profile of `authority` with the service
/// `target_admin`: zero deposit.
pub fn create_user_profile(ctx: &mut CreateUserProfile, target_admin: Pubkey, communication_pubkey: Pubkey, ts: i64) -> (r: UserProfileCreated)
    ensures
        final(ctx).authority == old(ctx).authority,
        final(ctx).user_profile.authority == old(ctx).authority,
        final(ctx).user_profile.deposit_balance == 0,
        final(ctx).user_profile.communication_pubkey == communication_pubkey,
        final(ctx).user_profile.admin_authority_on_creation == old(ctx).user_profile.admin_authority_on_creation,
        r == (UserProfileCreated { authority: old(ctx).authority, target_admin, communication_pubkey, ts }),
{
    ctx.user_profile.authority = ctx.authority;
    ctx.user_profile.deposit_balance = 0;
    ctx.user_profile.communication_pubkey = communication_pubkey;
    UserProfileCreated { authority: ctx.user_profile.authority, target_admin, communication_pubkey, ts }
}

/// Replaces the user's communication key, when signed by its authority.
pub fn update_user_comm_key(ctx: &mut UpdateUserCommKey, _target_admin: Pubkey, new_key: Pubkey, ts: i64) -> (r: Result<UserCommKeyUpdated, BridgeError>)
    ensures
        final(ctx).authority == old(ctx).authority,
        r is Ok <==> old(ctx).user_profile.authority == old(ctx).authority,
        r is Err ==> r == Err::<UserCommKeyUpdated, BridgeError>(BridgeError::Unauthorized)
            && final(ctx).user_profile == old(ctx).user_profile,
        r is Ok ==> r == Ok::<UserCommKeyUpdated, BridgeError>(UserCommKeyUpdated {
                authority: old(ctx).authority,
                new_comm_pubkey: new_key,
                ts,
            })
            && final(ctx).user_profile == (UserProfile { communication_pubkey: new_key, ..old(ctx).user_profile }),
{
    authorized(&ctx.user_profile.authority, &ctx.authority)?;
    ctx.user_profile.communication_pubkey = new_key;
    Ok(UserCommKeyUpdated { authority: ctx.authority, new_comm_pubkey: new_key, ts })
}

/// Closes the user profile, when signed by its authority; the runtime then
/// returns its lamports to the authority.
pub fn close_user_profile(ctx: &CloseUserProfile, _target_admin: Pubkey, ts: i64) -> (r: Result<UserProfileClosed, BridgeError>)
    ensures
        r is Ok <==> ctx.user_profile.authority == ctx.authority,
        r is Err ==> r == Err::<UserProfileClosed, BridgeError>(BridgeError::Unauthorized),
        r is Ok ==> r == Ok::<UserProfileClosed, BridgeError>(UserProfileClosed { authority: ctx.authority, ts }),
{
    authorized(&ctx.user_profile.authority, &ctx.authority)?;
    Ok(UserProfileClosed { authority: ctx.authority, ts })
}

/// A user calls a command of its service. The accounts must belong
/// together (the user signs, the service is the one the profile was opened
/// with); the payload is at most `MAX_PAYLOAD_SIZE` bytes; a priced command
/// moves its price from the user's deposit to the service's balance.
pub fn dispatch_command(ctx: &mut DispatchCommand, command_id: u64, payload: Vec<u8>, ts: i64) -> (r: Result<CommandDispatched, BridgeError>)
    requires
        old(ctx).admin_profile.balance + price_of(old(ctx).admin_profile.prices@, command_id) <= u64::MAX,
    ensures
        ({
            let o = *old(ctx);
            let price = price_of(o.admin_profile.prices@, command_id);
            &&& final(ctx).authority == o.authority
            &&& final(ctx).admin_profile.authority == o.admin_profile.authority
            &&& final(ctx).admin_profile.communication_pubkey == o.admin_profile.communication_pubkey
            &&& final(ctx).admin_profile.prices == o.admin_profile.prices
            &&& final(ctx).user_profile.authority == o.user_profile.authority
            &&& final(ctx).user_profile.communication_pubkey == o.user_profile.communication_pubkey
            &&& final(ctx).user_profile.admin_authority_on_creation == o.user_profile.admin_authority_on_creation
            &&& if o.user_profile.authority != o.authority
                || o.admin_profile.authority != o.user_profile.admin_authority_on_creation {
                r == Err::<CommandDispatched, BridgeError>(BridgeError::Unauthorized)
            } else if payload@.len() > MAX_PAYLOAD_SIZE {
                r == Err::<CommandDispatched, BridgeError>(BridgeError::PayloadTooLarge)
            } else if price > 0 && o.user_profile.deposit_balance < price {
                r == Err::<CommandDispatched, BridgeError>(BridgeError::InsufficientDepositBalance)
            } else {
                &&& r matches Ok(e) && e.sender == o.authority
                    && e.target_admin_authority == o.admin_profile.authority
                    && e.command_id == command_id && e.price_paid == price
                    && e.payload@ == payload@ && e.ts == ts
                &&& final(ctx).user_profile.deposit_balance == o.user_profile.deposit_balance - price
                &&& final(ctx).admin_profile.balance == o.admin_profile.balance + price
            }
            &&& r is Err ==> final(ctx).user_profile.deposit_balance == o.user_profile.deposit_balance
                && final(ctx).admin_profile.balance == o.admin_profile.balance
        }),
{
    authorized(&ctx.user_profile.authority, &ctx.authority)?;
    authorized(&ctx.admin_profile.authority, &ctx.user_profile.admin_authority_on_creation)?;
    if payload.len() > MAX_PAYLOAD_SIZE {
        return Err(BridgeError::PayloadTooLarge);
    }
    let price = lookup_price(&ctx.admin_profile.prices, command_id);
    if price > 0 {
        if ctx.user_profile.deposit_balance < price {
            return Err(BridgeError::InsufficientDepositBalance);
        }
        ctx.user_profile.deposit_balance = ctx.user_profile.deposit_balance - price;
        ctx.admin_profile.balance = ctx.admin_profile.balance + price;
    }
    Ok(CommandDispatched {
        sender: ctx.authority,
        target_admin_authority: ctx.admin_profile.authority,
        command_id,
        price_paid: price,
        payload,
        ts,
    })
}

/// The service withdraws collected fees, when signed by its authority and
/// covered by its balance.
pub fn admin_profile_withdraw(ctx: &mut AdminProfileWithdraw, amount: u64, ts: i64) -> (r: Result<AdminFundsWithdrawn, BridgeError>)
    ensures
        final(ctx).authority == old(ctx).authority,
        final(ctx).destination == old(ctx).destination,
        final(ctx).admin_profile.authority == old(ctx).admin_profile.authority,
        final(ctx).admin_profile.communication_pubkey == old(ctx).admin_profile.communication_pubkey,
        final(ctx).admin_profile.prices == old(ctx).admin_profile.prices,
        if old(ctx).admin_profile.authority != old(ctx).authority {
            r == Err::<AdminFundsWithdrawn, BridgeError>(BridgeError::Unauthorized)
                && final(ctx).admin_profile.balance == old(ctx).admin_profile.balance
        } else if old(ctx).admin_profile.balance < amount {
            r == Err::<AdminFundsWithdrawn, BridgeError>(BridgeError::InsufficientPDABalance)
                && final(ctx).admin_profile.balance == old(ctx).admin_profile.balance
        } else {
            r == Ok::<AdminFundsWithdrawn, BridgeError>(AdminFundsWithdrawn {
                authority: old(ctx).admin_profile.authority,
                amount,
                destination: old(ctx).destination,
                ts,
            })
                && final(ctx).admin_profile.balance == old(ctx).admin_profile.balance - amount
        },
{
    authorized(&ctx.admin_profile.authority, &ctx.authority)?;
    if ctx.admin_profile.balance < amount {
        return Err(BridgeError::InsufficientPDABalance);
    }
    ctx.admin_profile.balance = ctx.admin_profile.balance - amount;
    Ok(AdminFundsWithdrawn { authority: ctx.admin_profile.authority, amount, destination: ctx.destination, ts })
}

/// The user adds `amount` to its deposit, when signed by its authority.
pub fn user_profile_deposit(ctx: &mut UserProfileDeposit, amount: u64, ts: i64) -> (r: Result<FundsDeposited, BridgeError>)
    requires
        old(ctx).user_profile.deposit_balance + amount <= u64::MAX,
    ensures
        final(ctx).authority == old(ctx).authority,
        if old(ctx).user_profile.authority != old(ctx).authority {
            r == Err::<FundsDeposited, BridgeError>(BridgeError::Unauthorized)
                && final(ctx).user_profile == old(ctx).user_profile
        } else {
            &&& final(ctx).user_profile == (UserProfile {
                deposit_balance: (old(ctx).user_profile.deposit_balance + amount) as u64,
                ..old(ctx).user_profile
            })
            &&& r == Ok::<FundsDeposited, BridgeError>(FundsDeposited {
                authority: old(ctx).user_profile.authority,
                amount,
                new_deposit_balance: (old(ctx).user_profile.deposit_balance + amount) as u64,
                ts,
            })
        },
{
    authorized(&ctx.user_profile.authority, &ctx.authority)?;
    ctx.user_profile.deposit_balance = ctx.user_profile.deposit_balance + amount;
    Ok(FundsDeposited {
        authority: ctx.user_profile.authority,
        amount,
        new_deposit_balance: ctx.user_profile.deposit_balance,
        ts,
    })
}

/// The user takes `amount` out of its deposit, when signed by its authority
/// and covered by the deposit.
pub fn user_profile_withdraw(ctx: &mut UserProfileWithdraw, amount: u64, _target_admin: Pubkey, ts: i64) -> (r: Result<FundsWithdrawn, BridgeError>)
    ensures
        final(ctx).authority == old(ctx).authority,
        final(ctx).destination == old(ctx).destination,
        if old(ctx).user_profile.authority != old(ctx).authority {
            r == Err::<FundsWithdrawn, BridgeError>(BridgeError::Unauthorized)
                && final(ctx).user_profile == old(ctx).user_profile
        } else if old(ctx).user_profile.deposit_balance < amount {
            r == Err::<FundsWithdrawn, BridgeError>(BridgeError::InsufficientDepositBalance)
                && final(ctx).user_profile == old(ctx).user_profile
        } else {
            &&& final(ctx).user_profile == (UserProfile {
                deposit_balance: (old(ctx).user_profile.deposit_balance - amount) as u64,
                ..old(ctx).user_profile
            })
            &&& r == Ok::<FundsWithdrawn, BridgeError>(FundsWithdrawn {
                authority: old(ctx).user_profile.authority,
                amount,
                destination: old(ctx).destination,
                new_deposit_balance: (old(ctx).user_profile.deposit_balance - amount) as u64,
                ts,
            })
        },
{
    authorized(&ctx.user_profile.authority, &ctx.authority)?;
    if ctx.user_profile.deposit_balance < amount {
        return Err(BridgeError::InsufficientDepositBalance);
    }
    ctx.user_profile.deposit_balance = ctx.user_profile.deposit_balance - amount;
    Ok(FundsWithdrawn {
        authority: ctx.user_profile.authority,
        amount,
        destination: ctx.destination,
        new_deposit_balance: ctx.user_profile.deposit_balance,
        ts,
    })
}

/// Records an off-chain action of the signer.
pub fn log_action(ctx: &LogAction, session_id: u64, action_code: u16, ts: i64) -> (r: HttpActionLogged)
    ensures
        r == (HttpActionLogged { actor: ctx.authority, session_id, action_code, ts }),
{
    HttpActionLogged { actor: ctx.authority, session_id, action_code, ts }
}

} // verus!
