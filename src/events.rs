//! The ledger's events: one struct per state change, and the tagged type
//! that carries any of them together with its place in the ledger.

use vstd::prelude::*;
use crate::pubkey::Pubkey;

verus! {

/// An admin profile was created.
#[derive(Clone, Debug)]
pub struct AdminProfileRegistered {
    pub authority: Pubkey,
    pub communication_pubkey: Pubkey,
    pub ts: i64,
}

/// An admin replaced its price list of `(command_id, price)` pairs.
#[derive(Clone, Debug)]
pub struct AdminPricesUpdated {
    pub authority: Pubkey,
    pub new_prices: Vec<(u64, u64)>,
    pub ts: i64,
}

/// An admin withdrew collected fees.
#[derive(Clone, Debug)]
pub struct AdminFundsWithdrawn {
    pub authority: Pubkey,
    pub amount: u64,
    pub destination: Pubkey,
    pub ts: i64,
}

/// An admin profile was closed.
#[derive(Clone, Debug)]
pub struct AdminProfileClosed {
    pub authority: Pubkey,
    pub ts: i64,
}

/// A user profile linked to an admin service was created.
#[derive(Clone, Debug)]
pub struct UserProfileCreated {
    pub authority: Pubkey,
    pub target_admin: Pubkey,
    pub communication_pubkey: Pubkey,
    pub ts: i64,
}

/// A user deposited lamports into its profile.
#[derive(Clone, Debug)]
pub struct FundsDeposited {
    pub authority: Pubkey,
    pub amount: u64,
    pub new_deposit_balance: u64,
    pub ts: i64,
}

/// A user withdrew lamports from its profile.
#[derive(Clone, Debug)]
pub struct FundsWithdrawn {
    pub authority: Pubkey,
    pub amount: u64,
    pub destination: Pubkey,
    pub new_deposit_balance: u64,
    pub ts: i64,
}

/// A user profile was closed.
#[derive(Clone, Debug)]
pub struct UserProfileClosed {
    pub authority: Pubkey,
    pub ts: i64,
}

/// A user called a command of an admin service.
#[derive(Clone, Debug)]
pub struct CommandDispatched {
    pub sender: Pubkey,
    pub target_admin_authority: Pubkey,
    pub command_id: u64,
    pub price_paid: u64,
    pub payload: Vec<u8>,
    pub ts: i64,
}

/// An admin sent a command to one of its users.
#[derive(Clone, Debug)]
pub struct AdminCommandDispatched {
    pub sender: Pubkey,
    pub target_user_authority: Pubkey,
    pub command_id: u64,
    pub payload: Vec<u8>,
    pub ts: i64,
}

/// An off-chain action was logged for auditing.
#[derive(Clone, Debug)]
pub struct HttpActionLogged {
    pub actor: Pubkey,
    pub session_id: u64,
    pub action_code: u16,
    pub ts: i64,
}

/// An admin rotated its communication key.
#[derive(Clone, Debug)]
pub struct AdminCommKeyUpdated {
    pub authority: Pubkey,
    pub new_comm_pubkey: Pubkey,
    pub ts: i64,
}

/// A user rotated its communication key.
#[derive(Clone, Debug)]
pub struct UserCommKeyUpdated {
    pub authority: Pubkey,
    pub new_comm_pubkey: Pubkey,
    pub ts: i64,
}

/// Any event of the ledger. `Unknown` stands for a variant this library
/// cannot decode; it is routed to nobody.
#[derive(Clone, Debug)]
pub enum BridgeEvent {
    AdminProfileRegistered(AdminProfileRegistered),
    AdminCommKeyUpdated(AdminCommKeyUpdated),
    AdminPricesUpdated(AdminPricesUpdated),
    AdminFundsWithdrawn(AdminFundsWithdrawn),
    AdminProfileClosed(AdminProfileClosed),
    UserProfileCreated(UserProfileCreated),
    UserCommKeyUpdated(UserCommKeyUpdated),
    UserFundsDeposited(FundsDeposited),
    UserFundsWithdrawn(FundsWithdrawn),
    UserProfileClosed(UserProfileClosed),
    UserCommandDispatched(CommandDispatched),
    AdminCommandDispatched(AdminCommandDispatched),
    OffChainActionLogged(HttpActionLogged),
    Unknown,
}

/// An event as read from the ledger: its identifier (unique within the
/// ledger), its position (slot, then index within the slot) and its content.
#[derive(Clone, Debug)]
pub struct SyncedEvent {
    pub id: String,
    pub slot: u64,
    pub index: u32,
    pub event: BridgeEvent,
}

/// Position order: by slot, then by index within the slot.
pub open spec fn position_le(a: SyncedEvent, b: SyncedEvent) -> bool {
    a.slot < b.slot || (a.slot == b.slot && a.index <= b.index)
}

/// The events of `s` stand in non-decreasing position order.
pub open spec fn in_ledger_order(s: Seq<SyncedEvent>) -> bool {
    forall|i: int, j: int| 0 <= i <= j < s.len() ==> position_le(#[trigger] s[i], #[trigger] s[j])
}

/// The identifiers of a sequence of events.
pub open spec fn ids_of(s: Seq<SyncedEvent>) -> Seq<Seq<char>> {
    s.map_values(|e: SyncedEvent| e.id@)
}

} // verus!
