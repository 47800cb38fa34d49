//! The messages that expose events to streaming clients: keys as base58
//! text, command and action codes as 32-bit integers.

use vstd::prelude::*;
use crate::events;
use crate::pubkey::{Pubkey, base58_of};

verus! {

pub struct PriceEntry {
    pub command_id: u32,
    pub price: u64,
}

pub struct AdminProfileRegistered {
    pub authority: String,
    pub communication_pubkey: String,
    pub ts: i64,
}

pub struct AdminCommKeyUpdated {
    pub authority: String,
    pub new_comm_pubkey: String,
    pub ts: i64,
}

pub struct AdminPricesUpdated {
    pub authority: String,
    pub new_prices: Vec<PriceEntry>,
    pub ts: i64,
}

pub struct AdminFundsWithdrawn {
    pub authority: String,
    pub amount: u64,
    pub destination: String,
    pub ts: i64,
}

pub struct AdminProfileClosed {
    pub authority: String,
    pub ts: i64,
}

pub struct AdminCommandDispatched {
    pub sender: String,
    pub target_user_authority: String,
    pub command_id: u32,
    pub payload: Vec<u8>,
    pub ts: i64,
}

pub struct UserProfileCreated {
    pub authority: String,
    pub target_admin: String,
    pub communication_pubkey: String,
    pub ts: i64,
}

pub struct UserCommKeyUpdated {
    pub authority: String,
    pub new_comm_pubkey: String,
    pub ts: i64,
}

pub struct UserFundsDeposited {
    pub authority: String,
    pub amount: u64,
    pub new_deposit_balance: u64,
    pub ts: i64,
}

pub struct UserFundsWithdrawn {
    pub authority: String,
    pub amount: u64,
    pub destination: String,
    pub new_deposit_balance: u64,
    pub ts: i64,
}

pub struct UserProfileClosed {
    pub authority: String,
    pub ts: i64,
}

pub struct UserCommandDispatched {
    pub sender: String,
    pub target_admin_authority: String,
    pub command_id: u32,
    pub price_paid: u64,
    pub payload: Vec<u8>,
    pub ts: i64,
}

pub struct OffChainActionLogged {
    pub actor: String,
    pub session_id: u64,
    pub action_code: u32,
    pub ts: i64,
}

pub enum ProtoEventKind {
    AdminProfileRegistered(AdminProfileRegistered),
    AdminCommKeyUpdated(AdminCommKeyUpdated),
    AdminPricesUpdated(AdminPricesUpdated),
    AdminFundsWithdrawn(AdminFundsWithdrawn),
    AdminProfileClosed(AdminProfileClosed),
    AdminCommandDispatched(AdminCommandDispatched),
    UserProfileCreated(UserProfileCreated),
    UserCommKeyUpdated(UserCommKeyUpdated),
    UserFundsDeposited(UserFundsDeposited),
    UserFundsWithdrawn(UserFundsWithdrawn),
    UserProfileClosed(UserProfileClosed),
    UserCommandDispatched(UserCommandDispatched),
    OffChainActionLogged(OffChainActionLogged),
}

/// One streamed event; `event` is `None` for an event that has no message.
pub struct ProtoEvent {
    pub event: Option<ProtoEventKind>,
}

/// The text a key is sent as.
pub open spec fn key_text(k: Pubkey) -> Seq<char> {
    base58_of(k.bytes@)
}

/// The price list as sent: the same entries in the same order, command
/// identifiers cut to 32 bits.
pub open spec fn prices_sent(p: Seq<(u64, u64)>, w: Seq<PriceEntry>) -> bool {
    &&& w.len() == p.len()
    &&& forall|i: int| 0 <= i < p.len() ==> (#[trigger] w[i]).command_id == p[i].0 as u32 && w[i].price == p[i].1
}

/// `p` is the message for `e`.
pub open spec fn message_of(e: events::BridgeEvent, p: ProtoEvent) -> bool {
    match e {
        events::BridgeEvent::AdminProfileRegistered(x) =>
            p.event matches Some(ProtoEventKind::AdminProfileRegistered(m))
            && m.authority@ == key_text(x.authority)
            && m.communication_pubkey@ == key_text(x.communication_pubkey)
            && m.ts == x.ts,
        events::BridgeEvent::AdminCommKeyUpdated(x) =>
            p.event matches Some(ProtoEventKind::AdminCommKeyUpdated(m))
            && m.authority@ == key_text(x.authority)
            && m.new_comm_pubkey@ == key_text(x.new_comm_pubkey)
            && m.ts == x.ts,
        events::BridgeEvent::AdminPricesUpdated(x) =>
            p.event matches Some(ProtoEventKind::AdminPricesUpdated(m))
            && m.authority@ == key_text(x.authority)
            && prices_sent(x.new_prices@, m.new_prices@)
            && m.ts == x.ts,
        events::BridgeEvent::AdminFundsWithdrawn(x) =>
            p.event matches Some(ProtoEventKind::AdminFundsWithdrawn(m))
            && m.authority@ == key_text(x.authority)
            && m.amount == x.amount
            && m.destination@ == key_text(x.destination)
            && m.ts == x.ts,
        events::BridgeEvent::AdminProfileClosed(x) =>
            p.event matches Some(ProtoEventKind::AdminProfileClosed(m))
            && m.authority@ == key_text(x.authority)
            && m.ts == x.ts,
        events::BridgeEvent::AdminCommandDispatched(x) =>
            p.event matches Some(ProtoEventKind::AdminCommandDispatched(m))
            && m.sender@ == key_text(x.sender)
            && m.target_user_authority@ == key_text(x.target_user_authority)
            && m.command_id == x.command_id as u32
            && m.payload@ == x.payload@
            && m.ts == x.ts,
        events::BridgeEvent::UserProfileCreated(x) =>
            p.event matches Some(ProtoEventKind::UserProfileCreated(m))
            && m.authority@ == key_text(x.authority)
            && m.target_admin@ == key_text(x.target_admin)
            && m.communication_pubkey@ == key_text(x.communication_pubkey)
            && m.ts == x.ts,
        events::BridgeEvent::UserCommKeyUpdated(x) =>
            p.event matches Some(ProtoEventKind::UserCommKeyUpdated(m))
            && m.authority@ == key_text(x.authority)
            && m.new_comm_pubkey@ == key_text(x.new_comm_pubkey)
            && m.ts == x.ts,
        events::BridgeEvent::UserFundsDeposited(x) =>
            p.event matches Some(ProtoEventKind::UserFundsDeposited(m))
            && m.authority@ == key_text(x.authority)
            && m.amount == x.amount
            && m.new_deposit_balance == x.new_deposit_balance
            && m.ts == x.ts,
        events::BridgeEvent::UserFundsWithdrawn(x) =>
            p.event matches Some(ProtoEventKind::UserFundsWithdrawn(m))
            && m.authority@ == key_text(x.authority)
            && m.amount == x.amount
            && m.destination@ == key_text(x.destination)
            && m.new_deposit_balance == x.new_deposit_balance
            && m.ts == x.ts,
        events::BridgeEvent::UserProfileClosed(x) =>
            p.event matches Some(ProtoEventKind::UserProfileClosed(m))
            && m.authority@ == key_text(x.authority)
            && m.ts == x.ts,
        events::BridgeEvent::UserCommandDispatched(x) =>
            p.event matches Some(ProtoEventKind::UserCommandDispatched(m))
            && m.sender@ == key_text(x.sender)
            && m.target_admin_authority@ == key_text(x.target_admin_authority)
            && m.command_id == x.command_id as u32
            && m.price_paid == x.price_paid
            && m.payload@ == x.payload@
            && m.ts == x.ts,
        events::BridgeEvent::OffChainActionLogged(x) =>
            p.event matches Some(ProtoEventKind::OffChainActionLogged(m))
            && m.actor@ == key_text(x.actor)
            && m.session_id == x.session_id
            && m.action_code == x.action_code as u32
            && m.ts == x.ts,
        events::BridgeEvent::Unknown => p.event is None,
    }
}

fn prices_to_wire(prices: Vec<(u64, u64)>) -> (r: Vec<PriceEntry>)
    ensures
        prices_sent(prices@, r@),
{
    let mut r: Vec<PriceEntry> = Vec::new();
    let mut i: usize = 0;
    while i < prices.len()
        invariant
            i <= prices.len(),
            r@.len() == i,
            forall|k: int| 0 <= k < i ==> (#[trigger] r@[k]).command_id == prices@[k].0 as u32 && r@[k].price == prices@[k].1,
        decreases prices.len() - i,
    {
        let (command_id, price) = prices[i];
        r.push(PriceEntry { command_id: command_id as u32, price });
        i = i + 1;
    }
    r
}

/// Converts an event into the message streamed to clients.
pub fn convert_event_to_proto(event: events::BridgeEvent) -> (r: ProtoEvent)
    ensures
        message_of(event, r),
{
    let kind = match event {
        events::BridgeEvent::AdminProfileRegistered(e) => ProtoEventKind::AdminProfileRegistered(AdminProfileRegistered {
            authority: e.authority.to_string(),
            communication_pubkey: e.communication_pubkey.to_string(),
            ts: e.ts,
        }),
        events::BridgeEvent::AdminCommKeyUpdated(e) => ProtoEventKind::AdminCommKeyUpdated(AdminCommKeyUpdated {
            authority: e.authority.to_string(),
            new_comm_pubkey: e.new_comm_pubkey.to_string(),
            ts: e.ts,
        }),
        events::BridgeEvent::AdminPricesUpdated(e) => ProtoEventKind::AdminPricesUpdated(AdminPricesUpdated {
            authority: e.authority.to_string(),
            new_prices: prices_to_wire(e.new_prices),
            ts: e.ts,
        }),
        events::BridgeEvent::AdminFundsWithdrawn(e) => ProtoEventKind::AdminFundsWithdrawn(AdminFundsWithdrawn {
            authority: e.authority.to_string(),
            amount: e.amount,
            destination: e.destination.to_string(),
            ts: e.ts,
        }),
        events::BridgeEvent::AdminProfileClosed(e) => ProtoEventKind::AdminProfileClosed(AdminProfileClosed {
            authority: e.authority.to_string(),
            ts: e.ts,
        }),
        events::BridgeEvent::AdminCommandDispatched(e) => ProtoEventKind::AdminCommandDispatched(AdminCommandDispatched {
            sender: e.sender.to_string(),
            target_user_authority: e.target_user_authority.to_string(),
            command_id: e.command_id as u32,
            payload: e.payload,
            ts: e.ts,
        }),
        events::BridgeEvent::UserProfileCreated(e) => ProtoEventKind::UserProfileCreated(UserProfileCreated {
            authority: e.authority.to_string(),
            target_admin: e.target_admin.to_string(),
            communication_pubkey: e.communication_pubkey.to_string(),
            ts: e.ts,
        }),
        events::BridgeEvent::UserCommKeyUpdated(e) => ProtoEventKind::UserCommKeyUpdated(UserCommKeyUpdated {
            authority: e.authority.to_string(),
            new_comm_pubkey: e.new_comm_pubkey.to_string(),
            ts: e.ts,
        }),
        events::BridgeEvent::UserFundsDeposited(e) => ProtoEventKind::UserFundsDeposited(UserFundsDeposited {
            authority: e.authority.to_string(),
            amount: e.amount,
            new_deposit_balance: e.new_deposit_balance,
            ts: e.ts,
        }),
        events::BridgeEvent::UserFundsWithdrawn(e) => ProtoEventKind::UserFundsWithdrawn(UserFundsWithdrawn {
            authority: e.authority.to_string(),
            amount: e.amount,
            destination: e.destination.to_string(),
            new_deposit_balance: e.new_deposit_balance,
            ts: e.ts,
        }),
        events::BridgeEvent::UserProfileClosed(e) => ProtoEventKind::UserProfileClosed(UserProfileClosed {
            authority: e.authority.to_string(),
            ts: e.ts,
        }),
        events::BridgeEvent::UserCommandDispatched(e) => ProtoEventKind::UserCommandDispatched(UserCommandDispatched {
            sender: e.sender.to_string(),
            target_admin_authority: e.target_admin_authority.to_string(),
            command_id: e.command_id as u32,
            price_paid: e.price_paid,
            payload: e.payload,
            ts: e.ts,
        }),
        events::BridgeEvent::OffChainActionLogged(e) => ProtoEventKind::OffChainActionLogged(OffChainActionLogged {
            actor: e.actor.to_string(),
            session_id: e.session_id,
            action_code: e.action_code as u32,
            ts: e.ts,
        }),
        events::BridgeEvent::Unknown => return ProtoEvent { event: None },
    };
    ProtoEvent { event: Some(kind) }
}

} // verus!
