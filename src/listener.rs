//! Listener-side classification and lifecycle.
//!
//! A listener receives the events routed to its identity key and splits them
//! into named sub-streams by looking at the event alone: a projection, not a
//! second relevance computation.

use vstd::prelude::*;
use crate::events::BridgeEvent;
use crate::pubkey::Pubkey;

verus! {

/// The sub-streams of a user's listener.
#[derive(Clone, Copy, Debug, PartialEq, Eq, Structural)]
pub enum UserEventCategory {
    /// Events about the user's own profile and actions.
    PersonalEvent,
    /// Commands an admin service sent to the user.
    ServiceInteractionEvent,
}

/// The sub-streams of an admin's listener.
#[derive(Clone, Copy, Debug, PartialEq, Eq, Structural)]
pub enum AdminEventCategory {
    /// Events about the admin's own profile and actions.
    PersonalEvent,
    /// Commands users sent to the admin's service.
    IncomingUserCommand,
    /// Users that opened a profile with the admin's service.
    NewUserProfile,
}

/// Where an event lands for the user `user`; `None` when it belongs to no
/// sub-stream.
pub open spec fn user_category(user: Pubkey, e: BridgeEvent) -> Option<UserEventCategory> {
    match e {
        BridgeEvent::UserProfileCreated(x) => if x.authority == user { Some(UserEventCategory::PersonalEvent) } else { None },
        BridgeEvent::UserCommKeyUpdated(x) => if x.authority == user { Some(UserEventCategory::PersonalEvent) } else { None },
        BridgeEvent::UserFundsDeposited(x) => if x.authority == user { Some(UserEventCategory::PersonalEvent) } else { None },
        BridgeEvent::UserFundsWithdrawn(x) => if x.authority == user { Some(UserEventCategory::PersonalEvent) } else { None },
        BridgeEvent::UserProfileClosed(x) => if x.authority == user { Some(UserEventCategory::PersonalEvent) } else { None },
        BridgeEvent::UserCommandDispatched(x) => if x.sender == user { Some(UserEventCategory::PersonalEvent) } else { None },
        BridgeEvent::OffChainActionLogged(x) => if x.actor == user { Some(UserEventCategory::PersonalEvent) } else { None },
        BridgeEvent::AdminCommandDispatched(x) =>
            if x.target_user_authority == user { Some(UserEventCategory::ServiceInteractionEvent) } else { None },
        _ => None,
    }
}

/// Where an event lands for the admin `admin`; `None` when it belongs to no
/// sub-stream.
pub open spec fn admin_category(admin: Pubkey, e: BridgeEvent) -> Option<AdminEventCategory> {
    match e {
        BridgeEvent::AdminProfileRegistered(x) => if x.authority == admin { Some(AdminEventCategory::PersonalEvent) } else { None },
        BridgeEvent::AdminCommKeyUpdated(x) => if x.authority == admin { Some(AdminEventCategory::PersonalEvent) } else { None },
        BridgeEvent::AdminPricesUpdated(x) => if x.authority == admin { Some(AdminEventCategory::PersonalEvent) } else { None },
        BridgeEvent::AdminFundsWithdrawn(x) => if x.authority == admin { Some(AdminEventCategory::PersonalEvent) } else { None },
        BridgeEvent::AdminProfileClosed(x) => if x.authority == admin { Some(AdminEventCategory::PersonalEvent) } else { None },
        BridgeEvent::AdminCommandDispatched(x) => if x.sender == admin { Some(AdminEventCategory::PersonalEvent) } else { None },
        BridgeEvent::OffChainActionLogged(x) => if x.actor == admin { Some(AdminEventCategory::PersonalEvent) } else { None },
        BridgeEvent::UserCommandDispatched(x) =>
            if x.target_admin_authority == admin { Some(AdminEventCategory::IncomingUserCommand) } else { None },
        BridgeEvent::UserProfileCreated(x) =>
            if x.target_admin == admin { Some(AdminEventCategory::NewUserProfile) } else { None },
        _ => None,
    }
}

fn personal_if(same: bool) -> (r: Option<UserEventCategory>)
    ensures
        r == if same { Some(UserEventCategory::PersonalEvent) } else { None },
{
    if same { Some(UserEventCategory::PersonalEvent) } else { None }
}

fn admin_if(same: bool, c: AdminEventCategory) -> (r: Option<AdminEventCategory>)
    ensures
        r == if same { Some(c) } else { None },
{
    if same { Some(c) } else { None }
}

/// Sorts an event into one of the user's sub-streams.
pub fn classify_for_user(user: &Pubkey, event: &BridgeEvent) -> (r: Option<UserEventCategory>)
    ensures
        r == user_category(*user, *event),
{
    match event {
        BridgeEvent::UserProfileCreated(x) => personal_if(x.authority.same(user)),
        BridgeEvent::UserCommKeyUpdated(x) => personal_if(x.authority.same(user)),
        BridgeEvent::UserFundsDeposited(x) => personal_if(x.authority.same(user)),
        BridgeEvent::UserFundsWithdrawn(x) => personal_if(x.authority.same(user)),
        BridgeEvent::UserProfileClosed(x) => personal_if(x.authority.same(user)),
        BridgeEvent::UserCommandDispatched(x) => personal_if(x.sender.same(user)),
        BridgeEvent::OffChainActionLogged(x) => personal_if(x.actor.same(user)),
        BridgeEvent::AdminCommandDispatched(x) =>
            if x.target_user_authority.same(user) { Some(UserEventCategory::ServiceInteractionEvent) } else { None },
        _ => None,
    }
}

/// Sorts an event into one of the admin's sub-streams.
pub fn classify_for_admin(admin: &Pubkey, event: &BridgeEvent) -> (r: Option<AdminEventCategory>)
    ensures
        r == admin_category(*admin, *event),
{
    let personal = AdminEventCategory::PersonalEvent;
    match event {
        BridgeEvent::AdminProfileRegistered(x) => admin_if(x.authority.same(admin), personal),
        BridgeEvent::AdminCommKeyUpdated(x) => admin_if(x.authority.same(admin), personal),
        BridgeEvent::AdminPricesUpdated(x) => admin_if(x.authority.same(admin), personal),
        BridgeEvent::AdminFundsWithdrawn(x) => admin_if(x.authority.same(admin), personal),
        BridgeEvent::AdminProfileClosed(x) => admin_if(x.authority.same(admin), personal),
        BridgeEvent::AdminCommandDispatched(x) => admin_if(x.sender.same(admin), personal),
        BridgeEvent::OffChainActionLogged(x) => admin_if(x.actor.same(admin), personal),
        BridgeEvent::UserCommandDispatched(x) =>
            admin_if(x.target_admin_authority.same(admin), AdminEventCategory::IncomingUserCommand),
        BridgeEvent::UserProfileCreated(x) =>
            admin_if(x.target_admin.same(admin), AdminEventCategory::NewUserProfile),
        _ => None,
    }
}

/// The lifecycle of a listener.
#[derive(Clone, Copy, Debug, PartialEq, Eq, Structural)]
pub enum ListenerState {
    Created,
    Active,
    /// A send to its channel failed; the dispatcher dropped it.
    Disconnected,
    /// Its consumer asked to stop.
    Unsubscribed,
    /// Final: its registrations are released.
    Terminated,
}

/// What happens to a listener.
#[derive(Clone, Copy, Debug, PartialEq, Eq, Structural)]
pub enum ListenerSignal {
    /// Its registration reached the dispatcher.
    Registered,
    SendFailed,
    Unsubscribe,
    /// Its registrations were released.
    Released,
}

/// The stage of a state: no transition leads to an earlier stage.
pub open spec fn stage(s: ListenerState) -> int {
    match s {
        ListenerState::Created => 0,
        ListenerState::Active => 1,
        ListenerState::Disconnected => 2,
        ListenerState::Unsubscribed => 2,
        ListenerState::Terminated => 3,
    }
}

pub open spec fn next_state_spec(s: ListenerState, signal: ListenerSignal) -> ListenerState {
    match (s, signal) {
        (ListenerState::Created, ListenerSignal::Registered) => ListenerState::Active,
        (ListenerState::Created, ListenerSignal::Unsubscribe) => ListenerState::Unsubscribed,
        (ListenerState::Active, ListenerSignal::SendFailed) => ListenerState::Disconnected,
        (ListenerState::Active, ListenerSignal::Unsubscribe) => ListenerState::Unsubscribed,
        (ListenerState::Disconnected, ListenerSignal::Released) => ListenerState::Terminated,
        (ListenerState::Unsubscribed, ListenerSignal::Released) => ListenerState::Terminated,
        _ => s,
    }
}

/// The lifecycle step: Created, then Active, then Disconnected or
/// Unsubscribed, then Terminated. A signal that does not apply changes
/// nothing, so no state is entered twice and termination is final.
pub fn next_state(s: ListenerState, signal: ListenerSignal) -> (r: ListenerState)
    ensures
        r == next_state_spec(s, signal),
        r == s || stage(r) > stage(s),
        s == ListenerState::Terminated ==> r == ListenerState::Terminated,
{
    match (s, signal) {
        (ListenerState::Created, ListenerSignal::Registered) => ListenerState::Active,
        (ListenerState::Created, ListenerSignal::Unsubscribe) => ListenerState::Unsubscribed,
        (ListenerState::Active, ListenerSignal::SendFailed) => ListenerState::Disconnected,
        (ListenerState::Active, ListenerSignal::Unsubscribe) => ListenerState::Unsubscribed,
        (ListenerState::Disconnected, ListenerSignal::Released) => ListenerState::Terminated,
        (ListenerState::Unsubscribed, ListenerSignal::Released) => ListenerState::Terminated,
        _ => s,
    }
}

} // verus!
