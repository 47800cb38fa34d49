use w3b2_connector::program::{admin_profile_withdraw, user_profile_deposit, user_profile_withdraw, AdminProfileWithdraw, UserProfileDeposit, UserProfileWithdraw};
use w3b2_connector::events::{AdminCommKeyUpdated, AdminProfileClosed, UserProfileClosed};
use w3b2_connector::program::{
    close_admin_profile, close_user_profile, create_user_profile, dispatch_command, log_action,
    register_admin_profile, update_admin_comm_key, update_admin_profile_prices, update_user_comm_key,
    AdminProfile, BridgeError, CloseAdminProfile, CloseUserProfile, CreateUserProfile, DispatchCommand,
    FundingStatus, LogAction, RegisterAdminProfile, UpdateAdminCommKey, UpdateAdminProfilePrices,
    UpdateUserCommKey, UserProfile,
};
use w3b2_connector::pubkey::Pubkey;

fn key(n: u8) -> Pubkey {
    Pubkey::new_from_array([n; 32])
}

fn blank_admin() -> AdminProfile {
    AdminProfile { authority: key(0), communication_pubkey: key(0), prices: Vec::new(), balance: 0 }
}

fn blank_user() -> UserProfile {
    UserProfile { authority: key(0), communication_pubkey: key(0), admin_authority_on_creation: key(0), deposit_balance: 0 }
}

fn admin_profile(authority: Pubkey, comm: Pubkey) -> AdminProfile {
    let mut ctx = RegisterAdminProfile { authority, admin_profile: blank_admin() };
    register_admin_profile(&mut ctx, comm, 1);
    ctx.admin_profile
}

fn user_profile(authority: Pubkey, comm: Pubkey) -> UserProfile {
    let mut ctx = CreateUserProfile { authority, user_profile: blank_user() };
    create_user_profile(&mut ctx, key(50), comm, 1);
    ctx.user_profile
}

#[test]
fn test_admin_create_profile_success() {
    let (authority, comm_key) = (key(1), key(3));
    let mut stale = blank_admin();
    stale.prices = vec![(1, 5)];
    stale.balance = 9;
    let mut ctx = RegisterAdminProfile { authority, admin_profile: stale };
    let event = register_admin_profile(&mut ctx, comm_key, 10);
    assert_eq!(ctx.admin_profile.authority, authority);
    assert_eq!(ctx.admin_profile.communication_pubkey, comm_key);
    assert!(ctx.admin_profile.prices.is_empty(), "Prices vector should be empty on initialization");
    assert_eq!(ctx.admin_profile.balance, 0, "Balance should be 0 on initialization");
    assert_eq!(event.authority, authority);
    assert_eq!(event.communication_pubkey, comm_key);
    assert_eq!(event.ts, 10);
}

#[test]
fn test_admin_update_comm_key_success() {
    let (authority, initial_comm_key, new_comm_key) = (key(1), key(3), key(4));
    let mut ctx = UpdateAdminCommKey { authority, admin_profile: admin_profile(authority, initial_comm_key) };
    let event: AdminCommKeyUpdated = update_admin_comm_key(&mut ctx, new_comm_key, 11).unwrap();
    assert_eq!(ctx.admin_profile.communication_pubkey, new_comm_key);
    assert_ne!(ctx.admin_profile.communication_pubkey, initial_comm_key);
    assert_eq!(ctx.admin_profile.authority, authority);
    assert_eq!(event.new_comm_pubkey, new_comm_key);
}

#[test]
fn admin_update_comm_key_needs_authority() {
    let (authority, comm) = (key(1), key(3));
    let mut ctx = UpdateAdminCommKey { authority: key(9), admin_profile: admin_profile(authority, comm) };
    assert_eq!(update_admin_comm_key(&mut ctx, key(4), 0).err(), Some(BridgeError::Unauthorized));
    assert_eq!(ctx.admin_profile.communication_pubkey, comm);
}

#[test]
fn test_admin_close_profile_success() {
    let authority = key(1);
    let ctx = CloseAdminProfile { authority, admin_profile: admin_profile(authority, key(3)) };
    let event: AdminProfileClosed = close_admin_profile(&ctx, 12).unwrap();
    assert_eq!(event.authority, authority);
    assert_eq!(event.ts, 12);
    let stranger = CloseAdminProfile { authority: key(8), admin_profile: admin_profile(authority, key(3)) };
    assert_eq!(close_admin_profile(&stranger, 0).err(), Some(BridgeError::Unauthorized));
}

#[test]
fn test_admin_update_prices_success() {
    let authority = key(1);
    let mut ctx = UpdateAdminProfilePrices { authority, admin_profile: admin_profile(authority, key(3)) };
    let new_prices = vec![(1, 1000), (2, 2500)];
    let event = update_admin_profile_prices(&mut ctx, new_prices.clone(), 13).unwrap();
    assert_eq!(ctx.admin_profile.prices, new_prices);
    assert_eq!(event.new_prices, new_prices);
    assert_eq!(ctx.admin_profile.balance, 0);
}

#[test]
fn test_user_create_profile_success() {
    let (wallet, admin, comm_key) = (key(5), key(7), key(8));
    let mut stale = blank_user();
    stale.deposit_balance = 40;
    let mut ctx = CreateUserProfile { authority: wallet, user_profile: stale };
    let event = create_user_profile(&mut ctx, admin, comm_key, 20);
    assert_eq!(ctx.user_profile.authority, wallet);
    assert_eq!(ctx.user_profile.communication_pubkey, comm_key);
    assert_eq!(ctx.user_profile.deposit_balance, 0, "Deposit balance should be 0 on initialization");
    assert_eq!(event.authority, wallet);
    assert_eq!(event.target_admin, admin);
}

#[test]
fn test_user_update_comm_key_success() {
    let (wallet, old_key, new_key) = (key(5), key(8), key(9));
    let mut ctx = UpdateUserCommKey { authority: wallet, user_profile: user_profile(wallet, old_key) };
    let event = update_user_comm_key(&mut ctx, key(7), new_key, 21).unwrap();
    assert_eq!(ctx.user_profile.communication_pubkey, new_key);
    assert_ne!(ctx.user_profile.communication_pubkey, old_key);
    assert_eq!(ctx.user_profile.authority, wallet);
    assert_eq!(ctx.user_profile.deposit_balance, 0);
    assert_eq!(event.authority, wallet);
}

#[test]
fn test_user_close_profile_success() {
    let wallet = key(5);
    let ctx = CloseUserProfile { authority: wallet, user_profile: user_profile(wallet, key(8)) };
    let event: UserProfileClosed = close_user_profile(&ctx, key(7), 22).unwrap();
    assert_eq!(event.authority, wallet);
    let wrong = CloseUserProfile { authority: key(1), user_profile: user_profile(wallet, key(8)) };
    assert_eq!(close_user_profile(&wrong, key(7), 22).err(), Some(BridgeError::Unauthorized));
}

fn dispatch_ctx(deposit: u64) -> DispatchCommand {
    let (user, admin) = (key(5), key(1));
    let mut admin_profile = admin_profile(admin, key(3));
    admin_profile.prices = vec![(7, 100), (8, 0), (7, 999)];
    let mut user_profile = user_profile(user, key(8));
    user_profile.admin_authority_on_creation = admin;
    user_profile.deposit_balance = deposit;
    DispatchCommand { authority: user, user_profile, admin_profile }
}

#[test]
fn dispatch_command_pays_the_first_listed_price() {
    let mut ctx = dispatch_ctx(250);
    let event = dispatch_command(&mut ctx, 7, vec![1, 2], 30).unwrap();
    assert_eq!(event.price_paid, 100);
    assert_eq!(event.sender, key(5));
    assert_eq!(event.target_admin_authority, key(1));
    assert_eq!(ctx.user_profile.deposit_balance, 150);
    assert_eq!(ctx.admin_profile.balance, 100);
    let free = dispatch_command(&mut ctx, 42, vec![], 31).unwrap();
    assert_eq!(free.price_paid, 0);
    assert_eq!(ctx.user_profile.deposit_balance, 150);
}

#[test]
fn dispatch_command_errors() {
    let mut poor = dispatch_ctx(99);
    assert_eq!(dispatch_command(&mut poor, 7, vec![], 0).err(), Some(BridgeError::InsufficientDepositBalance));
    assert_eq!(poor.user_profile.deposit_balance, 99);
    let mut ctx = dispatch_ctx(500);
    assert_eq!(dispatch_command(&mut ctx, 8, vec![0; 1025], 0).err(), Some(BridgeError::PayloadTooLarge));
    assert!(dispatch_command(&mut ctx, 8, vec![0; 1024], 0).is_ok());
    let mut foreign = dispatch_ctx(500);
    foreign.user_profile.admin_authority_on_creation = key(2);
    assert_eq!(dispatch_command(&mut foreign, 7, vec![], 0).err(), Some(BridgeError::Unauthorized));
    let mut impostor = dispatch_ctx(500);
    impostor.authority = key(6);
    assert_eq!(dispatch_command(&mut impostor, 7, vec![], 0).err(), Some(BridgeError::Unauthorized));
}

#[test]
fn log_action_and_funding_codes() {
    let e = log_action(&LogAction { authority: key(4) }, 77, 404, 5);
    assert_eq!((e.actor, e.session_id, e.action_code, e.ts), (key(4), 77, 404, 5));
    assert_eq!(FundingStatus::Pending.code(), 0);
    assert_eq!(FundingStatus::Approved.code(), 1);
    assert_eq!(FundingStatus::Rejected.code(), 2);
}

#[test]
fn deactivate_keeps_other_fields() {
    let mut meta = w3b2_connector::program::AccountMeta { owner: key(1), co_signer: key(2), communication_pubkey: key(3), active: true };
    meta.deactivate();
    assert!(!meta.active);
    assert_eq!((meta.owner, meta.co_signer, meta.communication_pubkey), (key(1), key(2), key(3)));
}

#[test]
fn test_user_deposit_success() {
    let wallet = key(5);
    let mut ctx = UserProfileDeposit { authority: wallet, user_profile: user_profile(wallet, key(8)) };
    let e = user_profile_deposit(&mut ctx, 5000, 3).unwrap();
    assert_eq!(ctx.user_profile.deposit_balance, 5000);
    assert_eq!((e.amount, e.new_deposit_balance, e.authority), (5000, 5000, wallet));
    let mut other = UserProfileDeposit { authority: key(6), user_profile: user_profile(wallet, key(8)) };
    assert_eq!(user_profile_deposit(&mut other, 1, 0).err(), Some(BridgeError::Unauthorized));
}

#[test]
fn test_user_withdraw_success() {
    let wallet = key(5);
    let mut profile = user_profile(wallet, key(8));
    profile.deposit_balance = 5000;
    let mut ctx = UserProfileWithdraw { authority: wallet, user_profile: profile, destination: key(9) };
    let e = user_profile_withdraw(&mut ctx, 1200, key(7), 4).unwrap();
    assert_eq!(ctx.user_profile.deposit_balance, 3800);
    assert_eq!((e.amount, e.new_deposit_balance, e.destination), (1200, 3800, key(9)));
    assert_eq!(user_profile_withdraw(&mut ctx, 3801, key(7), 4).err(), Some(BridgeError::InsufficientDepositBalance));
    assert_eq!(ctx.user_profile.deposit_balance, 3800);
}

#[test]
fn test_admin_withdraw_success() {
    let authority = key(1);
    let mut profile = admin_profile(authority, key(3));
    profile.balance = 700;
    let mut ctx = AdminProfileWithdraw { authority, admin_profile: profile, destination: key(9) };
    let e = admin_profile_withdraw(&mut ctx, 300, 6).unwrap();
    assert_eq!(ctx.admin_profile.balance, 400);
    assert_eq!((e.authority, e.amount, e.destination), (authority, 300, key(9)));
    assert_eq!(admin_profile_withdraw(&mut ctx, 401, 6).err(), Some(BridgeError::InsufficientPDABalance));
    let mut stranger = AdminProfileWithdraw { authority: key(2), admin_profile: admin_profile(authority, key(3)), destination: key(9) };
    assert_eq!(admin_profile_withdraw(&mut stranger, 0, 6).err(), Some(BridgeError::Unauthorized));
}
