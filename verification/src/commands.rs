//! What each command comes to.
//!
//! `handle_command` turns the parsed command line into the step that the
//! program carries out; the dialogues, file access and portal requests of
//! that step are the caller's business.

use vstd::prelude::*;
use crate::cli::{Cli, Commands};
use crate::credentials::{self, CredentialStore};
use crate::types::LoginAction;

verus! {

/// How a login command logs in.
pub enum LoginRoute {
    /// One-time login, without storing the credentials; the missing ones
    /// are asked for.
    Temporary { username: Option<String>, password: Option<String> },
    /// Login with the stored account.
    WithId(String),
    /// Login with an account chosen from the menu.
    Interactive,
}

/// The step a command comes to.
pub enum Handler {
    /// No command: log in with the default account, or choose one.
    DefaultAction,
    /// Make `set_default_first` (if any) the default account, then log in.
    Login { set_default_first: Option<String>, route: LoginRoute },
    /// Log out the stored account.
    LogoutAccount(String),
    /// Log out the active session.
    LogoutCurrent,
    /// List the stored accounts.
    List,
    /// Remove these accounts.
    RemoveAccounts(Vec<String>),
    /// Remove the accounts chosen from a menu.
    RemoveInteractive,
    /// Update the stored account.
    UpdateAccount(String),
    /// Update the account chosen from the menu.
    UpdateInteractive,
    /// Show the stored account (and its password, on confirmation).
    ShowAccount { account_id: String, show_password: bool },
    /// Show the account chosen from the menu.
    ShowInteractive { show_password: bool },
    /// Leave no default account.
    ClearDefault,
    /// Make the account the default one.
    SetDefault(String),
    /// Choose the default account from the menu.
    DefaultInteractive,
}

/// The step that the command line `cli` comes to.
pub fn handle_command(cli: Cli) -> (h: Handler)
    ensures
        match cli.command {
            None => h is DefaultAction,
            Some(Commands::Login(args)) => h matches Handler::Login { set_default_first, route }
                && (if args.set_default && args.account_id is Some {
                set_default_first == args.account_id
            } else {
                set_default_first is None
            }) && (if args.no_save {
                route matches LoginRoute::Temporary { username, password } && username
                    == args.username && password == args.password
            } else {
                match args.account_id {
                    Some(id) => route matches LoginRoute::WithId(x) && x == id,
                    None => route is Interactive,
                }
            }),
            Some(Commands::Logout { account_id }) => match account_id {
                Some(id) => h matches Handler::LogoutAccount(x) && x == id,
                None => h is LogoutCurrent,
            },
            Some(Commands::List) => h is List,
            Some(Commands::Remove { account_ids }) => if account_ids.len() == 0 {
                h is RemoveInteractive
            } else {
                h matches Handler::RemoveAccounts(x) && x@ == account_ids@
            },
            Some(Commands::Update { account_id }) => match account_id {
                Some(id) => h matches Handler::UpdateAccount(x) && x == id,
                None => h is UpdateInteractive,
            },
            Some(Commands::Show(args)) => match args.account_id {
                Some(id) => h matches Handler::ShowAccount { account_id, show_password }
                    && account_id == id && show_password == args.show_password,
                None => h matches Handler::ShowInteractive { show_password } && show_password
                    == args.show_password,
            },
            Some(Commands::Default { account_id, clear }) => if clear {
                h is ClearDefault
            } else {
                match account_id {
                    Some(id) => h matches Handler::SetDefault(x) && x == id,
                    None => h is DefaultInteractive,
                }
            },
        },
{
    match cli.command {
        None => Handler::DefaultAction,
        Some(Commands::Login(args)) => {
            let set_default_first = if args.set_default && args.account_id.is_some() {
                args.account_id.clone()
            } else {
                None
            };
            let route = if args.no_save {
                LoginRoute::Temporary { username: args.username, password: args.password }
            } else {
                match args.account_id {
                    Some(id) => LoginRoute::WithId(id),
                    None => LoginRoute::Interactive,
                }
            };
            Handler::Login { set_default_first, route }
        },
        Some(Commands::Logout { account_id }) => match account_id {
            Some(id) => Handler::LogoutAccount(id),
            None => Handler::LogoutCurrent,
        },
        Some(Commands::List) => Handler::List,
        Some(Commands::Remove { account_ids }) => if account_ids.len() == 0 {
            Handler::RemoveInteractive
        } else {
            Handler::RemoveAccounts(account_ids)
        },
        Some(Commands::Update { account_id }) => match account_id {
            Some(id) => Handler::UpdateAccount(id),
            None => Handler::UpdateInteractive,
        },
        Some(Commands::Show(args)) => match args.account_id {
            Some(id) => Handler::ShowAccount { account_id: id, show_password: args.show_password },
            None => Handler::ShowInteractive { show_password: args.show_password },
        },
        Some(Commands::Default { account_id, clear }) => if clear {
            Handler::ClearDefault
        } else {
            match account_id {
                Some(id) => Handler::SetDefault(id),
                None => Handler::DefaultInteractive,
            }
        },
    }
}

/// What running without a command does first.
pub enum DefaultStep {
    /// Log in with the default account.
    LogIn(String),
    /// No account is the default one: show the login menu.
    Menu,
}

/// The first step of running without a command: log in with the default
/// account when one is set, else show the login menu.
pub fn default_action_step(store: &CredentialStore) -> (s: DefaultStep)
    ensures
        s matches DefaultStep::LogIn(id) ==> credentials::is_default_lookup(store@, Some(id@)),
        s is Menu ==> credentials::is_default_lookup(store@, None),
        s matches DefaultStep::LogIn(id) ==> exists|k: int|
            0 <= k < store.entries().len() && store.entries()[k].0 == id@
                && store.entries()[k].1.is_default && forall|j: int|
                0 <= j < k ==> !(#[trigger] store.entries()[j]).1.is_default,
{
    match credentials::get_default_account(store) {
        Some(id) => DefaultStep::LogIn(id),
        None => DefaultStep::Menu,
    }
}

/// What a choice in the login menu leads to.
#[derive(Debug, PartialEq, Eq)]
pub enum LoginMenuStep {
    /// Log in with the stored account.
    LogIn(String),
    /// Create an account, then log in with it if the user confirms.
    CreateThenConfirm,
    /// Ask for a username and password and log in without storing them.
    TemporaryLogin,
    /// Stop with this exit status.
    Exit(i32),
}

/// What the choice `action` in the login menu leads to: clearing the
/// default is no login choice and ends with status 1; cancelling ends with
/// status 0.
pub fn login_menu_step(action: LoginAction) -> (s: LoginMenuStep)
    ensures
        match action {
            LoginAction::UseExistingAccount(id) => s == LoginMenuStep::LogIn(id),
            LoginAction::NewAccount => s is CreateThenConfirm,
            LoginAction::TemporaryLogin => s is TemporaryLogin,
            LoginAction::ClearDefaults => s == LoginMenuStep::Exit(1),
            LoginAction::Cancel => s == LoginMenuStep::Exit(0),
        },
{
    match action {
        LoginAction::UseExistingAccount(id) => LoginMenuStep::LogIn(id),
        LoginAction::NewAccount => LoginMenuStep::CreateThenConfirm,
        LoginAction::TemporaryLogin => LoginMenuStep::TemporaryLogin,
        LoginAction::ClearDefaults => LoginMenuStep::Exit(1),
        LoginAction::Cancel => LoginMenuStep::Exit(0),
    }
}

/// What follows the creation of account `new_id` from the login menu:
/// logging in with it when the user confirmed (`proceed`), else nothing.
pub fn after_new_account_step(new_id: String, proceed: bool) -> (r: Option<String>)
    ensures
        proceed ==> r == Some(new_id),
        !proceed ==> r is None,
{
    if proceed {
        Some(new_id)
    } else {
        None
    }
}

/// What logging in with a given identifier leads to.
#[derive(Debug, PartialEq, Eq)]
pub enum IdLoginStep {
    /// The account is stored: log in with it.
    LogIn(String),
    /// No such account: offer to create one under this identifier.
    OfferCreate(String),
}

/// The step of logging in with `account_id`: log in when it is stored,
/// else offer to create it.
pub fn login_with_id_step(store: &CredentialStore, account_id: String) -> (s: IdLoginStep)
    ensures
        store@.dom().contains(account_id@) ==> s == IdLoginStep::LogIn(account_id),
        !store@.dom().contains(account_id@) ==> s == IdLoginStep::OfferCreate(account_id),
{
    if credentials::account_exists(store, account_id.as_str()) {
        IdLoginStep::LogIn(account_id)
    } else {
        IdLoginStep::OfferCreate(account_id)
    }
}

/// What answering the offer to create a missing account leads to: creating
/// it (`None`) when accepted, else ending with status 0.
pub fn create_offer_step(accepted: bool) -> (exit: Option<i32>)
    ensures
        accepted ==> exit is None,
        !accepted ==> exit == Some(0i32),
{
    if accepted {
        None
    } else {
        Some(0)
    }
}

/// What choosing in a menu that asks for a stored account (to log out,
/// update or show) leads to.
#[derive(Debug, PartialEq, Eq)]
pub enum AccountChoiceStep {
    /// Go on with this account.
    Use(String),
    /// Any other choice is invalid there: stop with this exit status.
    Exit(i32),
}

/// The step after a choice in a menu that asks for a stored account: an
/// account goes on; anything else ends with status 1.
pub fn account_choice_step(action: LoginAction) -> (s: AccountChoiceStep)
    ensures
        match action {
            LoginAction::UseExistingAccount(id) => s == AccountChoiceStep::Use(id),
            _ => s == AccountChoiceStep::Exit(1),
        },
{
    match action {
        LoginAction::UseExistingAccount(id) => AccountChoiceStep::Use(id),
        _ => AccountChoiceStep::Exit(1),
    }
}

/// What logging out without naming an account leads to.
#[derive(Debug, PartialEq, Eq)]
pub enum LogoutFallbackStep {
    /// The active session was logged out: done.
    Done,
    /// No session was found: ask whether to log out a stored account.
    AskForAccount,
}

/// The step after trying to log out the active session: done when there
/// was one, else ask whether to log out a stored account.
pub fn logout_fallback_step(logged_out: bool) -> (s: LogoutFallbackStep)
    ensures
        logged_out ==> s == LogoutFallbackStep::Done,
        !logged_out ==> s == LogoutFallbackStep::AskForAccount,
{
    if logged_out {
        LogoutFallbackStep::Done
    } else {
        LogoutFallbackStep::AskForAccount
    }
}

/// What a choice in the default-account menu leads to.
#[derive(Debug, PartialEq, Eq)]
pub enum DefaultMenuStep {
    /// Make this account the default one (then offer to log in with it).
    SetDefault(String),
    /// Leave no default account.
    ClearDefault,
    /// Any other choice is invalid there: stop with this exit status.
    Exit(i32),
}

/// The step after a choice in the default-account menu.
pub fn default_menu_step(action: LoginAction) -> (s: DefaultMenuStep)
    ensures
        match action {
            LoginAction::UseExistingAccount(id) => s == DefaultMenuStep::SetDefault(id),
            LoginAction::ClearDefaults => s == DefaultMenuStep::ClearDefault,
            _ => s == DefaultMenuStep::Exit(1),
        },
{
    match action {
        LoginAction::UseExistingAccount(id) => DefaultMenuStep::SetDefault(id),
        LoginAction::ClearDefaults => DefaultMenuStep::ClearDefault,
        _ => DefaultMenuStep::Exit(1),
    }
}

/// Whether an account's password is shown in plain text: only when it was
/// asked for and the user confirmed; otherwise it is shown as hidden.
pub fn shows_password(show_password: bool, confirmed: bool) -> (b: bool)
    ensures
        b == (show_password && confirmed),
{
    show_password && confirmed
}

} // verus!
