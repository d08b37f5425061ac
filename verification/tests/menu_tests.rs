use llogin::cli::{Cli, Commands, LoginArgs, ShowArgs};
use llogin::commands::{
    account_choice_step, after_new_account_step, create_offer_step, default_action_step,
    default_menu_step, handle_command, login_menu_step, login_with_id_step, logout_fallback_step,
    shows_password, AccountChoiceStep, DefaultMenuStep, DefaultStep, Handler, IdLoginStep,
    LoginMenuStep, LoginRoute, LogoutFallbackStep,
};
use llogin::credentials::{CredentialStore, Credentials};
use llogin::dialogues::{account_ids, action_for_selection, menu_entries, selected_account_ids};
use llogin::types::{LoginAction, SelectionContext};

fn store() -> CredentialStore {
    CredentialStore::from_entries(vec![
        (
            "home".to_string(),
            Credentials { username: "1".to_string(), password: "a".to_string(), is_default: true },
        ),
        (
            "lab".to_string(),
            Credentials { username: "2".to_string(), password: "b".to_string(), is_default: false },
        ),
    ])
}

#[test]
fn menus_by_context() {
    let s = store();
    assert_eq!(
        menu_entries(&s, SelectionContext::Login),
        vec!["home (default)", "lab", "[New Account]", "[Temporary Login]"]
    );
    assert_eq!(menu_entries(&s, SelectionContext::Default), vec!["home (default)", "lab", "[Clear Defaults]"]);
    assert_eq!(menu_entries(&s, SelectionContext::Other), vec!["home (default)", "lab"]);
    let empty = CredentialStore::new();
    assert!(menu_entries(&empty, SelectionContext::Default).is_empty());
}

#[test]
fn choices() {
    let labels = menu_entries(&store(), SelectionContext::Login);
    assert_eq!(action_for_selection(&labels, Some(0)), LoginAction::UseExistingAccount("home".to_string()));
    assert_eq!(action_for_selection(&labels, Some(1)), LoginAction::UseExistingAccount("lab".to_string()));
    assert_eq!(action_for_selection(&labels, Some(2)), LoginAction::NewAccount);
    assert_eq!(action_for_selection(&labels, Some(3)), LoginAction::TemporaryLogin);
    assert_eq!(action_for_selection(&labels, None), LoginAction::Cancel);
    let d = menu_entries(&store(), SelectionContext::Default);
    assert_eq!(action_for_selection(&d, Some(2)), LoginAction::ClearDefaults);
}

#[test]
fn removal_menu() {
    let ids = account_ids(&store());
    assert_eq!(ids, vec!["home", "lab"]);
    assert_eq!(selected_account_ids(&ids, &vec![1, 0]), vec!["lab", "home"]);
}

#[test]
fn commands_map_to_steps() {
    assert!(matches!(handle_command(Cli { command: None }), Handler::DefaultAction));
    let login = LoginArgs {
        account_id: Some("home".to_string()),
        no_save: false,
        username: None,
        password: None,
        set_default: true,
    };
    match handle_command(Cli { command: Some(Commands::Login(login)) }) {
        Handler::Login { set_default_first: Some(d), route: LoginRoute::WithId(id) } => {
            assert_eq!((d.as_str(), id.as_str()), ("home", "home"));
        }
        _ => panic!("expected a login with id"),
    }
    let temp = LoginArgs {
        account_id: None,
        no_save: true,
        username: Some("u".to_string()),
        password: None,
        set_default: true,
    };
    assert!(matches!(
        handle_command(Cli { command: Some(Commands::Login(temp)) }),
        Handler::Login { set_default_first: None, route: LoginRoute::Temporary { username: Some(_), password: None } }
    ));
    assert!(matches!(
        handle_command(Cli { command: Some(Commands::Remove { account_ids: vec![] }) }),
        Handler::RemoveInteractive
    ));
    assert!(matches!(
        handle_command(Cli { command: Some(Commands::Default { account_id: Some("x".to_string()), clear: true }) }),
        Handler::ClearDefault
    ));
    assert!(matches!(
        handle_command(Cli { command: Some(Commands::Show(ShowArgs { account_id: None, show_password: true })) }),
        Handler::ShowInteractive { show_password: true }
    ));
    assert!(matches!(
        handle_command(Cli { command: Some(Commands::Logout { account_id: None }) }),
        Handler::LogoutCurrent
    ));
}

#[test]
fn running_without_a_command() {
    let s = store();
    match default_action_step(&s) {
        DefaultStep::LogIn(id) => assert_eq!(id, "home"),
        DefaultStep::Menu => panic!("a default account is set"),
    }
    assert!(matches!(default_action_step(&CredentialStore::new()), DefaultStep::Menu));
    assert_eq!(
        login_menu_step(LoginAction::UseExistingAccount("lab".to_string())),
        LoginMenuStep::LogIn("lab".to_string())
    );
    assert_eq!(login_menu_step(LoginAction::NewAccount), LoginMenuStep::CreateThenConfirm);
    assert_eq!(login_menu_step(LoginAction::TemporaryLogin), LoginMenuStep::TemporaryLogin);
    assert_eq!(login_menu_step(LoginAction::ClearDefaults), LoginMenuStep::Exit(1));
    assert_eq!(login_menu_step(LoginAction::Cancel), LoginMenuStep::Exit(0));
    assert_eq!(after_new_account_step("lab".to_string(), true), Some("lab".to_string()));
    assert_eq!(after_new_account_step("lab".to_string(), false), None);
}

#[test]
fn removal_choices_do_not_repeat() {
    let ids = account_ids(&store());
    let chosen = selected_account_ids(&ids, &vec![0, 1]);
    assert_ne!(chosen[0], chosen[1]);
}

#[test]
fn other_command_steps() {
    let s = store();
    assert_eq!(login_with_id_step(&s, "lab".to_string()), IdLoginStep::LogIn("lab".to_string()));
    assert_eq!(login_with_id_step(&s, "x".to_string()), IdLoginStep::OfferCreate("x".to_string()));
    assert_eq!(create_offer_step(true), None);
    assert_eq!(create_offer_step(false), Some(0));
    assert_eq!(
        account_choice_step(LoginAction::UseExistingAccount("lab".to_string())),
        AccountChoiceStep::Use("lab".to_string())
    );
    assert_eq!(account_choice_step(LoginAction::NewAccount), AccountChoiceStep::Exit(1));
    assert_eq!(account_choice_step(LoginAction::Cancel), AccountChoiceStep::Exit(1));
    assert_eq!(logout_fallback_step(true), LogoutFallbackStep::Done);
    assert_eq!(logout_fallback_step(false), LogoutFallbackStep::AskForAccount);
    assert_eq!(
        default_menu_step(LoginAction::UseExistingAccount("home".to_string())),
        DefaultMenuStep::SetDefault("home".to_string())
    );
    assert_eq!(default_menu_step(LoginAction::ClearDefaults), DefaultMenuStep::ClearDefault);
    assert_eq!(default_menu_step(LoginAction::TemporaryLogin), DefaultMenuStep::Exit(1));
    assert!(shows_password(true, true));
    assert!(!shows_password(true, false));
    assert!(!shows_password(false, true));
}
