use llogin::credentials::{store_new_account, CredentialStore, Credentials};
use llogin::login::{
    classify_login_response, extract_username_from_html, login_form_body,
    logout_form_body_account, logout_form_body_full, logout_succeeded, plan_logout_current,
    plan_lpu_login, plan_lpu_logout, plan_temporary_login, LoginPlan, LoginResponse, LogoutPlan,
    SessionOwner,
};

fn store() -> CredentialStore {
    CredentialStore::from_entries(vec![
        (
            "home".to_string(),
            Credentials { username: "11111".to_string(), password: "pw1".to_string(), is_default: false },
        ),
        (
            "hostel".to_string(),
            Credentials { username: "22222".to_string(), password: "pw2".to_string(), is_default: false },
        ),
    ])
}

#[test]
fn forms() {
    assert_eq!(login_form_body("12345", "p@ss"), "mode=191&username=12345%40lpu.com&password=p@ss");
    assert_eq!(logout_form_body_full("12345@lpu.com"), "mode=193&logout=Logout&username=12345@lpu.com");
    assert_eq!(logout_form_body_account("12345"), "mode=193&logout=Logout&username=12345%40lpu.com");
}

#[test]
fn responses() {
    assert_eq!(classify_login_response("<p>To start surfing, ...</p>"), LoginResponse::LoggedIn);
    assert_eq!(classify_login_response("You have successfully logged in"), LoginResponse::LoggedIn);
    assert_eq!(classify_login_response("Invalid user name"), LoginResponse::InvalidCredentials);
    assert_eq!(classify_login_response("maintenance"), LoginResponse::Unexpected);
    assert!(logout_succeeded("You have successfully logged off"));
    assert!(logout_succeeded("Logout successfully"));
    assert!(!logout_succeeded("error"));
}

#[test]
fn username_from_client_page() {
    let html = r#"<input type="hidden" name="loggedinuser" value="12345@lpu.com">"#;
    assert_eq!(extract_username_from_html(html), Some("12345@lpu.com".to_string()));
    let html2 = r#"<input name='username'  value='67890@lpu.com'>"#;
    assert_eq!(extract_username_from_html(html2), Some("67890@lpu.com".to_string()));
    assert_eq!(extract_username_from_html("<html></html>"), None);
}

#[test]
fn login_plans() {
    let s = store();
    match plan_lpu_login(&s, "home", None) {
        LoginPlan::LogIn { switch: None, body } => {
            assert_eq!(body, "mode=191&username=11111%40lpu.com&password=pw1")
        }
        _ => panic!("expected a plain login"),
    }
    assert!(matches!(plan_lpu_login(&s, "home", Some("11111@lpu.com".to_string())), LoginPlan::AlreadyLoggedIn));
    match plan_lpu_login(&s, "home", Some("22222@lpu.com".to_string())) {
        LoginPlan::LogIn { switch: Some(sw), body } => {
            assert!(matches!(sw.from, SessionOwner::Account(ref id) if id == "hostel"));
            assert_eq!(sw.logout_body, "mode=193&logout=Logout&username=22222@lpu.com");
            assert_eq!(body, "mode=191&username=11111%40lpu.com&password=pw1");
        }
        _ => panic!("expected a switch"),
    }
    match plan_lpu_login(&s, "home", Some("99999@lpu.com".to_string())) {
        LoginPlan::LogIn { switch: Some(sw), .. } => {
            assert!(matches!(sw.from, SessionOwner::Session(ref f) if f == "99999@lpu.com"));
        }
        _ => panic!("expected a switch from a session"),
    }
    assert!(matches!(plan_lpu_login(&s, "nope", None), LoginPlan::NotFound));
    assert!(matches!(plan_lpu_login(&s, "[Temporary Login]", None), LoginPlan::Ignored));
    assert!(matches!(
        plan_temporary_login(&s, "55555", "x", Some("55555@lpu.com".to_string())),
        LoginPlan::AlreadyLoggedIn
    ));
}

#[test]
fn logout_plans() {
    let s = store();
    assert!(matches!(plan_logout_current(&s, None), LogoutPlan::NoSession));
    assert!(matches!(plan_logout_current(&s, Some("22222@lpu.com".to_string())), LogoutPlan::Account(ref id) if id == "hostel"));
    match plan_logout_current(&s, Some("77777@lpu.com".to_string())) {
        LogoutPlan::Temporary { full_username, body } => {
            assert_eq!(full_username, "77777@lpu.com");
            assert_eq!(body, "mode=193&logout=Logout&username=77777@lpu.com");
        }
        _ => panic!("expected a temporary session"),
    }
    assert_eq!(plan_lpu_logout(&s, "home"), Some("mode=193&logout=Logout&username=11111%40lpu.com".to_string()));
    assert_eq!(plan_lpu_logout(&s, "x"), None);
}

#[test]
fn new_account_logs_in_with_its_trimmed_credentials() {
    let mut s = store();
    let id = store_new_account(&mut s, " lab ", " 33333 ", " pw3 ").unwrap();
    match plan_lpu_login(&s, &id, None) {
        LoginPlan::LogIn { switch: None, body } => {
            assert_eq!(body, "mode=191&username=33333%40lpu.com&password=pw3")
        }
        _ => panic!("expected a plain login"),
    }
}
