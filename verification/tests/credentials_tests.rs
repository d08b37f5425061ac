use llogin::credentials::{
    account_exists, check_new_account_id, check_renamed_account_id, clear_default_account, find_account_by_username,
    get_default_account, list_account_ids, remove_accounts, set_default_account,
    store_new_account, update_account, CredentialStore, Credentials, DefaultError,
    NewAccountError, UpdateError,
};

fn creds(u: &str, p: &str, d: bool) -> Credentials {
    Credentials { username: u.to_string(), password: p.to_string(), is_default: d }
}

fn sample() -> CredentialStore {
    CredentialStore::from_entries(vec![
        ("home".to_string(), creds("11111", "pw1", false)),
        ("hostel".to_string(), creds("22222", "pw2", true)),
    ])
}

#[test]
fn from_entries_keeps_the_last_of_an_identifier() {
    let s = CredentialStore::from_entries(vec![
        ("a".to_string(), creds("1", "x", false)),
        ("a".to_string(), creds("2", "y", false)),
    ]);
    assert_eq!(s.len(), 1);
    assert_eq!(s.get("a").unwrap().username, "2");
}

#[test]
fn store_new_account_trims_and_validates() {
    let mut s = sample();
    assert_eq!(store_new_account(&mut s, "  lab ", " 33333 ", " secret "), Ok("lab".to_string()));
    let c = s.get("lab").unwrap();
    assert_eq!((c.username.as_str(), c.password.as_str(), c.is_default), ("33333", "secret", false));
    assert!(account_exists(&s, "lab"));
    assert_eq!(store_new_account(&mut s, "   ", "u", "p"), Err(NewAccountError::EmptyId));
    assert_eq!(store_new_account(&mut s, " home", "u", "p"), Err(NewAccountError::IdTaken));
    assert_eq!(store_new_account(&mut s, "new", "  ", "p"), Err(NewAccountError::EmptyUsername));
    assert_eq!(s.len(), 3);
    assert_eq!(check_new_account_id(&s, "lab"), Some(NewAccountError::IdTaken));
    assert_eq!(check_new_account_id(&s, "other"), None);
}

#[test]
fn remove_accounts_reports_each() {
    let mut s = sample();
    let ids = vec!["home".to_string(), "nope".to_string(), "home".to_string()];
    assert_eq!(remove_accounts(&mut s, &ids), vec![true, false, false]);
    assert!(!account_exists(&s, "home"));
    assert!(account_exists(&s, "hostel"));
}

#[test]
fn update_account_renames_and_keeps_password() {
    let mut s = sample();
    assert_eq!(
        update_account(&mut s, "hostel", "dorm".to_string(), " 44444 ", String::new()),
        Ok(true)
    );
    assert!(!account_exists(&s, "hostel"));
    let c = s.get("dorm").unwrap();
    assert_eq!((c.username.as_str(), c.password.as_str(), c.is_default), ("44444", "pw2", true));
    assert_eq!(
        update_account(&mut s, "home", "home".to_string(), "11111", "new".to_string()),
        Ok(false)
    );
    assert_eq!(s.get("home").unwrap().password, "new");
    assert_eq!(
        update_account(&mut s, "gone", "x".to_string(), "u", String::new()),
        Err(UpdateError::NotFound)
    );
    assert_eq!(
        update_account(&mut s, "home", " ".to_string(), "u", String::new()),
        Err(UpdateError::EmptyId)
    );
    assert_eq!(
        update_account(&mut s, "home", "dorm".to_string(), "u", String::new()),
        Err(UpdateError::IdTaken)
    );
    assert_eq!(
        update_account(&mut s, "home", "home".to_string(), " ", String::new()),
        Err(UpdateError::EmptyUsername)
    );
}

#[test]
fn default_account_round_trip() {
    let mut s = sample();
    assert_eq!(get_default_account(&s), Some("hostel".to_string()));
    assert_eq!(set_default_account(&mut s, "home"), Ok(()));
    assert_eq!(get_default_account(&s), Some("home".to_string()));
    assert!(!s.get("hostel").unwrap().is_default);
    assert_eq!(set_default_account(&mut s, "missing"), Err(DefaultError::NotFound));
    assert_eq!(get_default_account(&s), Some("home".to_string()));
    clear_default_account(&mut s);
    assert_eq!(get_default_account(&s), None);
}

#[test]
fn listing_marks_the_current_user() {
    let s = sample();
    let l = list_account_ids(&s, Some("22222@lpu.com".to_string()));
    assert_eq!(l.len(), 2);
    assert_eq!((l[0].account_id.as_str(), l[0].username.as_str(), l[0].is_current), ("home", "11111", false));
    assert_eq!((l[1].account_id.as_str(), l[1].is_current), ("hostel", true));
    assert!(list_account_ids(&s, None).iter().all(|x| !x.is_current));
    assert_eq!(find_account_by_username(&s, "22222"), Some("hostel".to_string()));
    assert_eq!(find_account_by_username(&s, "9"), None);
}

#[test]
fn renamed_identifier_checks() {
    let s = sample();
    assert_eq!(check_renamed_account_id(&s, "home", " home "), None);
    assert_eq!(check_renamed_account_id(&s, "home", "hostel"), Some(UpdateError::IdTaken));
    assert_eq!(check_renamed_account_id(&s, "home", "  "), Some(UpdateError::EmptyId));
    assert_eq!(check_renamed_account_id(&s, "home", "lab"), None);
}

#[test]
fn store_rebuilt_from_its_listing_in_any_order() {
    let s = sample();
    let mut entries: Vec<(String, Credentials)> = s
        .entries_vec()
        .iter()
        .map(|(id, c)| (id.clone(), creds(&c.username, &c.password, c.is_default)))
        .collect();
    entries.reverse();
    let t = CredentialStore::from_entries(entries);
    assert_eq!(t.len(), s.len());
    for (id, c) in s.entries_vec() {
        let d = t.get(id).unwrap();
        assert_eq!((&d.username, &d.password, d.is_default), (&c.username, &c.password, c.is_default));
    }
    let listing = list_account_ids(&s, None);
    assert_ne!(listing[0].account_id, listing[1].account_id);
}
