//! Logging in to and out of the LPU WiFi portal.
//!
//! The portal is driven by form posts; what is posted, and what its answers
//! mean, is decided here. Sending the posts and reading the answers is the
//! caller's business: the `plan_*` functions say what to send, given the
//! stored accounts and the user name of the session that is active now.

use vstd::prelude::*;
use crate::credentials::{self, CredentialStore};
use crate::text;

verus! {

broadcast use vstd::string::group_string_axioms;

/// The pattern that finds the logged-in user on the portal's client page.
pub const LOGGED_IN_USER_PATTERN: &'static str = r#"name=["']?loggedinuser["']?\s+value=["']([^"']+)"#;

/// The pattern tried when the first one finds nothing.
pub const USERNAME_PATTERN: &'static str = r#"name=["']?username["']?\s+value=["']([^"']+)"#;

/// The text of capture group 1 of the first match of the regular expression
/// `pattern` in `haystack`, as the `regex` crate computes it; `None` when
/// the pattern does not compile, does not match, or the group takes no part
/// in the match.
pub uninterp spec fn regex_capture_group1(pattern: Seq<char>, haystack: Seq<char>) -> Option<
    Seq<char>,
>;

/// Trusted: compiles `pattern` with `regex::Regex::new`, runs
/// `Regex::captures` on `haystack` and takes group 1 (`Captures::get(1)`,
/// `Match::as_str`). The contract claims only that the result is the named
/// function of the pattern and the haystack: it depends on nothing else.
#[verifier::external_body]
fn first_capture(pattern: &str, haystack: &str) -> (r: Option<String>)
    ensures
        text::opt_view(r) == regex_capture_group1(pattern@, haystack@),
{
    match regex::Regex::new(pattern) {
        Ok(re) => match re.captures(haystack) {
            Some(caps) => match caps.get(1) {
                Some(m) => Some(m.as_str().to_string()),
                None => None,
            },
            None => None,
        },
        Err(_) => None,
    }
}

/// The user name that the portal's client page shows as logged in: the one
/// after `loggedinuser`, else the one after `username`.
pub open spec fn username_in_page(html: Seq<char>) -> Option<Seq<char>> {
    match regex_capture_group1(LOGGED_IN_USER_PATTERN@, html) {
        Some(u) => Some(u),
        None => regex_capture_group1(USERNAME_PATTERN@, html),
    }
}

/// Extracts the logged-in user name from the portal's client page.
pub fn extract_username_from_html(html: &str) -> (r: Option<String>)
    ensures
        text::opt_view(r) == username_in_page(html@),
{
    match first_capture(LOGGED_IN_USER_PATTERN, html) {
        Some(u) => Some(u),
        None => first_capture(USERNAME_PATTERN, html),
    }
}

/// The form that logs `username` (without "@lpu.com") in with `password`.
pub open spec fn login_form(username: Seq<char>, password: Seq<char>) -> Seq<char> {
    "mode=191&username="@ + username + "%40lpu.com&password="@ + password
}

/// The form that logs out the session of the full user name `full_username`.
pub open spec fn logout_form_full(full_username: Seq<char>) -> Seq<char> {
    "mode=193&logout=Logout&username="@ + full_username
}

/// The form that logs out `username` (without "@lpu.com").
pub open spec fn logout_form_account(username: Seq<char>) -> Seq<char> {
    "mode=193&logout=Logout&username="@ + username + "%40lpu.com"@
}

/// The login form for `username` and `password`, sent as they are.
pub fn login_form_body(username: &str, password: &str) -> (r: String)
    ensures
        r@ == login_form(username@, password@),
        r@ == "mode=191&username="@ + username@ + "%40lpu.com&password="@ + password@,
{
    let mut s = String::from_str("mode=191&username=");
    s.append(username);
    s.append("%40lpu.com&password=");
    s.append(password);
    s
}

/// The logout form for the session of `full_username`.
pub fn logout_form_body_full(full_username: &str) -> (r: String)
    ensures
        r@ == logout_form_full(full_username@),
        r@ == "mode=193&logout=Logout&username="@ + full_username@,
{
    let mut s = String::from_str("mode=193&logout=Logout&username=");
    s.append(full_username);
    s
}

/// The logout form for `username` (without "@lpu.com").
pub fn logout_form_body_account(username: &str) -> (r: String)
    ensures
        r@ == logout_form_account(username@),
        r@ == "mode=193&logout=Logout&username="@ + username@ + "%40lpu.com"@,
{
    let mut s = String::from_str("mode=193&logout=Logout&username=");
    s.append(username);
    s.append("%40lpu.com");
    s
}

/// What the portal's answer to a login form says.
#[derive(Clone, Copy, Debug, PartialEq, Eq)]
pub enum LoginResponse {
    LoggedIn,
    InvalidCredentials,
    Unexpected,
}

/// The meaning of the portal's answer `text` to a login form.
pub open spec fn login_response_of(text: Seq<char>) -> LoginResponse {
    if text::contains(text, "To start surfing"@) || text::contains(
        text,
        "You have successfully logged in"@,
    ) {
        LoginResponse::LoggedIn
    } else if text::contains(text, "Invalid user"@) {
        LoginResponse::InvalidCredentials
    } else {
        LoginResponse::Unexpected
    }
}

/// Reads the portal's answer to a login form.
pub fn classify_login_response(text: &str) -> (r: LoginResponse)
    ensures
        r == login_response_of(text@),
        text::contains(text@, "To start surfing"@) || text::contains(
            text@,
            "You have successfully logged in"@,
        ) ==> r == LoginResponse::LoggedIn,
        !text::contains(text@, "To start surfing"@) && !text::contains(
            text@,
            "You have successfully logged in"@,
        ) && text::contains(text@, "Invalid user"@) ==> r == LoginResponse::InvalidCredentials,
        !text::contains(text@, "To start surfing"@) && !text::contains(
            text@,
            "You have successfully logged in"@,
        ) && !text::contains(text@, "Invalid user"@) ==> r == LoginResponse::Unexpected,
{
    if text::str_contains(text, "To start surfing") || text::str_contains(
        text,
        "You have successfully logged in",
    ) {
        LoginResponse::LoggedIn
    } else if text::str_contains(text, "Invalid user") {
        LoginResponse::InvalidCredentials
    } else {
        LoginResponse::Unexpected
    }
}

/// Whether the portal's answer `text` to a logout form reports success.
pub open spec fn logout_success(text: Seq<char>) -> bool {
    text::contains(text, "successfully logged off"@) || text::contains(
        text,
        "logged out successfully"@,
    ) || text::contains(text, "Logout successfully"@)
}

/// Whether the portal's answer to a logout form reports success.
pub fn logout_succeeded(text: &str) -> (b: bool)
    ensures
        b == logout_success(text@),
        b <==> text::contains(text@, "successfully logged off"@) || text::contains(
            text@,
            "logged out successfully"@,
        ) || text::contains(text@, "Logout successfully"@),
{
    text::str_contains(text, "successfully logged off") || text::str_contains(
        text,
        "logged out successfully",
    ) || text::str_contains(text, "Logout successfully")
}

/// Whose session is active when another login is asked for.
pub enum SessionOwner {
    /// A stored account, by identifier.
    Account(String),
    /// A login that no stored account matches, by full user name.
    Session(String),
}

/// Ending the active session before a login: whose it is, and the form
/// that logs it out.
pub struct Switch {
    pub from: SessionOwner,
    pub logout_body: String,
}

/// What a login request comes to.
pub enum LoginPlan {
    /// The account is not stored.
    NotFound,
    /// The temporary-login entry of the account menu was asked for by
    /// name: nothing is done.
    Ignored,
    /// The session already belongs to this user.
    AlreadyLoggedIn,
    /// Log in by posting `body`, after ending the active session if
    /// `switch` says so.
    LogIn { switch: Option<Switch>, body: String },
}

/// Whether `sw` ends the session of `full_username`, naming the first
/// stored account (among `entries`, in listing order) with its username or,
/// when none has it, the session.
pub open spec fn is_switch_from(
    entries: Seq<credentials::EntryView>,
    full_username: Seq<char>,
    sw: Switch,
) -> bool {
    let user = credentials::session_username(full_username);
    &&& sw.logout_body@ == logout_form_full(full_username)
    &&& match sw.from {
        SessionOwner::Account(id) => credentials::first_account_of_user(entries, user) == Some(
            id@,
        ),
        SessionOwner::Session(f) => f@ == full_username && credentials::first_account_of_user(
            entries,
            user,
        ) is None,
    }
}

/// Whether `plan` logs in `username` with `password`, the active session
/// being that of `current_user` (if any).
pub open spec fn is_login_plan(
    entries: Seq<credentials::EntryView>,
    username: Seq<char>,
    password: Seq<char>,
    current_user: Option<String>,
    plan: LoginPlan,
) -> bool {
    match current_user {
        None => plan matches LoginPlan::LogIn { switch, body } && switch is None && body@
            == login_form(username, password),
        Some(full) => if credentials::session_username(full@) == username {
            plan is AlreadyLoggedIn
        } else {
            &&& plan matches LoginPlan::LogIn { switch, body }
            &&& body@ == login_form(username, password)
            &&& switch matches Some(sw)
            &&& is_switch_from(entries, full@, sw)
        },
    }
}

fn switch_from(store: &CredentialStore, full_username: &str) -> (sw: Switch)
    ensures
        is_switch_from(store.entries(), full_username@, sw),
{
    let user = text::trim_end_matches_str(full_username, "@lpu.com");
    let from = match credentials::find_account_by_username(store, user.as_str()) {
        Some(id) => SessionOwner::Account(id),
        None => SessionOwner::Session(String::from_str(full_username)),
    };
    Switch { from, logout_body: logout_form_body_full(full_username) }
}

fn plan_login_as(
    store: &CredentialStore,
    username: &str,
    password: &str,
    current_user: Option<String>,
) -> (plan: LoginPlan)
    ensures
        is_login_plan(store.entries(), username@, password@, current_user, plan),
{
    match current_user {
        None => LoginPlan::LogIn { switch: None, body: login_form_body(username, password) },
        Some(full) => {
            let user = text::trim_end_matches_str(full.as_str(), "@lpu.com");
            if text::str_eq(user.as_str(), username) {
                LoginPlan::AlreadyLoggedIn
            } else {
                LoginPlan::LogIn {
                    switch: Some(switch_from(store, full.as_str())),
                    body: login_form_body(username, password),
                }
            }
        },
    }
}

/// What logging in with stored account `account_id` comes to, the active
/// session being that of `current_user` (if any): the account's
/// credentials are posted, after the active session is ended when it is
/// another user's.
pub fn plan_lpu_login(store: &CredentialStore, account_id: &str, current_user: Option<String>) -> (plan: LoginPlan)
    ensures
        !store@.dom().contains(account_id@) ==> (if account_id@ == "[Temporary Login]"@ {
            plan is Ignored
        } else {
            plan is NotFound
        }),
        store@.dom().contains(account_id@) ==> is_login_plan(
            store.entries(),
            store@[account_id@].username,
            store@[account_id@].password,
            current_user,
            plan,
        ),
{
    match store.get(account_id) {
        None => if text::str_eq(account_id, "[Temporary Login]") {
            LoginPlan::Ignored
        } else {
            LoginPlan::NotFound
        },
        Some(c) => plan_login_as(store, c.username.as_str(), c.password.as_str(), current_user),
    }
}

/// What a one-time login with `username` and `password` comes to, the
/// active session being that of `current_user` (if any).
pub fn plan_temporary_login(
    store: &CredentialStore,
    username: &str,
    password: &str,
    current_user: Option<String>,
) -> (plan: LoginPlan)
    ensures
        is_login_plan(store.entries(), username@, password@, current_user, plan),
{
    plan_login_as(store, username, password, current_user)
}

/// What logging out the active session comes to.
pub enum LogoutPlan {
    /// No session is active.
    NoSession,
    /// The session belongs to this stored account: log it out as such.
    Account(String),
    /// The session is a temporary login: post `body` to end it.
    Temporary { full_username: String, body: String },
}

/// What logging out the active session (of `current_user`, if any) comes
/// to: a session of a stored account's username is logged out as that
/// account, any other by its full user name.
pub fn plan_logout_current(store: &CredentialStore, current_user: Option<String>) -> (plan: LogoutPlan)
    ensures
        current_user is None ==> plan is NoSession,
        current_user matches Some(full) ==> match plan {
            LogoutPlan::NoSession => false,
            LogoutPlan::Account(id) => credentials::first_account_of_user(
                store.entries(),
                credentials::session_username(full@),
            ) == Some(id@) && store@.dom().contains(id@) && store@[id@].username
                == credentials::session_username(full@),
            LogoutPlan::Temporary { full_username, body } => full_username@ == full@ && body@
                == logout_form_full(full@) && forall|k: Seq<char>| #[trigger]
                store@.dom().contains(k) ==> store@[k].username != credentials::session_username(
                full@,
            ),
        },
{
    match current_user {
        None => LogoutPlan::NoSession,
        Some(full) => {
            let user = text::trim_end_matches_str(full.as_str(), "@lpu.com");
            match credentials::find_account_by_username(store, user.as_str()) {
                Some(id) => LogoutPlan::Account(id),
                None => {
                    let body = logout_form_body_full(full.as_str());
                    LogoutPlan::Temporary { full_username: full, body }
                },
            }
        },
    }
}

/// The logout form for stored account `account_id`; `None` when it is not
/// stored.
pub fn plan_lpu_logout(store: &CredentialStore, account_id: &str) -> (r: Option<String>)
    ensures
        r is None <==> !store@.dom().contains(account_id@),
        r matches Some(body) ==> body@ == logout_form_account(store@[account_id@].username),
{
    match store.get(account_id) {
        None => None,
        Some(c) => Some(logout_form_body_account(c.username.as_str())),
    }
}

/// A newly stored account logs in with the credentials it was stored
/// with: with no session active, the login form carries its trimmed
/// username and password.
pub proof fn law_new_account_logs_in(
    before: Map<Seq<char>, credentials::CredentialsView>,
    after_entries: Seq<credentials::EntryView>,
    account_id: Seq<char>,
    username: Seq<char>,
    password: Seq<char>,
    plan: LoginPlan,
)
    requires
        ({
            let after = before.insert(
                text::trim(account_id),
                credentials::CredentialsView {
                    username: text::trim(username),
                    password: text::trim(password),
                    is_default: false,
                },
            );
            is_login_plan(
                after_entries,
                after[text::trim(account_id)].username,
                after[text::trim(account_id)].password,
                None,
                plan,
            )
        }),
    ensures
        plan matches LoginPlan::LogIn { switch, body } && switch is None && body@ == login_form(
            text::trim(username),
            text::trim(password),
        ),
{
}

/// A login never posts credentials while another user's session is
/// active: either the session is this user's and nothing is posted, or it
/// is logged out first.
pub proof fn law_login_ends_other_session(
    entries: Seq<credentials::EntryView>,
    username: Seq<char>,
    password: Seq<char>,
    full: String,
    plan: LoginPlan,
)
    requires
        is_login_plan(entries, username, password, Some(full), plan),
    ensures
        credentials::session_username(full@) == username <==> plan is AlreadyLoggedIn,
        plan matches LoginPlan::LogIn { switch, body } ==> switch matches Some(sw)
            && sw.logout_body@ == logout_form_full(full@),
{
}

/// The login form posts the username followed by "%40lpu.com" and then the
/// password, whole and unchanged: it is "mode=191&username=", the
/// username, "%40lpu.com&password=" and the password, in that order, so
/// what follows "&password=" is exactly the password.
pub proof fn law_login_form_carries_credentials(username: Seq<char>, password: Seq<char>)
    ensures
        login_form(username, password) == "mode=191&username="@ + username
            + "%40lpu.com&password="@ + password,
        login_form(username, password).skip(
            ("mode=191&username="@ + username + "%40lpu.com&password="@).len() as int,
        ) == password,
{
    let head = "mode=191&username="@ + username + "%40lpu.com&password="@;
    assert(login_form(username, password) =~= head + password);
    assert((head + password).skip(head.len() as int) =~= password);
}

/// The logout forms name the session to end and nothing else: the full
/// user name as it is, or a stored username followed by "%40lpu.com".
pub proof fn law_logout_forms_name_user(full_username: Seq<char>, username: Seq<char>)
    ensures
        logout_form_full(full_username) == "mode=193&logout=Logout&username="@ + full_username,
        logout_form_account(username) == "mode=193&logout=Logout&username="@ + username
            + "%40lpu.com"@,
{
}

/// Logging in with credentials while no session is active posts exactly
/// their login form, the whole password included, and ends no session.
pub proof fn law_login_posts_whole_password(
    entries: Seq<credentials::EntryView>,
    username: Seq<char>,
    password: Seq<char>,
    plan: LoginPlan,
)
    requires
        is_login_plan(entries, username, password, None, plan),
    ensures
        plan matches LoginPlan::LogIn { switch, body } && switch is None && body@
            == "mode=191&username="@ + username + "%40lpu.com&password="@ + password,
{
}

/// The portal's answer to a login form is read by the phrases it contains,
/// wherever they stand: "To start surfing" or "You have successfully logged
/// in" means logged in; otherwise "Invalid user" means wrong credentials;
/// anything else is unexpected.
pub proof fn law_login_response_by_phrases(text: Seq<char>)
    ensures
        text::contains(text, "To start surfing"@) || text::contains(
            text,
            "You have successfully logged in"@,
        ) ==> login_response_of(text) == LoginResponse::LoggedIn,
        !text::contains(text, "To start surfing"@) && !text::contains(
            text,
            "You have successfully logged in"@,
        ) && text::contains(text, "Invalid user"@) ==> login_response_of(text)
            == LoginResponse::InvalidCredentials,
        !text::contains(text, "To start surfing"@) && !text::contains(
            text,
            "You have successfully logged in"@,
        ) && !text::contains(text, "Invalid user"@) ==> login_response_of(text)
            == LoginResponse::Unexpected,
{
}

/// A page that carries a login confirmation anywhere in it, whatever
/// surrounds the phrase, is read as logged in.
pub proof fn law_login_confirmation_anywhere(before: Seq<char>, after: Seq<char>)
    ensures
        login_response_of(before + "To start surfing"@ + after) == LoginResponse::LoggedIn,
        login_response_of(before + "You have successfully logged in"@ + after)
            == LoginResponse::LoggedIn,
{
    text::lemma_contains_within(before, "To start surfing"@, after);
    text::lemma_contains_within(before, "You have successfully logged in"@, after);
}

/// The portal's answer to a logout form reports success exactly when it
/// contains "successfully logged off", "logged out successfully" or
/// "Logout successfully".
pub proof fn law_logout_success_by_phrases(text: Seq<char>)
    ensures
        logout_success(text) <==> text::contains(text, "successfully logged off"@)
            || text::contains(text, "logged out successfully"@) || text::contains(
            text,
            "Logout successfully"@,
        ),
{
}

/// A logout answer that carries one of the confirmations anywhere in it,
/// whatever surrounds the phrase, reports success.
pub proof fn law_logout_confirmation_anywhere(before: Seq<char>, after: Seq<char>)
    ensures
        logout_success(before + "successfully logged off"@ + after),
        logout_success(before + "logged out successfully"@ + after),
        logout_success(before + "Logout successfully"@ + after),
{
    text::lemma_contains_within(before, "successfully logged off"@, after);
    text::lemma_contains_within(before, "logged out successfully"@, after);
    text::lemma_contains_within(before, "Logout successfully"@, after);
}

} // verus!
