//! The command line: which command was given, with which arguments.
//!
//! Parsing the arguments is the caller's business; these types hold what
//! was parsed.

use vstd::prelude::*;

verus! {

/// LPU WiFi Manager: manage and log in to multiple LPU WiFi accounts.
pub struct Cli {
    /// Command to execute
    pub command: Option<Commands>,
}

/// The commands of the program.
pub enum Commands {
    /// Login using a stored account ID or create a new one
    Login(LoginArgs),
    /// Logout from a specified account or the current session
    Logout {
        /// Account ID or Name to logout from
        account_id: Option<String>,
    },
    /// List all stored account IDs
    List,
    /// Remove stored accounts
    Remove {
        /// Account IDs or Names to remove
        account_ids: Vec<String>,
    },
    /// Update stored account details
    Update {
        /// Account ID or Name to update
        account_id: Option<String>,
    },
    /// Show stored account details
    Show(ShowArgs),
    /// Set or clear the default account for quick login
    Default {
        /// Account ID to set as default; if not provided, shows a selection menu
        account_id: Option<String>,
        /// Clear default account setting
        clear: bool,
    },
}

/// The arguments of the login command.
pub struct LoginArgs {
    /// Account ID or Name to login with
    pub account_id: Option<String>,
    /// Do not save credentials
    pub no_save: bool,
    /// LPU username (without @lpu.com), used with --no-save
    pub username: Option<String>,
    /// LPU password, used with --no-save
    pub password: Option<String>,
    /// Set this account as default after login
    pub set_default: bool,
}

/// The arguments of the show command.
pub struct ShowArgs {
    /// Account ID or Name to show
    pub account_id: Option<String>,
    /// Show the password in plaintext
    pub show_password: bool,
}

} // verus!
