//! The account menus: what they offer and what a choice in them means.
//!
//! Showing a menu and reading the choice is the caller's business.

use vstd::prelude::*;
use crate::credentials::{self, CredentialStore, Credentials};
use crate::text;
use crate::types::{LoginAction, SelectionContext};

verus! {

broadcast use vstd::string::group_string_axioms;

/// The menu entry of a stored account: its identifier, followed by
/// " (default)" for the default account.
pub open spec fn account_label(e: credentials::EntryView) -> Seq<char> {
    if e.1.is_default {
        e.0 + " (default)"@
    } else {
        e.0
    }
}

/// The entries of the account menu in `context`: the accounts in listing
/// order, then "[New Account]" and "[Temporary Login]" when logging in, or
/// "[Clear Defaults]" when choosing the default account and some account
/// exists.
pub open spec fn menu_labels(entries: Seq<credentials::EntryView>, context: SelectionContext) -> Seq<
    Seq<char>,
> {
    let accounts = entries.map_values(|e: credentials::EntryView| account_label(e));
    match context {
        SelectionContext::Login => accounts.push("[New Account]"@).push("[Temporary Login]"@),
        SelectionContext::Default => if accounts.len() > 0 {
            accounts.push("[Clear Defaults]"@)
        } else {
            accounts
        },
        SelectionContext::Other => accounts,
    }
}

/// The entries of the account menu offered in `context`.
pub fn menu_entries(store: &CredentialStore, context: SelectionContext) -> (r: Vec<String>)
    ensures
        r@.map_values(|s: String| s@) == menu_labels(store.entries(), context),
        forall|k: int|
            0 <= k < store.entries().len() ==> #[trigger] r@[k]@ == if store.entries()[k].1.is_default {
                store.entries()[k].0 + " (default)"@
            } else {
                store.entries()[k].0
            },
        context is Login ==> r.len() == store.entries().len() + 2 && r@[r.len() - 2]@
            == "[New Account]"@ && r@[r.len() - 1]@ == "[Temporary Login]"@,
        context is Default ==> (if store.entries().len() > 0 {
            r.len() == store.entries().len() + 1 && r@[r.len() - 1]@ == "[Clear Defaults]"@
        } else {
            r.len() == 0
        }),
        context is Other ==> r.len() == store.entries().len(),
{
    let v = store.entries_vec();
    let ghost e = store.entries();
    let mut r: Vec<String> = Vec::new();
    let mut i: usize = 0;
    while i < v.len()
        invariant
            i <= v.len(),
            v@.map_values(|x: (String, Credentials)| (x.0@, x.1@)) == e,
            r@.map_values(|s: String| s@) == e.take(i as int).map_values(
                |x: credentials::EntryView| account_label(x),
            ),
        decreases v.len() - i,
    {
        let mut label = v[i].0.clone();
        assert(label@ == v@[i as int].0@);
        if v[i].1.is_default {
            label.append(" (default)");
            assert(label@ == v@[i as int].0@ + " (default)"@);
        }
        proof {
            assert(e[i as int].0 == v@[i as int].0@);
            assert(e[i as int].1.is_default == v@[i as int].1.is_default);
            assert(label@ == account_label(e[i as int]));
        }
        let ghost before = r@;
        r.push(label);
        proof {
            assert(e.take(i + 1) =~= e.take(i as int).push(e[i as int]));
            assert(r@.map_values(|s: String| s@) =~= before.map_values(|s: String| s@).push(
                account_label(e[i as int]),
            ));
            assert(e.take(i + 1).map_values(|x: credentials::EntryView| account_label(x))
                =~= e.take(i as int).map_values(|x: credentials::EntryView| account_label(x)).push(
                account_label(e[i as int]),
            ));
        }
        i = i + 1;
    }
    assert(e.take(i as int) =~= e);
    let ghost accounts = r@.map_values(|s: String| s@);
    match context {
        SelectionContext::Login => {
            r.push(String::from_str("[New Account]"));
            r.push(String::from_str("[Temporary Login]"));
            assert(r@.map_values(|s: String| s@) =~= accounts.push("[New Account]"@).push(
                "[Temporary Login]"@,
            ));
        },
        SelectionContext::Default => {
            if r.len() > 0 {
                r.push(String::from_str("[Clear Defaults]"));
                assert(r@.map_values(|s: String| s@) =~= accounts.push("[Clear Defaults]"@));
            }
        },
        SelectionContext::Other => {},
    }
    proof {
        let e = store.entries();
        let m = r@.map_values(|s: String| s@);
        assert forall|k: int| 0 <= k < e.len() implies #[trigger] r@[k]@ == if e[k].1.is_default {
            e[k].0 + " (default)"@
        } else {
            e[k].0
        } by {
            assert(m[k] == r@[k]@);
            assert(m[k] == menu_labels(e, context)[k]);
        }
        if context is Login {
            assert(m[m.len() - 2] == r@[r.len() - 2]@);
            assert(m[m.len() - 1] == r@[r.len() - 1]@);
        }
        if context is Default && e.len() > 0 {
            assert(m[m.len() - 1] == r@[r.len() - 1]@);
        }
    }
    r
}

/// Whether the menu entry `label` names a special action.
pub open spec fn names_special(label: Seq<char>) -> bool {
    text::contains(label, "[New Account]"@) || text::contains(label, "[Temporary Login]"@)
        || text::contains(label, "[Clear Defaults]"@)
}

/// Whether choosing the menu entry `label` asks for `action`: an entry that
/// mentions a special action stands for it (checked in the order New
/// Account, Temporary Login, Clear Defaults); any other names the account
/// that its first word identifies.
pub open spec fn is_action_for_label(label: Seq<char>, action: LoginAction) -> bool {
    if text::contains(label, "[New Account]"@) {
        action is NewAccount
    } else if text::contains(label, "[Temporary Login]"@) {
        action is TemporaryLogin
    } else if text::contains(label, "[Clear Defaults]"@) {
        action is ClearDefaults
    } else {
        action matches LoginAction::UseExistingAccount(id) && text::first_word(label) == Some(id@)
    }
}

/// What the choice `selection` (an index into the menu `labels`, `None`
/// when the menu was dismissed) asks for.
pub fn action_for_selection(labels: &Vec<String>, selection: Option<usize>) -> (r: LoginAction)
    requires
        selection matches Some(i) ==> i < labels.len() && (names_special(labels[i as int]@)
            || text::first_word(labels[i as int]@) is Some),
    ensures
        selection is None ==> r is Cancel,
        selection matches Some(i) ==> is_action_for_label(labels[i as int]@, r),
{
    match selection {
        None => LoginAction::Cancel,
        Some(i) => {
            let label = labels[i].as_str();
            if text::str_contains(label, "[New Account]") {
                LoginAction::NewAccount
            } else if text::str_contains(label, "[Temporary Login]") {
                LoginAction::TemporaryLogin
            } else if text::str_contains(label, "[Clear Defaults]") {
                LoginAction::ClearDefaults
            } else {
                match text::first_word_of(label) {
                    Some(w) => LoginAction::UseExistingAccount(w),
                    None => LoginAction::Cancel,
                }
            }
        },
    }
}

/// Whether no two of `v` hold the same characters.
pub open spec fn distinct_strings(v: Seq<String>) -> bool {
    forall|a: int, b: int| 0 <= a < v.len() && 0 <= b < v.len() && a != b ==> #[trigger] v[a]@
        != #[trigger] v[b]@
}

/// The identifiers of the stored accounts, in listing order: the choices
/// of the removal menu.
pub fn account_ids(store: &CredentialStore) -> (r: Vec<String>)
    ensures
        r.len() == store.entries().len(),
        forall|k: int| 0 <= k < r.len() ==> #[trigger] r[k]@ == store.entries()[k].0,
        distinct_strings(r@),
        forall|id: Seq<char>| #[trigger]
            store@.dom().contains(id) <==> exists|k: int| 0 <= k < r.len() && #[trigger] r[k]@ == id,
{
    let v = store.entries_vec();
    let ghost e = store.entries();
    let mut r: Vec<String> = Vec::new();
    let mut i: usize = 0;
    while i < v.len()
        invariant
            i <= v.len(),
            v@.map_values(|x: (String, Credentials)| (x.0@, x.1@)) == e,
            r.len() == i,
            forall|k: int| 0 <= k < i ==> #[trigger] r[k]@ == e[k].0,
        decreases v.len() - i,
    {
        r.push(v[i].0.clone());
        i = i + 1;
    }
    assert forall|id: Seq<char>| #[trigger]
        store@.dom().contains(id) <==> exists|k: int| 0 <= k < r.len() && #[trigger] r[k]@ == id by {
        if store@.dom().contains(id) {
            let k = choose|k: int| 0 <= k < e.len() && #[trigger] e[k].0 == id;
            assert(r[k]@ == id);
        }
        if exists|k: int| 0 <= k < r.len() && #[trigger] r[k]@ == id {
            let k = choose|k: int| 0 <= k < r.len() && #[trigger] r[k]@ == id;
            assert(e[k].0 == id);
        }
    }
    assert forall|a: int, b: int| 0 <= a < r.len() && 0 <= b < r.len() && a != b implies #[trigger] r@[a]@
        != #[trigger] r@[b]@ by {
        assert(e[a].0 != e[b].0);
    }
    r
}

/// The accounts picked in the removal menu: `ids` at `indices`, in the
/// order picked.
pub fn selected_account_ids(ids: &Vec<String>, indices: &Vec<usize>) -> (r: Vec<String>)
    requires
        forall|k: int| 0 <= k < indices.len() ==> #[trigger] indices[k] < ids.len(),
    ensures
        r.len() == indices.len(),
        forall|k: int| 0 <= k < r.len() ==> #[trigger] r[k]@ == ids[indices[k] as int]@,
        distinct_strings(ids@) && (forall|a: int, b: int|
            0 <= a < indices.len() && 0 <= b < indices.len() && a != b ==> #[trigger] indices[a]
                != #[trigger] indices[b]) ==> distinct_strings(r@),
{
    let mut r: Vec<String> = Vec::new();
    let mut i: usize = 0;
    while i < indices.len()
        invariant
            i <= indices.len(),
            forall|k: int| 0 <= k < indices.len() ==> #[trigger] indices[k] < ids.len(),
            r.len() == i,
            forall|k: int| 0 <= k < i ==> #[trigger] r[k]@ == ids[indices[k] as int]@,
        decreases indices.len() - i,
    {
        r.push(ids[indices[i]].clone());
        i = i + 1;
    }
    proof {
        if distinct_strings(ids@) && (forall|a: int, b: int|
            0 <= a < indices.len() && 0 <= b < indices.len() && a != b ==> #[trigger] indices[a]
                != #[trigger] indices[b]) {
            assert forall|a: int, b: int| 0 <= a < r.len() && 0 <= b < r.len() && a != b implies #[trigger] r@[a]@
                != #[trigger] r@[b]@ by {
                assert(indices[a] != indices[b]);
                assert(ids@[indices[a] as int]@ != ids@[indices[b] as int]@);
            }
        }
    }
    r
}

proof fn lemma_take_word_prefix(w: Seq<char>, rest: Seq<char>)
    requires
        forall|i: int| 0 <= i < w.len() ==> !text::is_ws(#[trigger] w[i]),
        rest.len() == 0 || text::is_ws(rest[0]),
    ensures
        text::take_word(w + rest) == w,
    decreases w.len(),
{
    if w.len() > 0 {
        assert((w + rest).drop_first() =~= w.drop_first() + rest);
        lemma_take_word_prefix(w.drop_first(), rest);
        assert(seq![w[0]] + w.drop_first() =~= w);
    } else {
        assert(w + rest =~= rest);
    }
}

/// Choosing a stored account in the menu names that account: for an
/// identifier that is one non-empty word and mentions no special action,
/// the choice of its entry (marked as default or not) asks to use it.
pub proof fn law_menu_choice_names_account(e: credentials::EntryView, action: LoginAction)
    requires
        e.0.len() > 0,
        forall|i: int| 0 <= i < e.0.len() ==> !text::is_ws(#[trigger] e.0[i]),
        !names_special(account_label(e)),
        is_action_for_label(account_label(e), action),
    ensures
        action matches LoginAction::UseExistingAccount(id) && id@ == e.0,
{
    reveal_strlit(" (default)");
    let label = account_label(e);
    let rest = if e.1.is_default {
        " (default)"@
    } else {
        Seq::<char>::empty()
    };
    assert(label =~= e.0 + rest);
    assert(label[0] == e.0[0]);
    assert(text::trim_start(label) == label);
    lemma_take_word_prefix(e.0, rest);
}

/// The login menu offers every stored account, in listing order, and then
/// always "[New Account]" and "[Temporary Login]", whatever the store holds
/// (with no account stored, exactly those two); the default menu ends with
/// "[Clear Defaults]" when some account exists and is empty otherwise; the
/// other menus list the accounts alone.
pub proof fn law_menu_offers(entries: Seq<credentials::EntryView>)
    ensures
        menu_labels(entries, SelectionContext::Login).len() == entries.len() + 2,
        menu_labels(entries, SelectionContext::Login)[entries.len() as int] == "[New Account]"@,
        menu_labels(entries, SelectionContext::Login)[entries.len() + 1int] == "[Temporary Login]"@,
        forall|k: int|
            0 <= k < entries.len() ==> #[trigger] menu_labels(entries, SelectionContext::Login)[k]
                == account_label(entries[k]) && menu_labels(entries, SelectionContext::Other)[k]
                == account_label(entries[k]),
        entries.len() == 0 ==> menu_labels(entries, SelectionContext::Login) == seq![
            "[New Account]"@,
            "[Temporary Login]"@,
        ],
        entries.len() > 0 ==> menu_labels(entries, SelectionContext::Default).len()
            == entries.len() + 1 && menu_labels(entries, SelectionContext::Default)[entries.len() as int]
            == "[Clear Defaults]"@,
        entries.len() == 0 ==> menu_labels(entries, SelectionContext::Default).len() == 0,
        menu_labels(entries, SelectionContext::Other).len() == entries.len(),
{
    if entries.len() == 0 {
        assert(menu_labels(entries, SelectionContext::Login) =~= seq![
            "[New Account]"@,
            "[Temporary Login]"@,
        ]);
    }
}

/// A stored account's menu entry is its identifier, marked " (default)"
/// when it is the default account.
pub proof fn law_account_label(e: credentials::EntryView)
    ensures
        e.1.is_default ==> account_label(e) == e.0 + " (default)"@,
        !e.1.is_default ==> account_label(e) == e.0,
{
}

proof fn lemma_temporary_entry_not_new_account()
    ensures
        !text::contains("[Temporary Login]"@, "[New Account]"@),
{
    reveal_strlit("[Temporary Login]");
    reveal_strlit("[New Account]");
    let t = "[Temporary Login]"@;
    let n = "[New Account]"@;
    assert forall|i: int| !text::occurs_at(t, n, i) by {
        if text::occurs_at(t, n, i) {
            assert(t.subrange(i, i + 13)[1] == t[i + 1]);
            assert(t[i + 1] == 'N');
            assert(i == 0 || i == 1 || i == 2 || i == 3 || i == 4);
        }
    }
}

/// Choosing one of the two entries that end the login menu asks for what
/// it says, whatever accounts precede them: "[New Account]" for a new
/// account, "[Temporary Login]" for a one-time login.
pub proof fn law_login_menu_special_choices(entries: Seq<credentials::EntryView>, action: LoginAction)
    ensures
        is_action_for_label(menu_labels(entries, SelectionContext::Login)[entries.len() as int], action)
            <==> action is NewAccount,
        is_action_for_label(menu_labels(entries, SelectionContext::Login)[entries.len() + 1int], action)
            <==> action is TemporaryLogin,
{
    law_menu_offers(entries);
    let e = Seq::<char>::empty();
    assert(e + "[New Account]"@ + e =~= "[New Account]"@);
    assert(e + "[Temporary Login]"@ + e =~= "[Temporary Login]"@);
    text::lemma_contains_within(e, "[New Account]"@, e);
    text::lemma_contains_within(e, "[Temporary Login]"@, e);
    lemma_temporary_entry_not_new_account();
}

} // verus!
