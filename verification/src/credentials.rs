//! The stored accounts: account identifiers mapped to LPU credentials.
//!
//! The store keeps its accounts in a vector in which no identifier occurs
//! twice; its view is the map from identifier to credentials, and
//! `entries` gives the accounts in the order in which they are listed.
//! Reading and writing the credentials file is the caller's business: the
//! functions here compute what the store becomes.

use vstd::prelude::*;
use crate::text;

verus! {

broadcast use vstd::string::group_string_axioms;

/// Stored credentials of one LPU WiFi account.
pub struct Credentials {
    /// LPU username without the "@lpu.com" suffix
    pub username: String,
    /// Account password
    pub password: String,
    /// Whether this account is logged in when no command is given
    pub is_default: bool,
}

/// The view of `Credentials`.
pub struct CredentialsView {
    pub username: Seq<char>,
    pub password: Seq<char>,
    pub is_default: bool,
}

impl View for Credentials {
    type V = CredentialsView;

    open spec fn view(&self) -> CredentialsView {
        CredentialsView {
            username: self.username@,
            password: self.password@,
            is_default: self.is_default,
        }
    }
}

/// One account as the store lists it: identifier and credentials.
pub type EntryView = (Seq<char>, CredentialsView);

/// Whether no identifier occurs twice among `e`.
pub open spec fn distinct_ids(e: Seq<EntryView>) -> bool {
    forall|i: int, j: int| 0 <= i < e.len() && 0 <= j < e.len() && i != j ==> #[trigger] e[i].0
        != #[trigger] e[j].0
}

/// Whether `id` is the identifier of one of `e`.
pub open spec fn has_id(e: Seq<EntryView>, id: Seq<char>) -> bool {
    exists|k: int| 0 <= k < e.len() && #[trigger] e[k].0 == id
}

/// The map from identifier to credentials that `e` stands for.
pub open spec fn accounts_of(e: Seq<EntryView>) -> Map<Seq<char>, CredentialsView> {
    Map::new(
        |id: Seq<char>| has_id(e, id),
        |id: Seq<char>| e[choose|k: int| 0 <= k < e.len() && #[trigger] e[k].0 == id].1,
    )
}

/// `m` with each of `e` stored in turn.
pub open spec fn stored_in_turn(m: Map<Seq<char>, CredentialsView>, e: Seq<EntryView>) -> Map<
    Seq<char>,
    CredentialsView,
>
    decreases e.len(),
{
    if e.len() == 0 {
        m
    } else {
        stored_in_turn(m, e.drop_last()).insert(e.last().0, e.last().1)
    }
}

/// Whether `e` lists the accounts of `m`, each once: no identifier occurs
/// twice, the identifiers are those of `m`, and each comes with its
/// credentials.
pub open spec fn lists_accounts(e: Seq<EntryView>, m: Map<Seq<char>, CredentialsView>) -> bool {
    &&& distinct_ids(e)
    &&& forall|id: Seq<char>| #[trigger] m.dom().contains(id) <==> has_id(e, id)
    &&& forall|k: int| 0 <= k < e.len() ==> #[trigger] m[e[k].0] == e[k].1
}

/// The stored accounts.
pub struct CredentialStore {
    entries: Vec<(String, Credentials)>,
}

impl CredentialStore {
    /// The accounts in listing order.
    pub closed spec fn entries(&self) -> Seq<EntryView> {
        self.entries@.map_values(|e: (String, Credentials)| (e.0@, e.1@))
    }

    /// No identifier occurs twice.
    #[verifier::type_invariant]
    closed spec fn wf(self) -> bool {
        distinct_ids(self.entries())
    }
}

impl View for CredentialStore {
    type V = Map<Seq<char>, CredentialsView>;

    open spec fn view(&self) -> Map<Seq<char>, CredentialsView> {
        accounts_of(self.entries())
    }
}

/// Under distinct identifiers, the account of `id` is the entry that has it.
pub proof fn lemma_accounts_at(e: Seq<EntryView>, k: int)
    requires
        distinct_ids(e),
        0 <= k < e.len(),
    ensures
        accounts_of(e).dom().contains(e[k].0),
        accounts_of(e)[e[k].0] == e[k].1,
{
    let id = e[k].0;
    assert(has_id(e, id));
    let c = choose|j: int| 0 <= j < e.len() && #[trigger] e[j].0 == id;
    assert(c == k);
}


proof fn lemma_push(e: Seq<EntryView>, x: EntryView)
    requires
        distinct_ids(e),
        !has_id(e, x.0),
    ensures
        distinct_ids(e.push(x)),
        accounts_of(e.push(x)) == accounts_of(e).insert(x.0, x.1),
{
    let f = e.push(x);
    assert forall|i: int, j: int| 0 <= i < f.len() && 0 <= j < f.len() && i != j implies #[trigger] f[i].0
        != #[trigger] f[j].0 by {
        if i < e.len() && j < e.len() {
            assert(e[i].0 != e[j].0);
        } else if i < e.len() {
            assert(e[i].0 == f[i].0);
        } else {
            assert(e[j].0 == f[j].0);
        }
    }
    assert forall|id: Seq<char>| has_id(f, id) <==> (has_id(e, id) || id == x.0) by {
        if has_id(e, id) {
            let k = choose|k: int| 0 <= k < e.len() && #[trigger] e[k].0 == id;
            assert(f[k].0 == id);
        }
        if id == x.0 {
            assert(f[e.len() as int].0 == id);
        }
        if has_id(f, id) && id != x.0 {
            let k = choose|k: int| 0 <= k < f.len() && #[trigger] f[k].0 == id;
            assert(e[k].0 == id);
        }
    }
    assert forall|id: Seq<char>| #[trigger] has_id(f, id) implies accounts_of(f)[id] == accounts_of(
        e,
    ).insert(x.0, x.1)[id] by {
        let k = choose|k: int| 0 <= k < f.len() && #[trigger] f[k].0 == id;
        lemma_accounts_at(f, k);
        if k < e.len() {
            lemma_accounts_at(e, k);
        }
    }
    assert(accounts_of(f) =~= accounts_of(e).insert(x.0, x.1));
}

proof fn lemma_update(e: Seq<EntryView>, k: int, c: CredentialsView)
    requires
        distinct_ids(e),
        0 <= k < e.len(),
    ensures
        distinct_ids(e.update(k, (e[k].0, c))),
        accounts_of(e.update(k, (e[k].0, c))) == accounts_of(e).insert(e[k].0, c),
{
    let f = e.update(k, (e[k].0, c));
    assert forall|i: int, j: int| 0 <= i < f.len() && 0 <= j < f.len() && i != j implies #[trigger] f[i].0
        != #[trigger] f[j].0 by {
        assert(e[i].0 != e[j].0);
    }
    assert forall|id: Seq<char>| has_id(f, id) <==> has_id(e, id) by {
        if has_id(e, id) {
            let m = choose|m: int| 0 <= m < e.len() && #[trigger] e[m].0 == id;
            assert(f[m].0 == id);
        }
        if has_id(f, id) {
            let m = choose|m: int| 0 <= m < f.len() && #[trigger] f[m].0 == id;
            assert(e[m].0 == id);
        }
    }
    lemma_accounts_at(e, k);
    assert forall|id: Seq<char>| #[trigger] has_id(f, id) implies accounts_of(f)[id] == accounts_of(
        e,
    ).insert(e[k].0, c)[id] by {
        let m = choose|m: int| 0 <= m < f.len() && #[trigger] f[m].0 == id;
        lemma_accounts_at(f, m);
        lemma_accounts_at(e, m);
    }
    assert(accounts_of(f) =~= accounts_of(e).insert(e[k].0, c));
}

proof fn lemma_remove(e: Seq<EntryView>, k: int)
    requires
        distinct_ids(e),
        0 <= k < e.len(),
    ensures
        distinct_ids(e.remove(k)),
        accounts_of(e.remove(k)) == accounts_of(e).remove(e[k].0),
{
    let f = e.remove(k);
    assert forall|i: int, j: int| 0 <= i < f.len() && 0 <= j < f.len() && i != j implies #[trigger] f[i].0
        != #[trigger] f[j].0 by {
        let i2 = if i < k { i } else { i + 1 };
        let j2 = if j < k { j } else { j + 1 };
        assert(f[i] == e[i2] && f[j] == e[j2]);
        assert(e[i2].0 != e[j2].0);
    }
    assert forall|id: Seq<char>| has_id(f, id) <==> (has_id(e, id) && id != e[k].0) by {
        if has_id(e, id) && id != e[k].0 {
            let m = choose|m: int| 0 <= m < e.len() && #[trigger] e[m].0 == id;
            if m < k {
                assert(f[m].0 == id);
            } else {
                assert(f[m - 1].0 == id);
            }
        }
        if has_id(f, id) {
            let m = choose|m: int| 0 <= m < f.len() && #[trigger] f[m].0 == id;
            let m2 = if m < k { m } else { m + 1 };
            assert(e[m2].0 == id);
            assert(m2 != k);
            assert(e[m2].0 != e[k].0);
        }
    }
    assert forall|id: Seq<char>| #[trigger] has_id(f, id) implies accounts_of(f)[id] == accounts_of(
        e,
    ).remove(e[k].0)[id] by {
        let m = choose|m: int| 0 <= m < f.len() && #[trigger] f[m].0 == id;
        let m2 = if m < k { m } else { m + 1 };
        lemma_accounts_at(f, m);
        assert(f[m] == e[m2]);
        lemma_accounts_at(e, m2);
    }
    assert(accounts_of(f) =~= accounts_of(e).remove(e[k].0));
}

/// Entries with distinct identifiers list the accounts they stand for.
pub proof fn lemma_lists_accounts(e: Seq<EntryView>)
    requires
        distinct_ids(e),
    ensures
        lists_accounts(e, accounts_of(e)),
{
    assert forall|k: int| 0 <= k < e.len() implies #[trigger] accounts_of(e)[e[k].0] == e[k].1 by {
        lemma_accounts_at(e, k);
    }
}

impl CredentialStore {
    /// A store without accounts.
    pub fn new() -> (s: Self)
        ensures
            s.entries() == Seq::<EntryView>::empty(),
            s@ == Map::<Seq<char>, CredentialsView>::empty(),
    {
        let s = CredentialStore { entries: Vec::new() };
        assert(s.entries() =~= Seq::<EntryView>::empty());
        assert(s@ =~= Map::<Seq<char>, CredentialsView>::empty());
        s
    }

    /// The number of stored accounts.
    pub fn len(&self) -> (n: usize)
        ensures
            n == self.entries().len(),
    {
        self.entries.len()
    }


    /// The credentials stored under `id`.
    pub fn get(&self, id: &str) -> (r: Option<&Credentials>)
        ensures
            r matches Some(c) ==> self@.dom().contains(id@) && self@[id@] == c@,
            r is None ==> !self@.dom().contains(id@),
    {
        proof {
            use_type_invariant(self);
        }
        match self.position(id) {
            Some(k) => {
                proof {
                    lemma_accounts_at(self.entries(), k as int);
                }
                Some(&self.entries[k].1)
            },
            None => None,
        }
    }

    /// Whether an account is stored under `id`.
    pub fn contains(&self, id: &str) -> (b: bool)
        ensures
            b == self@.dom().contains(id@),
    {
        self.get(id).is_some()
    }

    /// The accounts in listing order.
    pub fn entries_vec(&self) -> (r: &Vec<(String, Credentials)>)
        ensures
            r@.map_values(|e: (String, Credentials)| (e.0@, e.1@)) == self.entries(),
            lists_accounts(self.entries(), self@),
    {
        proof {
            use_type_invariant(self);
            lemma_lists_accounts(self.entries());
        }
        &self.entries
    }

    /// Stores `c` under `id`, in place of what was stored there; a new
    /// identifier is listed last.
    pub fn insert(&mut self, id: String, c: Credentials)
        ensures
            final(self)@ == old(self)@.insert(id@, c@),
            old(self)@.dom().contains(id@) ==> final(self).entries().len() == old(self).entries().len(),
            !old(self)@.dom().contains(id@) ==> final(self).entries() == old(self).entries().push(
                (id@, c@),
            ),
    {
        proof {
            use_type_invariant(&*self);
        }
        let ghost e0 = self.entries();
        let pos = self.position(id.as_str());
        let mut v: Vec<(String, Credentials)> = Vec::new();
        std::mem::swap(&mut v, &mut self.entries);
        let ghost x = (id@, c@);
        match pos {
            Some(k) => {
                v.set(k, (id, c));
                proof {
                    lemma_update(e0, k as int, x.1);
                    assert(v@.map_values(|e: (String, Credentials)| (e.0@, e.1@)) =~= e0.update(
                        k as int,
                        (e0[k as int].0, x.1),
                    ));
                }
            },
            None => {
                v.push((id, c));
                proof {
                    lemma_push(e0, x);
                    assert(v@.map_values(|e: (String, Credentials)| (e.0@, e.1@)) =~= e0.push(x));
                }
            },
        }
        self.entries = v;
    }

    /// Removes the account stored under `id`; tells whether there was one.
    pub fn remove(&mut self, id: &str) -> (removed: bool)
        ensures
            removed == old(self)@.dom().contains(id@),
            final(self)@ == old(self)@.remove(id@),
    {
        proof {
            use_type_invariant(&*self);
        }
        let ghost e0 = self.entries();
        match self.position(id) {
            Some(k) => {
                let mut v: Vec<(String, Credentials)> = Vec::new();
                std::mem::swap(&mut v, &mut self.entries);
                v.remove(k);
                proof {
                    lemma_remove(e0, k as int);
                    assert(v@.map_values(|e: (String, Credentials)| (e.0@, e.1@)) =~= e0.remove(
                        k as int,
                    ));
                }
                self.entries = v;
                true
            },
            None => {
                assert(old(self)@.remove(id@) =~= old(self)@);
                false
            },
        }
    }

    /// A store holding `entries`, each stored in turn (a later entry under
    /// an identifier replaces an earlier one).
    pub fn from_entries(entries: Vec<(String, Credentials)>) -> (s: Self)
        ensures
            s@ == stored_in_turn(
                Map::<Seq<char>, CredentialsView>::empty(),
                entries@.map_values(|e: (String, Credentials)| (e.0@, e.1@)),
            ),
    {
        let mut s = CredentialStore::new();
        let mut rest = entries;
        let ghost all = rest@.map_values(|e: (String, Credentials)| (e.0@, e.1@));
        let mut taken: usize = 0;
        let ghost n = all.len();
        assert(all.len() == rest@.len());
        assert(rest@.len() == rest.len());
        assert(all.take(0) =~= Seq::<EntryView>::empty());
        assert(all.skip(0) =~= all);
        while rest.len() > 0
            invariant
                rest.len() + taken == n,
                n == all.len(),
                n <= usize::MAX,
                rest@.map_values(|e: (String, Credentials)| (e.0@, e.1@)) == all.skip(taken as int),
                s@ == stored_in_turn(Map::<Seq<char>, CredentialsView>::empty(), all.take(taken as int)),
            decreases rest.len(),
        {
            let ghost before = rest@;
            let (id, c) = rest.remove(0);
            proof {
                assert(all.take(taken + 1).drop_last() =~= all.take(taken as int));
                assert(all.skip(taken as int)[0] == (id@, c@));
                let f = |e: (String, Credentials)| (e.0@, e.1@);
                assert(rest@ == before.remove(0));
                assert forall|k: int| 0 <= k < rest@.len() implies #[trigger] rest@.map_values(f)[k]
                    == all.skip(taken + 1)[k] by {
                    assert(rest@[k] == before[k + 1]);
                    assert(before.map_values(f)[k + 1] == all.skip(taken as int)[k + 1]);
                }
                assert(rest@.map_values(f) =~= all.skip(taken + 1));
            }
            s.insert(id, c);
            taken = taken + 1;
        }
        assert(all.take(n as int) =~= all);
        s
    }

    /// The position of `id` in the listing, if it is stored.
    fn position(&self, id: &str) -> (r: Option<usize>)
        ensures
            r matches Some(k) ==> k < self.entries().len() && self.entries()[k as int].0 == id@,
            r is None ==> !has_id(self.entries(), id@),
    {
        let mut i: usize = 0;
        while i < self.entries.len()
            invariant
                i <= self.entries.len(),
                forall|k: int| 0 <= k < i ==> self.entries()[k].0 != id@,
            decreases self.entries.len() - i,
        {
            if text::str_eq(self.entries[i].0.as_str(), id) {
                return Some(i);
            }
            i = i + 1;
        }
        None
    }
}

/// Why a new account cannot be stored.
#[derive(Clone, Copy, Debug, PartialEq, Eq)]
pub enum NewAccountError {
    /// The identifier is empty once trimmed.
    EmptyId,
    /// An account with this identifier exists.
    IdTaken,
    /// The username is empty once trimmed.
    EmptyUsername,
}

/// Why an account cannot be updated.
#[derive(Clone, Copy, Debug, PartialEq, Eq)]
pub enum UpdateError {
    /// No account is stored under the identifier.
    NotFound,
    /// The new identifier is empty once trimmed.
    EmptyId,
    /// Another account has the new identifier.
    IdTaken,
    /// The new username is empty once trimmed.
    EmptyUsername,
}

/// Why an account cannot be made the default one.
#[derive(Clone, Copy, Debug, PartialEq, Eq)]
pub enum DefaultError {
    /// No account is stored under the identifier.
    NotFound,
}

/// What is wrong with `input` as the identifier of a new account, if
/// anything.
pub open spec fn new_id_problem(m: Map<Seq<char>, CredentialsView>, input: Seq<char>) -> Option<
    NewAccountError,
> {
    if text::trim(input).len() == 0 {
        Some(NewAccountError::EmptyId)
    } else if m.dom().contains(text::trim(input)) {
        Some(NewAccountError::IdTaken)
    } else {
        None
    }
}

/// What is wrong with `input` as the new identifier of account `id`, if
/// anything.
pub open spec fn renamed_id_problem(
    m: Map<Seq<char>, CredentialsView>,
    id: Seq<char>,
    input: Seq<char>,
) -> Option<UpdateError> {
    if text::trim(input).len() == 0 {
        Some(UpdateError::EmptyId)
    } else if text::trim(input) != id && m.dom().contains(text::trim(input)) {
        Some(UpdateError::IdTaken)
    } else {
        None
    }
}

/// `m` with account `d` (none where `d` is `None`) as the only default one.
pub open spec fn with_default(m: Map<Seq<char>, CredentialsView>, d: Option<Seq<char>>) -> Map<
    Seq<char>,
    CredentialsView,
> {
    Map::new(
        |k: Seq<char>| m.dom().contains(k),
        |k: Seq<char>|
            CredentialsView {
                username: m[k].username,
                password: m[k].password,
                is_default: d == Some(k),
            },
    )
}

/// Whether `r` is what a default-account lookup in `m` may give: a default
/// account, or `None` when there is none.
pub open spec fn is_default_lookup(m: Map<Seq<char>, CredentialsView>, r: Option<Seq<char>>) -> bool {
    match r {
        Some(x) => m.dom().contains(x) && m[x].is_default,
        None => forall|k: Seq<char>| #[trigger] m.dom().contains(k) ==> !m[k].is_default,
    }
}

/// `m` with the identifiers `ids[0..n)` removed one after another.
pub open spec fn removed_in_turn(
    m: Map<Seq<char>, CredentialsView>,
    ids: Seq<Seq<char>>,
    n: int,
) -> Map<Seq<char>, CredentialsView>
    decreases n,
{
    if n <= 0 || n > ids.len() {
        m
    } else {
        removed_in_turn(m, ids, n - 1).remove(ids[n - 1])
    }
}

proof fn lemma_same_ids(e: Seq<EntryView>, f: Seq<EntryView>)
    requires
        distinct_ids(e),
        e.len() == f.len(),
        forall|k: int| 0 <= k < e.len() ==> #[trigger] f[k].0 == e[k].0,
    ensures
        distinct_ids(f),
        forall|id: Seq<char>| has_id(f, id) <==> has_id(e, id),
{
    assert forall|i: int, j: int| 0 <= i < f.len() && 0 <= j < f.len() && i != j implies #[trigger] f[i].0
        != #[trigger] f[j].0 by {
        assert(e[i].0 != e[j].0);
    }
    assert forall|id: Seq<char>| has_id(f, id) <==> has_id(e, id) by {
        if has_id(e, id) {
            let m = choose|m: int| 0 <= m < e.len() && #[trigger] e[m].0 == id;
            assert(f[m].0 == id);
        }
        if has_id(f, id) {
            let m = choose|m: int| 0 <= m < f.len() && #[trigger] f[m].0 == id;
            assert(e[m].0 == id);
        }
    }
}

/// Whether an account is stored under `account_id`.
pub fn account_exists(store: &CredentialStore, account_id: &str) -> (b: bool)
    ensures
        b == store@.dom().contains(account_id@),
{
    store.contains(account_id)
}

/// What is wrong with `input` as the identifier of a new account, if
/// anything: the check made while the identifier is typed.
pub fn check_new_account_id(store: &CredentialStore, input: &str) -> (r: Option<NewAccountError>)
    ensures
        r == new_id_problem(store@, input@),
{
    let id = text::trim_str(input);
    if text::chars_of(id.as_str()).len() == 0 {
        Some(NewAccountError::EmptyId)
    } else if store.contains(id.as_str()) {
        Some(NewAccountError::IdTaken)
    } else {
        None
    }
}

/// Stores a new account: the identifier and the username are trimmed and
/// must not be empty, the identifier must be new, and the password is
/// trimmed; the new account is not the default one. Gives the identifier.
pub fn store_new_account(
    store: &mut CredentialStore,
    account_id: &str,
    username: &str,
    password: &str,
) -> (r: Result<String, NewAccountError>)
    ensures
        new_id_problem(old(store)@, account_id@) matches Some(e) ==> r == Err::<String, _>(e),
        new_id_problem(old(store)@, account_id@) is None && text::trim(username@).len() == 0 ==> r
            == Err::<String, _>(NewAccountError::EmptyUsername),
        r is Err ==> final(store)@ == old(store)@,
        r matches Ok(id) ==> id@ == text::trim(account_id@) && final(store)@ == old(store)@.insert(
            id@,
            CredentialsView {
                username: text::trim(username@),
                password: text::trim(password@),
                is_default: false,
            },
        ),
        r is Ok <==> new_id_problem(old(store)@, account_id@) is None && text::trim(
            username@,
        ).len() > 0,
{
    match check_new_account_id(store, account_id) {
        Some(e) => {
            return Err(e);
        },
        None => {},
    }
    let user = text::trim_str(username);
    if text::chars_of(user.as_str()).len() == 0 {
        return Err(NewAccountError::EmptyUsername);
    }
    let id = text::trim_str(account_id);
    let c = Credentials { username: user, password: text::trim_str(password), is_default: false };
    store.insert(id.clone(), c);
    Ok(id)
}

/// Removes the accounts `account_ids`, one after another; tells for each
/// whether it was there to remove.
pub fn remove_accounts(store: &mut CredentialStore, account_ids: &Vec<String>) -> (r: Vec<bool>)
    ensures
        r.len() == account_ids.len(),
        forall|k: int|
            0 <= k < r.len() ==> #[trigger] r[k] == removed_in_turn(
                old(store)@,
                account_ids@.map_values(|s: String| s@),
                k,
            ).dom().contains(account_ids[k]@),
        final(store)@ == removed_in_turn(
            old(store)@,
            account_ids@.map_values(|s: String| s@),
            account_ids.len() as int,
        ),
{
    let ghost ids = account_ids@.map_values(|s: String| s@);
    let mut r: Vec<bool> = Vec::new();
    let mut i: usize = 0;
    while i < account_ids.len()
        invariant
            i <= account_ids.len(),
            ids == account_ids@.map_values(|s: String| s@),
            r.len() == i,
            forall|k: int|
                0 <= k < i ==> #[trigger] r[k] == removed_in_turn(old(store)@, ids, k).dom().contains(
                    account_ids[k]@,
                ),
            store@ == removed_in_turn(old(store)@, ids, i as int),
        decreases account_ids.len() - i,
    {
        let removed = store.remove(account_ids[i].as_str());
        assert(ids[i as int] == account_ids[i as int]@);
        r.push(removed);
        i = i + 1;
    }
    r
}

/// Updates account `account_id`: its identifier becomes `new_account_id`
/// (which, trimmed, must not be empty nor another account's), its username
/// the trimmed `new_username` (not empty), its password `new_password`
/// unless that is empty; whether it is the default account is kept. Tells
/// whether the identifier changed.
pub fn update_account(
    store: &mut CredentialStore,
    account_id: &str,
    new_account_id: String,
    new_username: &str,
    new_password: String,
) -> (r: Result<bool, UpdateError>)
    ensures
        !old(store)@.dom().contains(account_id@) ==> r == Err::<bool, _>(UpdateError::NotFound),
        old(store)@.dom().contains(account_id@) ==> (renamed_id_problem(
            old(store)@,
            account_id@,
            new_account_id@,
        ) matches Some(e) ==> r == Err::<bool, _>(e)),
        old(store)@.dom().contains(account_id@) && renamed_id_problem(
            old(store)@,
            account_id@,
            new_account_id@,
        ) is None && text::trim(new_username@).len() == 0 ==> r == Err::<bool, _>(
            UpdateError::EmptyUsername,
        ),
        r is Ok <==> old(store)@.dom().contains(account_id@) && renamed_id_problem(
            old(store)@,
            account_id@,
            new_account_id@,
        ) is None && text::trim(new_username@).len() > 0,
        r is Err ==> final(store)@ == old(store)@,
        r matches Ok(renamed) ==> {
            let before = old(store)@[account_id@];
            let after = CredentialsView {
                username: text::trim(new_username@),
                password: if new_password@.len() == 0 {
                    before.password
                } else {
                    new_password@
                },
                is_default: before.is_default,
            };
            &&& renamed == (new_account_id@ != account_id@)
            &&& renamed ==> final(store)@ == old(store)@.remove(account_id@).insert(
                new_account_id@,
                after,
            )
            &&& !renamed ==> final(store)@ == old(store)@.insert(account_id@, after)
        },
{
    let (old_password, was_default) = match store.get(account_id) {
        None => {
            return Err(UpdateError::NotFound);
        },
        Some(c) => (c.password.clone(), c.is_default),
    };
    let trimmed = text::trim_str(new_account_id.as_str());
    if text::chars_of(trimmed.as_str()).len() == 0 {
        return Err(UpdateError::EmptyId);
    }
    if !text::str_eq(trimmed.as_str(), account_id) && store.contains(trimmed.as_str()) {
        return Err(UpdateError::IdTaken);
    }
    let user = text::trim_str(new_username);
    if text::chars_of(user.as_str()).len() == 0 {
        return Err(UpdateError::EmptyUsername);
    }
    let password = if text::chars_of(new_password.as_str()).len() == 0 {
        old_password
    } else {
        new_password
    };
    let c = Credentials { username: user, password, is_default: was_default };
    if text::str_eq(new_account_id.as_str(), account_id) {
        store.insert(new_account_id, c);
        Ok(false)
    } else {
        store.remove(account_id);
        store.insert(new_account_id, c);
        Ok(true)
    }
}

/// The first account (in listing order) that is the default one.
pub fn get_default_account(store: &CredentialStore) -> (r: Option<String>)
    ensures
        is_default_lookup(store@, text::opt_view(r)),
        r matches Some(id) ==> exists|k: int|
            0 <= k < store.entries().len() && store.entries()[k].0 == id@
                && store.entries()[k].1.is_default && forall|j: int|
                0 <= j < k ==> !(#[trigger] store.entries()[j]).1.is_default,
{
    proof {
        use_type_invariant(store);
    }
    let v = store.entries_vec();
    let ghost e = store.entries();
    let mut i: usize = 0;
    while i < v.len()
        invariant
            i <= v.len(),
            v@.map_values(|x: (String, Credentials)| (x.0@, x.1@)) == e,
            e == store.entries(),
            distinct_ids(e),
            forall|j: int| 0 <= j < i ==> !(#[trigger] e[j]).1.is_default,
        decreases v.len() - i,
    {
        if v[i].1.is_default {
            proof {
                lemma_accounts_at(e, i as int);
            }
            return Some(v[i].0.clone());
        }
        i = i + 1;
    }
    assert forall|k: Seq<char>| #[trigger] store@.dom().contains(k) implies !store@[k].is_default by {
        let m = choose|m: int| 0 <= m < e.len() && #[trigger] e[m].0 == k;
        lemma_accounts_at(e, m);
    }
    None
}

/// Makes `id` the only default account, keeping every account's
/// credentials; `d` is `None` to leave no default account.
fn mark_default(store: &mut CredentialStore, d: Option<&str>)
    requires
        d matches Some(x) ==> old(store)@.dom().contains(x@),
    ensures
        final(store)@ == with_default(old(store)@, text::opt_str_view(d)),
{
    proof {
        use_type_invariant(&*store);
    }
    let ghost e0 = store.entries();
    let mut v: Vec<(String, Credentials)> = Vec::new();
    std::mem::swap(&mut v, &mut store.entries);
    let ghost f = |x: (String, Credentials)| (x.0@, x.1@);
    assert(v@.map_values(f) == e0);
    let mut i: usize = 0;
    let ghost dv = text::opt_str_view(d);
    while i < v.len()
        invariant
            i <= v.len(),
            v.len() == e0.len(),
            forall|k: int| 0 <= k < v.len() ==> #[trigger] (v@[k].0@) == e0[k].0,
            forall|k: int| 0 <= k < v.len() ==> (#[trigger] v@[k]).1.username@ == e0[k].1.username
                && v@[k].1.password@ == e0[k].1.password,
            forall|k: int| 0 <= k < i ==> (#[trigger] v@[k]).1.is_default == (dv == Some(e0[k].0)),
            forall|k: int| i <= k < v.len() ==> (#[trigger] v@[k]).1.is_default == e0[k].1.is_default,
            dv == text::opt_str_view(d),
        decreases v.len() - i,
    {
        let is_d = match d {
            Some(x) => text::str_eq(v[i].0.as_str(), x),
            None => false,
        };
        let (id, c) = v.remove(i);
        let c2 = Credentials { username: c.username, password: c.password, is_default: is_d };
        v.insert(i, (id, c2));
        i = i + 1;
    }
    let ghost e1 = v@.map_values(f);
    proof {
        lemma_same_ids(e0, e1);
        assert forall|k: Seq<char>| #[trigger] accounts_of(e1).dom().contains(k) implies accounts_of(
            e1,
        )[k] == with_default(accounts_of(e0), dv)[k] by {
            let m = choose|m: int| 0 <= m < e1.len() && #[trigger] e1[m].0 == k;
            lemma_accounts_at(e1, m);
            lemma_accounts_at(e0, m);
        }
        assert(accounts_of(e1) =~= with_default(accounts_of(e0), dv));
    }
    store.entries = v;
}

/// Makes account `id` the default one, and no other.
pub fn set_default_account(store: &mut CredentialStore, id: &str) -> (r: Result<(), DefaultError>)
    ensures
        r is Err <==> !old(store)@.dom().contains(id@),
        r is Err ==> r == Err::<(), _>(DefaultError::NotFound) && final(store)@ == old(store)@,
        r is Ok ==> final(store)@ == with_default(old(store)@, Some(id@)),
{
    if !store.contains(id) {
        return Err(DefaultError::NotFound);
    }
    mark_default(store, Some(id));
    Ok(())
}

/// Leaves no account the default one.
pub fn clear_default_account(store: &mut CredentialStore)
    ensures
        final(store)@ == with_default(old(store)@, None),
{
    mark_default(store, None);
}

/// The identifier of the first account among `e` whose username is `user`.
pub open spec fn first_account_of_user(e: Seq<EntryView>, user: Seq<char>) -> Option<Seq<char>>
    decreases e.len(),
{
    if e.len() == 0 {
        None
    } else if e[0].1.username == user {
        Some(e[0].0)
    } else {
        first_account_of_user(e.drop_first(), user)
    }
}

/// The account that `first_account_of_user` names is stored with that
/// username; when it names none, no stored account has the username.
pub proof fn lemma_first_account_of_user(e: Seq<EntryView>, user: Seq<char>)
    requires
        distinct_ids(e),
    ensures
        first_account_of_user(e, user) matches Some(id) ==> accounts_of(e).dom().contains(id)
            && accounts_of(e)[id].username == user,
        first_account_of_user(e, user) is None ==> forall|k: Seq<char>| #[trigger]
            accounts_of(e).dom().contains(k) ==> accounts_of(e)[k].username != user,
    decreases e.len(),
{
    if e.len() > 0 {
        let t = e.drop_first();
        assert forall|i: int, j: int| 0 <= i < t.len() && 0 <= j < t.len() && i != j implies #[trigger] t[i].0
            != #[trigger] t[j].0 by {
            assert(e[i + 1].0 != e[j + 1].0);
        }
        lemma_first_account_of_user(t, user);
        if e[0].1.username == user {
            lemma_accounts_at(e, 0);
        } else {
            assert forall|k: Seq<char>| #[trigger] accounts_of(t).dom().contains(k) implies (accounts_of(
                e,
            ).dom().contains(k) && accounts_of(e)[k] == accounts_of(t)[k]) by {
                let m = choose|m: int| 0 <= m < t.len() && #[trigger] t[m].0 == k;
                lemma_accounts_at(t, m);
                lemma_accounts_at(e, m + 1);
            }
            if first_account_of_user(e, user) is None {
                assert forall|k: Seq<char>| #[trigger] accounts_of(e).dom().contains(k) implies accounts_of(
                    e,
                )[k].username != user by {
                    let m = choose|m: int| 0 <= m < e.len() && #[trigger] e[m].0 == k;
                    lemma_accounts_at(e, m);
                    if m > 0 {
                        lemma_accounts_at(t, m - 1);
                    }
                }
            }
        }
    }
}

/// The first account (in listing order) whose username is `username`.
#[verifier::loop_isolation(false)]
pub fn find_account_by_username(store: &CredentialStore, username: &str) -> (r: Option<String>)
    ensures
        text::opt_view(r) == first_account_of_user(store.entries(), username@),
        r matches Some(id) ==> store@.dom().contains(id@) && store@[id@].username == username@,
        r is None ==> forall|k: Seq<char>| #[trigger]
            store@.dom().contains(k) ==> store@[k].username != username@,
{
    proof {
        use_type_invariant(store);
        lemma_first_account_of_user(store.entries(), username@);
    }
    let v = store.entries_vec();
    let ghost e = store.entries();
    let mut i: usize = 0;
    assert(e.skip(0) =~= e);
    while i < v.len()
        invariant
            i <= v.len(),
            v@.map_values(|x: (String, Credentials)| (x.0@, x.1@)) == e,
            first_account_of_user(e, username@) == first_account_of_user(e.skip(i as int), username@),
        decreases v.len() - i,
    {
        assert(e.skip(i as int).drop_first() =~= e.skip(i + 1));
        assert(e.skip(i as int)[0] == e[i as int]);
        if text::str_eq(v[i].1.username.as_str(), username) {
            assert(e[i as int].1.username == username@);
            return Some(v[i].0.clone());
        }
        i = i + 1;
    }
    None
}

/// One line of the account listing.
pub struct AccountListing {
    pub account_id: String,
    pub username: String,
    /// Whether this account's username is the one logged in now
    pub is_current: bool,
}

/// The username of a session user name: without its "@lpu.com" suffixes.
pub open spec fn session_username(full: Seq<char>) -> Seq<char> {
    text::strip_suffixes(full, "@lpu.com"@)
}

/// The listing of the stored accounts, in order, each marked when its
/// username is that of `current_user` (the user name of the active session,
/// if any).
pub fn list_account_ids(store: &CredentialStore, current_user: Option<String>) -> (r: Vec<
    AccountListing,
>)
    ensures
        r.len() == store.entries().len(),
        forall|k: int|
            0 <= k < r.len() ==> {
                &&& (#[trigger] r[k]).account_id@ == store.entries()[k].0
                &&& r[k].username@ == store.entries()[k].1.username
                &&& r[k].is_current == (current_user matches Some(u) && session_username(u@)
                    == store.entries()[k].1.username)
            },
        forall|i: int, j: int|
            0 <= i < r.len() && 0 <= j < r.len() && i != j ==> (#[trigger] r[i]).account_id@
                != (#[trigger] r[j]).account_id@,
        forall|id: Seq<char>| #[trigger]
            store@.dom().contains(id) <==> exists|k: int|
                0 <= k < r.len() && (#[trigger] r[k]).account_id@ == id,
        forall|k: int|
            0 <= k < r.len() ==> (#[trigger] r[k]).username@ == store@[r[k].account_id@].username,
{
    let current = match current_user {
        Some(u) => Some(text::trim_end_matches_str(u.as_str(), "@lpu.com")),
        None => None,
    };
    let v = store.entries_vec();
    let ghost e = store.entries();
    let mut r: Vec<AccountListing> = Vec::new();
    let mut i: usize = 0;
    while i < v.len()
        invariant
            i <= v.len(),
            v@.map_values(|x: (String, Credentials)| (x.0@, x.1@)) == e,
            e == store.entries(),
            r.len() == i,
            current matches Some(c) ==> current_user matches Some(u) && c@ == session_username(u@),
            current is None ==> current_user is None,
            forall|k: int|
                0 <= k < i ==> {
                    &&& (#[trigger] r[k]).account_id@ == e[k].0
                    &&& r[k].username@ == e[k].1.username
                    &&& r[k].is_current == (current_user matches Some(u) && session_username(u@)
                        == e[k].1.username)
                },
        decreases v.len() - i,
    {
        let is_current = match &current {
            Some(c) => text::str_eq(c.as_str(), v[i].1.username.as_str()),
            None => false,
        };
        r.push(
            AccountListing {
                account_id: v[i].0.clone(),
                username: v[i].1.username.clone(),
                is_current,
            },
        );
        i = i + 1;
    }
    assert forall|id: Seq<char>| #[trigger]
        store@.dom().contains(id) <==> exists|k: int|
            0 <= k < r.len() && (#[trigger] r[k]).account_id@ == id by {
        if store@.dom().contains(id) {
            let k = choose|k: int| 0 <= k < e.len() && #[trigger] e[k].0 == id;
            assert(r[k].account_id@ == id);
        }
        if exists|k: int| 0 <= k < r.len() && (#[trigger] r[k]).account_id@ == id {
            let k = choose|k: int| 0 <= k < r.len() && (#[trigger] r[k]).account_id@ == id;
            assert(e[k].0 == id);
        }
    }
    r
}

/// After account `id` is made the default one, it is the only default
/// account, every account keeps its credentials, and looking up the default
/// account gives `id`.
pub proof fn law_set_default_then_lookup(
    before: Map<Seq<char>, CredentialsView>,
    id: Seq<char>,
    got: Option<Seq<char>>,
)
    requires
        before.dom().contains(id),
        is_default_lookup(with_default(before, Some(id)), got),
    ensures
        got == Some(id),
        forall|k: Seq<char>| #[trigger]
            with_default(before, Some(id)).dom().contains(k) ==> (with_default(
                before,
                Some(id),
            )[k].is_default <==> k == id),
        with_default(before, Some(id)).dom() == before.dom(),
        forall|k: Seq<char>| #[trigger]
            before.dom().contains(k) ==> with_default(before, Some(id))[k].username
                == before[k].username && with_default(before, Some(id))[k].password
                == before[k].password,
{
    let after = with_default(before, Some(id));
    assert(after.dom() =~= before.dom());
    if got is None {
        assert(after.dom().contains(id));
        assert(after[id].is_default);
    }
}

/// After the default account is cleared, looking up the default account
/// finds none.
pub proof fn law_clear_default_then_lookup(before: Map<Seq<char>, CredentialsView>, got: Option<Seq<char>>)
    requires
        is_default_lookup(with_default(before, None), got),
    ensures
        got is None,
{
}

/// After accounts are removed, none of them is stored any more, and every
/// other account is kept as it was.
pub proof fn law_removed_accounts_are_gone(
    before: Map<Seq<char>, CredentialsView>,
    ids: Seq<Seq<char>>,
    n: int,
)
    requires
        0 <= n <= ids.len(),
    ensures
        forall|j: int| 0 <= j < n ==> !removed_in_turn(before, ids, n).dom().contains(#[trigger] ids[j]),
        forall|k: Seq<char>|
            (forall|j: int| 0 <= j < n ==> ids[j] != k) ==> (#[trigger] removed_in_turn(
                before,
                ids,
                n,
            ).dom().contains(k) <==> before.dom().contains(k)),
        forall|k: Seq<char>| #[trigger]
            removed_in_turn(before, ids, n).dom().contains(k) ==> removed_in_turn(before, ids, n)[k]
                == before[k],
    decreases n,
{
    if n > 0 {
        law_removed_accounts_are_gone(before, ids, n - 1);
        let prev = removed_in_turn(before, ids, n - 1);
        assert forall|k: Seq<char>|
            (forall|j: int| 0 <= j < n ==> ids[j] != k) implies (#[trigger] removed_in_turn(
                before,
                ids,
                n,
            ).dom().contains(k) <==> before.dom().contains(k)) by {
            assert(forall|j: int| 0 <= j < n - 1 ==> ids[j] != k);
            assert(ids[n - 1] != k);
        }
    }
}

/// At most one account of `m` is the default one.
pub open spec fn single_default(m: Map<Seq<char>, CredentialsView>) -> bool {
    forall|a: Seq<char>, b: Seq<char>|
        m.dom().contains(a) && m.dom().contains(b) && (#[trigger] m[a]).is_default
            && (#[trigger] m[b]).is_default ==> a == b
}

/// Every change the commands make to the store keeps at most one default
/// account: storing a new (non-default) account, removing one, updating
/// one (which keeps its default mark, under its old or new identifier),
/// and setting or clearing the default.
pub proof fn law_single_default_kept(
    m: Map<Seq<char>, CredentialsView>,
    id: Seq<char>,
    new_id: Seq<char>,
    c: CredentialsView,
    d: Option<Seq<char>>,
)
    requires
        single_default(m),
    ensures
        !c.is_default ==> single_default(m.insert(id, c)),
        single_default(m.remove(id)),
        m.dom().contains(id) && c.is_default == m[id].is_default ==> single_default(
            m.remove(id).insert(new_id, c),
        ),
        m.dom().contains(id) && c.is_default == m[id].is_default ==> single_default(
            m.insert(id, c),
        ),
        single_default(with_default(m, d)),
{
    let r = m.remove(id).insert(new_id, c);
    if m.dom().contains(id) && c.is_default == m[id].is_default {
        assert forall|a: Seq<char>, b: Seq<char>|
            r.dom().contains(a) && r.dom().contains(b) && (#[trigger] r[a]).is_default
                && (#[trigger] r[b]).is_default implies a == b by {
            if a != new_id && b != new_id {
                assert(m[a].is_default && m[b].is_default);
            } else if a == new_id && b != new_id {
                assert(m[id].is_default && m[b].is_default && b != id);
            } else if a != new_id && b == new_id {
                assert(m[id].is_default && m[a].is_default && a != id);
            }
        }
        let q = m.insert(id, c);
        assert forall|a: Seq<char>, b: Seq<char>|
            q.dom().contains(a) && q.dom().contains(b) && (#[trigger] q[a]).is_default
                && (#[trigger] q[b]).is_default implies a == b by {
            if a != id && b != id {
                assert(m[a].is_default && m[b].is_default);
            } else if a == id && b != id {
                assert(m[id].is_default && m[b].is_default);
            } else if a != id && b == id {
                assert(m[id].is_default && m[a].is_default);
            }
        }
    }
    if !c.is_default {
        let q = m.insert(id, c);
        assert forall|a: Seq<char>, b: Seq<char>|
            q.dom().contains(a) && q.dom().contains(b) && (#[trigger] q[a]).is_default
                && (#[trigger] q[b]).is_default implies a == b by {
            assert(a != id && b != id);
            assert(m[a].is_default && m[b].is_default);
        }
    }
    let q = m.remove(id);
    assert forall|a: Seq<char>, b: Seq<char>|
        q.dom().contains(a) && q.dom().contains(b) && (#[trigger] q[a]).is_default
            && (#[trigger] q[b]).is_default implies a == b by {
        assert(m[a].is_default && m[b].is_default);
    }
}

proof fn lemma_stored_in_turn_distinct(p: Seq<EntryView>)
    requires
        distinct_ids(p),
    ensures
        stored_in_turn(Map::<Seq<char>, CredentialsView>::empty(), p) == accounts_of(p),
    decreases p.len(),
{
    if p.len() == 0 {
        assert(accounts_of(p) =~= Map::<Seq<char>, CredentialsView>::empty());
    } else {
        let q = p.drop_last();
        let x = p.last();
        assert forall|i: int, j: int| 0 <= i < q.len() && 0 <= j < q.len() && i != j implies #[trigger] q[i].0
            != #[trigger] q[j].0 by {
            assert(p[i].0 != p[j].0);
        }
        lemma_stored_in_turn_distinct(q);
        if has_id(q, x.0) {
            let k = choose|k: int| 0 <= k < q.len() && #[trigger] q[k].0 == x.0;
            assert(p[k].0 == p[p.len() - 1].0);
        }
        lemma_push(q, x);
        assert(q.push(x) =~= p);
    }
}

/// A store rebuilt from a listing of its accounts, each listed once and in
/// any order (as the credentials file gives them back), is the same store.
pub proof fn law_rebuilt_from_listing(e: Seq<EntryView>, p: Seq<EntryView>)
    requires
        distinct_ids(e),
        distinct_ids(p),
        forall|x: EntryView| p.contains(x) <==> e.contains(x),
    ensures
        stored_in_turn(Map::<Seq<char>, CredentialsView>::empty(), p) == accounts_of(e),
{
    lemma_stored_in_turn_distinct(p);
    assert forall|id: Seq<char>| has_id(p, id) <==> has_id(e, id) by {
        if has_id(p, id) {
            let k = choose|k: int| 0 <= k < p.len() && #[trigger] p[k].0 == id;
            assert(p.contains(p[k]));
            let j = choose|j: int| 0 <= j < e.len() && e[j] == p[k];
            assert(e[j].0 == id);
        }
        if has_id(e, id) {
            let k = choose|k: int| 0 <= k < e.len() && #[trigger] e[k].0 == id;
            assert(e.contains(e[k]));
            let j = choose|j: int| 0 <= j < p.len() && p[j] == e[k];
            assert(p[j].0 == id);
        }
    }
    assert forall|id: Seq<char>| #[trigger] has_id(p, id) implies accounts_of(p)[id] == accounts_of(
        e,
    )[id] by {
        let k = choose|k: int| 0 <= k < p.len() && #[trigger] p[k].0 == id;
        lemma_accounts_at(p, k);
        assert(p.contains(p[k]));
        let j = choose|j: int| 0 <= j < e.len() && e[j] == p[k];
        lemma_accounts_at(e, j);
    }
    assert(accounts_of(p) =~= accounts_of(e));
}

/// What is wrong with `input` as the new identifier of account
/// `account_id`, if anything: the check made while it is typed.
pub fn check_renamed_account_id(store: &CredentialStore, account_id: &str, input: &str) -> (r:
    Option<UpdateError>)
    ensures
        r == renamed_id_problem(store@, account_id@, input@),
{
    let id = text::trim_str(input);
    if text::chars_of(id.as_str()).len() == 0 {
        Some(UpdateError::EmptyId)
    } else if !text::str_eq(id.as_str(), account_id) && store.contains(id.as_str()) {
        Some(UpdateError::IdTaken)
    } else {
        None
    }
}

/// A session user name stands for the username it carries: an
/// "@lpu.com" suffix is dropped (as often as it is repeated), and a name
/// without that suffix is the username itself.
pub proof fn law_session_username(user: Seq<char>)
    ensures
        session_username(user + "@lpu.com"@) == session_username(user),
        !text::ends_with(user, "@lpu.com"@) ==> session_username(user) == user,
{
    reveal_strlit("@lpu.com");
    let p = "@lpu.com"@;
    let s = user + p;
    assert(s.subrange(s.len() - p.len(), s.len() as int) =~= p);
    assert(s.subrange(0, s.len() - p.len()) =~= user);
}

/// The identifier checks: a new account's identifier is refused as empty
/// exactly when it is blank, and as taken exactly when an account is
/// stored under it (trimmed); a renamed account may keep its own
/// identifier, and is refused another one that is blank or taken.
pub proof fn law_account_id_checks(
    m: Map<Seq<char>, CredentialsView>,
    id: Seq<char>,
    input: Seq<char>,
)
    ensures
        new_id_problem(m, input) == Some(NewAccountError::EmptyId) <==> text::trim(input).len()
            == 0,
        new_id_problem(m, input) == Some(NewAccountError::IdTaken) <==> text::trim(input).len()
            > 0 && m.dom().contains(text::trim(input)),
        new_id_problem(m, input) is None <==> text::trim(input).len() > 0 && !m.dom().contains(
            text::trim(input),
        ),
        renamed_id_problem(m, id, input) == Some(UpdateError::EmptyId) <==> text::trim(input).len()
            == 0,
        renamed_id_problem(m, id, input) == Some(UpdateError::IdTaken) <==> text::trim(
            input,
        ).len() > 0 && text::trim(input) != id && m.dom().contains(text::trim(input)),
        renamed_id_problem(m, id, input) is None <==> text::trim(input).len() > 0 && (text::trim(
            input,
        ) == id || !m.dom().contains(text::trim(input))),
{
}

} // verus!
