//! User accounts: registration, password checks and characters per account.
use vstd::prelude::*;
use crate::keyed::{as_map, entries_view, find_key, keys_of, keys_unique, lemma_keys_are_domain, remove_key, upsert};
use crate::platform::{new_uuid_string, unix_now_secs};
use crate::text::{copy_opt_string, copy_strings, opt_string_view, strings_contain, strings_view};

verus! {

#[verifier::external_type_specification]
#[verifier::external_body]
pub struct ExBcryptError(bcrypt::BcryptError);

/// Whether `bcrypt::verify(password, hash)` returns `Ok(true)`.
pub uninterp spec fn bcrypt_verifies(password: Seq<char>, hash: Seq<char>) -> bool;

/// `bcrypt::hash(password, DEFAULT_COST)`. The salt is random, so the hash
/// itself is not named; what is claimed is the crate's round trip: a hash it
/// returns verifies against the password it was made from (`verify` splits
/// the hash into cost and salt and recomputes the same digest).
#[verifier::external_body]
pub(crate) fn bcrypt_hash(password: &str) -> (r: Result<String, bcrypt::BcryptError>)
    ensures
        r matches Ok(h) ==> bcrypt_verifies(password@, h@),
{
    bcrypt::hash(password, bcrypt::DEFAULT_COST)
}

/// `bcrypt::verify(password, hash)`: `Ok(true)` exactly when
/// `bcrypt_verifies` holds of the two strings.
#[verifier::external_body]
pub(crate) fn bcrypt_verify(password: &str, hash: &str) -> (r: Result<bool, bcrypt::BcryptError>)
    ensures
        (r matches Ok(true)) == bcrypt_verifies(password@, hash@),
{
    bcrypt::verify(password, hash)
}

/// A user account.
#[derive(Debug)]
pub struct UserAccount {
    pub id: String,
    pub username: String,
    pub password_hash: String,
    pub email: Option<String>,
    pub characters: Vec<String>,
    pub created_at: u64,
    pub last_login: Option<u64>,
}

pub struct UserAccountView {
    pub id: Seq<char>,
    pub username: Seq<char>,
    pub password_hash: Seq<char>,
    pub email: Option<Seq<char>>,
    pub characters: Seq<Seq<char>>,
    pub created_at: u64,
    pub last_login: Option<u64>,
}

impl View for UserAccount {
    type V = UserAccountView;

    open spec fn view(&self) -> UserAccountView {
        UserAccountView {
            id: self.id@,
            username: self.username@,
            password_hash: self.password_hash@,
            email: opt_string_view(self.email),
            characters: strings_view(self.characters@),
            created_at: self.created_at,
            last_login: self.last_login,
        }
    }
}

impl UserAccount {
    /// A copy of this account.
    pub fn duplicate(&self) -> (r: UserAccount)
        ensures
            r@ == self@,
    {
        UserAccount {
            id: self.id.clone(),
            username: self.username.clone(),
            password_hash: self.password_hash.clone(),
            email: copy_opt_string(&self.email),
            characters: copy_strings(&self.characters),
            created_at: self.created_at,
            last_login: self.last_login,
        }
    }
}

/// Errors of account operations.
#[derive(Debug, Clone, Copy, PartialEq, Eq, Structural)]
pub enum AccountError {
    UsernameExists,
    InvalidCredentials,
    AccountNotFound,
    HashingFailed,
}

/// The message shown for each account error.
pub open spec fn account_error_message(e: AccountError) -> Seq<char> {
    match e {
        AccountError::UsernameExists => "Username already exists"@,
        AccountError::InvalidCredentials => "Invalid credentials"@,
        AccountError::AccountNotFound => "Account not found"@,
        AccountError::HashingFailed => "Failed to hash password"@,
    }
}

impl AccountError {
    pub fn message(&self) -> (s: String)
        ensures
            s@ == account_error_message(*self),
    {
        match self {
            AccountError::UsernameExists => String::from_str("Username already exists"),
            AccountError::InvalidCredentials => String::from_str("Invalid credentials"),
            AccountError::AccountNotFound => String::from_str("Account not found"),
            AccountError::HashingFailed => String::from_str("Failed to hash password"),
        }
    }
}

/// All accounts, keyed by username, with an index from account id to username.
#[derive(Debug)]
pub struct AccountManager {
    pub accounts: Vec<(String, UserAccount)>,
    pub account_ids: Vec<(String, String)>,
}

/// Every account is stored under its own username.
pub open spec fn stored_under_names(accounts: Map<Seq<char>, UserAccountView>) -> bool {
    forall|u: Seq<char>| #[trigger] accounts.dom().contains(u) ==> accounts[u].username == u
}

/// Every id in the index names a stored account whose id is that id.
pub open spec fn index_names_accounts(accounts: Map<Seq<char>, UserAccountView>, ids: Map<Seq<char>, Seq<char>>) -> bool {
    forall|id: Seq<char>| #[trigger] ids.dom().contains(id) ==> accounts.dom().contains(ids[id]) && accounts[ids[id]].id == id
}

/// Whether `password` opens the account stored under `username`.
pub open spec fn credentials_valid(accounts: Map<Seq<char>, UserAccountView>, username: Seq<char>, password: Seq<char>) -> bool {
    accounts.dom().contains(username) && bcrypt_verifies(password, accounts[username].password_hash)
}

impl AccountManager {
    /// Accounts by username.
    pub open spec fn account_map(&self) -> Map<Seq<char>, UserAccountView> {
        as_map(entries_view(self.accounts@))
    }

    /// Usernames by account id.
    pub open spec fn id_map(&self) -> Map<Seq<char>, Seq<char>> {
        as_map(entries_view(self.account_ids@))
    }

    /// Each username and each id is stored once, every account is stored
    /// under its own username, and every id in the index names a stored
    /// account that has that id.
    pub open spec fn wf(&self) -> bool {
        &&& keys_unique(entries_view(self.accounts@))
        &&& keys_unique(entries_view(self.account_ids@))
        &&& stored_under_names(self.account_map())
        &&& index_names_accounts(self.account_map(), self.id_map())
    }

    pub fn new() -> (m: AccountManager)
        ensures
            m.wf(),
            m.account_map() == Map::<Seq<char>, UserAccountView>::empty(),
            m.id_map() == Map::<Seq<char>, Seq<char>>::empty(),
    {
        let m = AccountManager { accounts: Vec::new(), account_ids: Vec::new() };
        assert(m.account_map() =~= Map::<Seq<char>, UserAccountView>::empty());
        assert(m.id_map() =~= Map::<Seq<char>, Seq<char>>::empty());
        m
    }

    /// Whether an account with this username exists.
    pub fn username_exists(&self, username: &str) -> (r: bool)
        ensures
            r == self.account_map().dom().contains(username@),
    {
        find_key(&self.accounts, username).is_some()
    }

    /// A copy of the account with this username.
    pub fn get_account_by_username(&self, username: &str) -> (r: Option<UserAccount>)
        ensures
            match r {
                Some(a) => self.account_map().dom().contains(username@) && a@ == self.account_map()[username@],
                None => !self.account_map().dom().contains(username@),
            },
    {
        match find_key(&self.accounts, username) {
            Some(i) => Some(self.accounts[i].1.duplicate()),
            None => None,
        }
    }

    /// A copy of the account with this id.
    pub fn get_account_by_id(&self, id: &str) -> (r: Option<UserAccount>)
        ensures
            match r {
                Some(a) => self.id_map().dom().contains(id@) && self.account_map().dom().contains(self.id_map()[id@])
                    && a@ == self.account_map()[self.id_map()[id@]],
                None => !(self.id_map().dom().contains(id@) && self.account_map().dom().contains(self.id_map()[id@])),
            },
            self.wf() ==> (r is Some <==> self.id_map().dom().contains(id@)),
            self.wf() ==> (r matches Some(a) ==> a@.id == id@ && a@.username == self.id_map()[id@]),
    {
        match find_key(&self.account_ids, id) {
            Some(i) => self.get_account_by_username(self.account_ids[i].1.as_str()),
            None => None,
        }
    }

    /// Every username, each once.
    pub fn get_all_usernames(&self) -> (r: Vec<String>)
        requires
            self.wf(),
        ensures
            strings_view(r@).no_duplicates(),
            strings_view(r@).to_set() == self.account_map().dom(),
    {
        let ghost s = entries_view(self.accounts@);
        let mut r: Vec<String> = Vec::new();
        let mut i: usize = 0;
        while i < self.accounts.len()
            invariant
                i <= self.accounts.len(),
                s == entries_view(self.accounts@),
                strings_view(r@) == keys_of(s.subrange(0, i as int)),
            decreases self.accounts.len() - i,
        {
            let ghost prev = r@;
            r.push(self.accounts[i].0.clone());
            assert(strings_view(r@) =~= strings_view(prev).push(s[i as int].0));
            assert(keys_of(s.subrange(0, i as int + 1)) =~= keys_of(s.subrange(0, i as int)).push(s[i as int].0));
            i = i + 1;
        }
        proof {
            assert(s.subrange(0, i as int) =~= s);
            lemma_keys_are_domain(s);
        }
        r
    }
}


/// The account after a successful login at some time.
pub open spec fn logged_in(a: UserAccountView, at: Option<u64>) -> UserAccountView {
    UserAccountView { last_login: at, ..a }
}

/// The account with one more character (none added if already listed).
pub open spec fn with_character(a: UserAccountView, character_id: Seq<char>) -> UserAccountView {
    if a.characters.contains(character_id) {
        a
    } else {
        UserAccountView { characters: a.characters.push(character_id), ..a }
    }
}

impl AccountManager {
    /// Creates an account. Fails with `UsernameExists` when the name is
    /// taken, and with `HashingFailed` when the password hash could not be
    /// made; neither failure changes anything.
    pub fn register_account(&mut self, username: &str, password: &str, email: Option<&str>) -> (r: Result<
        UserAccount,
        AccountError,
    >)
        requires
            old(self).wf(),
        ensures
            final(self).wf(),
            old(self).account_map().dom().contains(username@) ==> r == Err::<UserAccount, AccountError>(
                AccountError::UsernameExists,
            ),
            match r {
                Ok(acc) => {
                    &&& !old(self).account_map().dom().contains(username@)
                    &&& acc@.username == username@
                    &&& bcrypt_verifies(password@, acc@.password_hash)
                    &&& acc@.email == (match email {
                        Some(e) => Some(e@),
                        None => None,
                    })
                    &&& acc@.characters == Seq::<Seq<char>>::empty()
                    &&& acc@.last_login == None::<u64>
                    &&& final(self).account_map() == old(self).account_map().insert(username@, acc@)
                    &&& final(self).id_map() == old(self).id_map().insert(acc@.id, username@)
                },
                Err(e) => {
                    &&& (e == AccountError::UsernameExists || e == AccountError::HashingFailed)
                    &&& (e == AccountError::UsernameExists <==> old(self).account_map().dom().contains(username@))
                    &&& final(self).account_map() == old(self).account_map()
                    &&& final(self).id_map() == old(self).id_map()
                },
            },
    {
        if find_key(&self.accounts, username).is_some() {
            return Err(AccountError::UsernameExists);
        }
        let password_hash = match bcrypt_hash(password) {
            Ok(h) => h,
            Err(_) => {
                return Err(AccountError::HashingFailed);
            },
        };
        let account_id = new_uuid_string();
        let now = unix_now_secs();
        let email_owned: Option<String> = match email {
            Some(e) => Some(String::from_str(e)),
            None => None,
        };
        let account = UserAccount {
            id: account_id,
            username: String::from_str(username),
            password_hash,
            email: email_owned,
            characters: Vec::new(),
            created_at: now,
            last_login: None,
        };
        assert(account@.characters =~= Seq::<Seq<char>>::empty());
        let stored = account.duplicate();
        let id_key = account.id.clone();
        upsert(&mut self.accounts, String::from_str(username), stored);
        upsert(&mut self.account_ids, id_key, String::from_str(username));
        Ok(account)
    }

    /// Checks a password. On success records the login time and returns the
    /// updated account; otherwise fails with `InvalidCredentials` and
    /// changes nothing.
    pub fn authenticate(&mut self, username: &str, password: &str) -> (r: Result<UserAccount, AccountError>)
        requires
            old(self).wf(),
        ensures
            final(self).wf(),
            final(self).id_map() == old(self).id_map(),
            r is Ok <==> credentials_valid(old(self).account_map(), username@, password@),
            match r {
                Ok(acc) => {
                    &&& acc@.last_login is Some
                    &&& acc@ == logged_in(old(self).account_map()[username@], acc@.last_login)
                    &&& final(self).account_map() == old(self).account_map().insert(username@, acc@)
                },
                Err(e) => e == AccountError::InvalidCredentials && final(self).account_map() == old(self).account_map(),
            },
    {
        let i = match find_key(&self.accounts, username) {
            Some(i) => i,
            None => {
                return Err(AccountError::InvalidCredentials);
            },
        };
        let ghost s = entries_view(self.accounts@);
        proof {
            crate::keyed::lemma_index_of_key(s, username@);
        }
        let ok = match bcrypt_verify(password, self.accounts[i].1.password_hash.as_str()) {
            Ok(b) => b,
            Err(_) => false,
        };
        if !ok {
            return Err(AccountError::InvalidCredentials);
        }
        let now = unix_now_secs();
        let mut updated = self.accounts[i].1.duplicate();
        updated.last_login = Some(now);
        let result = updated.duplicate();
        upsert(&mut self.accounts, String::from_str(username), updated);
        Ok(result)
    }

    /// Lists a character under an account (once).
    pub fn add_character(&mut self, username: &str, character_id: &str) -> (r: Result<(), AccountError>)
        requires
            old(self).wf(),
        ensures
            final(self).wf(),
            final(self).id_map() == old(self).id_map(),
            !old(self).account_map().dom().contains(username@) ==> r == Err::<(), AccountError>(
                AccountError::AccountNotFound,
            ) && final(self).account_map() == old(self).account_map(),
            old(self).account_map().dom().contains(username@) ==> r == Ok::<(), AccountError>(())
                && final(self).account_map() == old(self).account_map().insert(
                username@,
                with_character(old(self).account_map()[username@], character_id@),
            ),
    {
        let i = match find_key(&self.accounts, username) {
            Some(i) => i,
            None => {
                return Err(AccountError::AccountNotFound);
            },
        };
        let ghost s = entries_view(self.accounts@);
        proof {
            crate::keyed::lemma_index_of_key(s, username@);
        }
        if strings_contain(&self.accounts[i].1.characters, character_id) {
            proof {
                assert(old(self).account_map().insert(username@, old(self).account_map()[username@])
                    =~= old(self).account_map());
            }
            return Ok(());
        }
        let mut updated = self.accounts[i].1.duplicate();
        updated.characters.push(String::from_str(character_id));
        assert(updated@.characters =~= self.accounts@[i as int].1@.characters.push(character_id@));
        upsert(&mut self.accounts, String::from_str(username), updated);
        Ok(())
    }

    /// Replaces the password after checking the current one. The login
    /// check records the login time even when hashing the new password fails.
    pub fn change_password(&mut self, username: &str, current_password: &str, new_password: &str) -> (r: Result<
        (),
        AccountError,
    >)
        requires
            old(self).wf(),
        ensures
            final(self).wf(),
            final(self).id_map() == old(self).id_map(),
            !credentials_valid(old(self).account_map(), username@, current_password@) ==> r == Err::<(), AccountError>(
                AccountError::InvalidCredentials,
            ) && final(self).account_map() == old(self).account_map(),
            credentials_valid(old(self).account_map(), username@, current_password@) ==> {
                let a = final(self).account_map()[username@];
                &&& final(self).account_map() == old(self).account_map().insert(username@, a)
                &&& a.last_login is Some
                &&& match r {
                    Ok(_) => {
                        &&& a == UserAccountView {
                            password_hash: a.password_hash,
                            last_login: a.last_login,
                            ..old(self).account_map()[username@]
                        }
                        &&& bcrypt_verifies(new_password@, a.password_hash)
                    },
                    Err(e) => e == AccountError::HashingFailed && a == logged_in(
                        old(self).account_map()[username@],
                        a.last_login,
                    ),
                }
            },
    {
        let authenticated = match self.authenticate(username, current_password) {
            Ok(a) => a,
            Err(e) => {
                return Err(e);
            },
        };
        proof {
            crate::keyed::lemma_index_of_key(entries_view(self.accounts@), username@);
        }
        let password_hash = match bcrypt_hash(new_password) {
            Ok(h) => h,
            Err(_) => {
                return Err(AccountError::HashingFailed);
            },
        };
        let mut updated = authenticated;
        updated.password_hash = password_hash;
        upsert(&mut self.accounts, String::from_str(username), updated);
        Ok(())
    }

    /// Deletes an account after checking its password.
    pub fn delete_account(&mut self, username: &str, password: &str) -> (r: Result<(), AccountError>)
        requires
            old(self).wf(),
        ensures
            final(self).wf(),
            credentials_valid(old(self).account_map(), username@, password@) ==> r == Ok::<(), AccountError>(())
                && final(self).account_map() == old(self).account_map().remove(username@) && final(self).id_map()
                == old(self).id_map().remove(old(self).account_map()[username@].id),
            !credentials_valid(old(self).account_map(), username@, password@) ==> r == Err::<(), AccountError>(
                AccountError::InvalidCredentials,
            ) && final(self).account_map() == old(self).account_map() && final(self).id_map() == old(self).id_map(),
    {
        let account = match self.authenticate(username, password) {
            Ok(a) => a,
            Err(e) => {
                return Err(e);
            },
        };
        remove_key(&mut self.account_ids, account.id.as_str());
        remove_key(&mut self.accounts, username);
        proof {
            assert(old(self).account_map().insert(username@, account@).remove(username@)
                =~= old(self).account_map().remove(username@));
        }
        Ok(())
    }
}

/// Registering a name makes it exist, and the password given at
/// registration then passes the login check for that name.
pub proof fn law_register_then_login(
    before: Map<Seq<char>, UserAccountView>,
    username: Seq<char>,
    password: Seq<char>,
    acc: UserAccountView,
)
    requires
        acc.username == username,
        bcrypt_verifies(password, acc.password_hash),
    ensures
        before.insert(username, acc).dom().contains(username),
        credentials_valid(before.insert(username, acc), username, password),
{
}

/// A login that succeeds leaves the password check passing: logging in
/// again with the same password succeeds too.
pub proof fn law_login_is_repeatable(
    accounts: Map<Seq<char>, UserAccountView>,
    username: Seq<char>,
    password: Seq<char>,
    at: Option<u64>,
)
    requires
        credentials_valid(accounts, username, password),
    ensures
        credentials_valid(accounts.insert(username, logged_in(accounts[username], at)), username, password),
{
}

/// Right after a registration, looking up the new account's id finds that
/// account under the name it was registered with, and every id that was
/// indexed before still names an account with that id.
pub proof fn law_registered_id_found(
    accounts: Map<Seq<char>, UserAccountView>,
    ids: Map<Seq<char>, Seq<char>>,
    username: Seq<char>,
    acc: UserAccountView,
)
    requires
        stored_under_names(accounts),
        index_names_accounts(accounts, ids),
        !accounts.dom().contains(username),
        acc.username == username,
    ensures
        ids.insert(acc.id, username).dom().contains(acc.id),
        ids.insert(acc.id, username)[acc.id] == username,
        accounts.insert(username, acc)[ids.insert(acc.id, username)[acc.id]] == acc,
        stored_under_names(accounts.insert(username, acc)),
        index_names_accounts(accounts.insert(username, acc), ids.insert(acc.id, username)),
{
}

/// After deleting an account its name no longer exists.
pub proof fn law_delete_removes_name(accounts: Map<Seq<char>, UserAccountView>, username: Seq<char>)
    ensures
        !accounts.remove(username).dom().contains(username),
{
}

} // verus!
