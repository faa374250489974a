//! Antigravity subscription account files.
//!
//! Each account is a named file at `~/.shunt/accounts/antigravity/<name>.json`,
//! or at `$SHUNT_ANTIGRAVITY_ACCOUNTS_DIR/<name>.json`. It holds a login in one
//! flat JSON record.

use vstd::prelude::*;
use vstd::string::StringExecFns;

use crate::json::{self, write_record, Leaf};
use crate::shared::{self, account_path_in, scan_account_dir, DirListing};
use crate::text::{self, contains_white_space, trim};

pub use crate::shared::validate_account_name;

verus! {

/// The environment variable that moves the accounts elsewhere.
pub const ACCOUNTS_DIR_ENV: &'static str = "SHUNT_ANTIGRAVITY_ACCOUNTS_DIR";

/// The directory of this store among those of the other providers.
pub const STORE_DIR: &'static str = "antigravity";

/// An account that a scan of the store found.
#[derive(Debug)]
pub struct AccountConfig {
    /// The account's name, which is that of its file.
    pub name: String,
    /// The account's identity upstream, where the store knows one. Without it
    /// the pool goes by the name.
    pub uuid: Option<String>,
}

/// A login as an account file holds it.
#[derive(Debug)]
pub struct StoredAuth {
    pub access_token: String,
    pub refresh_token: String,
    pub expiry_date: Option<u64>,
    pub email: Option<String>,
    pub project_id: Option<String>,
}

/// What a login says.
pub ghost struct AuthView {
    pub access_token: Seq<char>,
    pub refresh_token: Seq<char>,
    pub expiry_date: Option<u64>,
    pub email: Option<Seq<char>>,
    pub project_id: Option<Seq<char>>,
}

/// The characters of an optional text.
pub open spec fn optional_text(text: Option<String>) -> Option<Seq<char>> {
    match text {
        Some(s) => Some(s@),
        None => None,
    }
}

/// The characters of an optional borrowed text.
pub open spec fn optional_str(text: Option<&str>) -> Option<Seq<char>> {
    match text {
        Some(s) => Some(s@),
        None => None,
    }
}

impl View for StoredAuth {
    type V = AuthView;

    open spec fn view(&self) -> AuthView {
        AuthView {
            access_token: self.access_token@,
            refresh_token: self.refresh_token@,
            expiry_date: self.expiry_date,
            email: optional_text(self.email),
            project_id: optional_text(self.project_id),
        }
    }
}

/// A file to be written: where, and what it is to hold. It holds secrets, so
/// it and its directory are for their owner alone.
#[derive(Debug)]
pub struct AccountFile {
    pub path: String,
    pub contents: String,
}

/// Why a login is not stored.
#[derive(Debug)]
pub enum StoreError {
    /// No account may have this name.
    InvalidName { name: String },
    /// The access token is empty, or has white space in it.
    InvalidAccessToken,
    /// The refresh token is empty, or has white space in it.
    InvalidRefreshToken,
}

/// One value without white space.
pub open spec fn is_token(s: Seq<char>) -> bool {
    s.len() > 0 && !text::has_white(s)
}

/// A label as it is kept: trimmed, and none where nothing is left.
pub open spec fn label(text: Option<Seq<char>>) -> Option<Seq<char>> {
    match text {
        Some(s) => if text::trimmed(s).len() > 0 {
            Some(text::trimmed(s))
        } else {
            None
        },
        None => None,
    }
}

/// A login as it is kept.
pub open spec fn kept(login: AuthView) -> AuthView {
    AuthView {
        access_token: text::trimmed(login.access_token),
        refresh_token: text::trimmed(login.refresh_token),
        expiry_date: login.expiry_date,
        email: label(login.email),
        project_id: label(login.project_id),
    }
}

/// A login that can be stored under `name`.
pub open spec fn is_storable(name: Seq<char>, login: AuthView) -> bool {
    &&& shared::is_account_name(name)
    &&& is_token(kept(login).access_token)
    &&& is_token(kept(login).refresh_token)
}

/// `error` is what stands against storing `login` under `name`. The name is
/// looked at first, then the access token, then the refresh token.
pub open spec fn is_refusal(error: StoreError, name: Seq<char>, login: AuthView) -> bool {
    if !shared::is_account_name(name) {
        error matches StoreError::InvalidName { name: refused } && refused@ == name
    } else if !is_token(kept(login).access_token) {
        error is InvalidAccessToken
    } else {
        error is InvalidRefreshToken && !is_token(kept(login).refresh_token)
    }
}

/// A text or null.
pub open spec fn text_json(text: Option<Seq<char>>) -> json::JsonView {
    match text {
        Some(s) => json::JsonView::Text(s),
        None => json::JsonView::Null,
    }
}

/// A natural number or null.
pub open spec fn number_json(n: Option<u64>) -> json::JsonView {
    match n {
        Some(n) => json::JsonView::Number(json::JsonNumber::Unsigned(n)),
        None => json::JsonView::Null,
    }
}

/// The record of a login.
pub open spec fn auth_json(auth: AuthView) -> json::JsonView {
    json::JsonView::Object(
        map![
            "access_token"@ => json::JsonView::Text(auth.access_token),
            "refresh_token"@ => json::JsonView::Text(auth.refresh_token),
            "expiry_date"@ => number_json(auth.expiry_date),
            "email"@ => text_json(auth.email),
            "project_id"@ => text_json(auth.project_id),
        ],
    )
}

/// The words of an error.
pub open spec fn store_message(error: StoreError) -> Seq<char> {
    match error {
        StoreError::InvalidName { name } => "invalid account name: "@ + name@,
        StoreError::InvalidAccessToken =>
            "Antigravity access token must be one non-empty value without whitespace"@,
        StoreError::InvalidRefreshToken =>
            "Antigravity refresh token must be one non-empty value without whitespace"@,
    }
}

/// The names of `accounts`.
pub open spec fn account_names(accounts: Seq<AccountConfig>) -> Seq<Seq<char>> {
    accounts.map_values(|account: AccountConfig| account.name@)
}

/// The directory that holds the accounts: the one that [`ACCOUNTS_DIR_ENV`]
/// names, or else the store's own under `home`.
pub fn default_accounts_dir(chosen: Option<&str>, home: &str) -> (r: String)
    ensures
        r@ == shared::accounts_dir(optional_str(chosen), home@, STORE_DIR@),
        chosen matches Some(dir) ==> r@ == dir@,
{
    shared::default_accounts_dir(chosen, home, STORE_DIR)
}

/// The path of an account's file, in the accounts directory `dir`.
pub fn account_path(dir: &str, name: &str) -> (r: String)
    ensures
        r@ == shared::account_file(dir@, name@),
{
    account_path_in(dir, name)
}

/// The accounts of the store, in the order of their names. `listing` is what
/// came of listing the accounts directory: where there is none, there are no
/// accounts. Nothing in a login is known to be a stable identity upstream, so
/// no account gets a `uuid`, and each goes by its own file's name.
pub fn scan_accounts<E>(listing: DirListing<E>) -> (r: Result<Vec<AccountConfig>, E>)
    ensures
        match listing {
            DirListing::Missing => r matches Ok(accounts) && accounts@.len() == 0,
            DirListing::Entries(files) => {
                &&& r matches Ok(accounts)
                &&& shared::is_scan_of(account_names(accounts@), shared::texts(files@))
                &&& forall|i: int|
                    0 <= i < accounts@.len() ==> (#[trigger] accounts@[i]).uuid is None
            },
            DirListing::Failed(error) => r == Err::<Vec<AccountConfig>, E>(error),
        },
{
    let files = match listing {
        DirListing::Missing => return Ok(Vec::new()),
        DirListing::Failed(error) => return Err(error),
        DirListing::Entries(files) => files,
    };
    let names = scan_account_dir(&files);
    let mut accounts: Vec<AccountConfig> = Vec::new();
    let mut i: usize = 0;
    while i < names.len()
        invariant
            i == accounts@.len() <= names@.len(),
            forall|k: int|
                0 <= k < i ==> (#[trigger] accounts@[k]).name@ == names@[k]@
                    && accounts@[k].uuid is None,
        decreases names@.len() - i,
    {
        accounts.push(AccountConfig { name: names[i].clone(), uuid: None });
        i = i + 1;
    }
    assert(account_names(accounts@) =~= shared::texts(names@));
    Ok(accounts)
}

fn check_token(s: &str) -> (r: bool)
    ensures
        r == is_token(s@),
{
    !s.is_empty() && !contains_white_space(s)
}

fn keep_label(text: Option<&str>) -> (r: Option<String>)
    ensures
        optional_text(r) == label(optional_str(text)),
{
    match text {
        Some(s) => {
            let core = trim(s);
            if core.is_empty() {
                None
            } else {
                Some(core.to_owned())
            }
        },
        None => None,
    }
}

/// The login as it is kept under `name`: tokens and labels trimmed, and blank
/// labels dropped. A token that is blank or has white space in it is refused.
pub fn check_login(
    name: &str,
    access_token: &str,
    refresh_token: &str,
    expiry_date: Option<u64>,
    email: Option<&str>,
    project_id: Option<&str>,
) -> (r: Result<StoredAuth, StoreError>)
    ensures
        ({
            let login = AuthView {
                access_token: access_token@,
                refresh_token: refresh_token@,
                expiry_date,
                email: optional_str(email),
                project_id: optional_str(project_id),
            };
            match r {
                Ok(auth) => {
                    &&& is_storable(name@, login)
                    &&& auth@ == kept(login)
                    &&& auth.access_token@ == text::trimmed(access_token@)
                    &&& auth.refresh_token@ == text::trimmed(refresh_token@)
                    &&& auth.expiry_date == expiry_date
                    &&& match (email, auth.email) {
                        (None, label) => label is None,
                        (Some(s), None) => text::trimmed(s@).len() == 0,
                        (Some(s), Some(label)) => text::trimmed(s@).len() > 0 && label@
                            == text::trimmed(s@),
                    }
                    &&& match (project_id, auth.project_id) {
                        (None, label) => label is None,
                        (Some(s), None) => text::trimmed(s@).len() == 0,
                        (Some(s), Some(label)) => text::trimmed(s@).len() > 0 && label@
                            == text::trimmed(s@),
                    }
                },
                Err(error) => !is_storable(name@, login) && is_refusal(error, name@, login),
            }
        }),
{
    match validate_account_name(name) {
        Ok(()) => {},
        Err(error) => return Err(StoreError::InvalidName { name: error.name }),
    }
    let access_token = trim(access_token);
    if !check_token(access_token) {
        return Err(StoreError::InvalidAccessToken);
    }
    let refresh_token = trim(refresh_token);
    if !check_token(refresh_token) {
        return Err(StoreError::InvalidRefreshToken);
    }
    Ok(
        StoredAuth {
            access_token: access_token.to_owned(),
            refresh_token: refresh_token.to_owned(),
            expiry_date,
            email: keep_label(email),
            project_id: keep_label(project_id),
        },
    )
}

fn text_leaf(text: &Option<String>) -> (r: Leaf)
    ensures
        r@ == text_json(optional_text(*text)),
{
    match text {
        Some(s) => Leaf::Text(s.clone()),
        None => Leaf::Null,
    }
}

impl StoredAuth {
    /// The text of the login's file. Reading it gives the login's record back.
    pub fn to_text(&self) -> (text: String)
        ensures
            text@ == json::json_written(auth_json(self@)),
            json::json_read(text@) == json::JsonReading::Value(auth_json(self@)),
    {
        let mut members: Vec<(String, Leaf)> = Vec::new();
        members.push(("access_token".to_owned(), Leaf::Text(self.access_token.clone())));
        members.push(("refresh_token".to_owned(), Leaf::Text(self.refresh_token.clone())));
        let expiry_date = match self.expiry_date {
            Some(n) => Leaf::Unsigned(n),
            None => Leaf::Null,
        };
        members.push(("expiry_date".to_owned(), expiry_date));
        members.push(("email".to_owned(), text_leaf(&self.email)));
        members.push(("project_id".to_owned(), text_leaf(&self.project_id)));
        proof {
            auth_keys_are_distinct();
            reveal_with_fuel(json::record_members, 6);
            let m = members@;
            assert(m.len() == 5);
            assert(m.drop_last().drop_last().drop_last().drop_last().drop_last().len() == 0);
            let record = json::JsonView::Object(json::record_members(m));
            assert(record == auth_json(self@)) by {
                assert(record->Object_0 =~= auth_json(self@)->Object_0);
            }
        }
        write_record(members)
    }
}

proof fn auth_keys_are_distinct()
    ensures
        "access_token"@.len() == 12,
        "refresh_token"@.len() == 13,
        "expiry_date"@.len() == 11,
        "email"@.len() == 5,
        "project_id"@.len() == 10,
{
    reveal_strlit("access_token");
    reveal_strlit("refresh_token");
    reveal_strlit("expiry_date");
    reveal_strlit("email");
    reveal_strlit("project_id");
}

/// The file that stores a freshly issued login under `name`, in the accounts
/// directory `dir`: access and refresh token, when the access token expires,
/// the email that labels the login and the Code Assist project.
pub fn store_oauth_tokens(
    dir: &str,
    name: &str,
    access_token: &str,
    refresh_token: &str,
    expiry_date: Option<u64>,
    email: Option<&str>,
    project_id: Option<&str>,
) -> (r: Result<AccountFile, StoreError>)
    ensures
        ({
            let login = AuthView {
                access_token: access_token@,
                refresh_token: refresh_token@,
                expiry_date,
                email: optional_str(email),
                project_id: optional_str(project_id),
            };
            match r {
                Ok(file) => {
                    &&& is_storable(name@, login)
                    &&& file.path@ == shared::account_file(dir@, name@)
                    &&& file.contents@ == json::json_written(auth_json(kept(login)))
                    &&& json::json_read(file.contents@) == json::JsonReading::Value(
                        auth_json(kept(login)),
                    )
                    &&& json::json_read(file.contents@) matches json::JsonReading::Value(
                        json::JsonView::Object(members),
                    )
                    &&& members.dom() == set![
                        "access_token"@,
                        "refresh_token"@,
                        "expiry_date"@,
                        "email"@,
                        "project_id"@,
                    ]
                    &&& members["access_token"@] == json::JsonView::Text(
                        text::trimmed(access_token@),
                    )
                    &&& members["refresh_token"@] == json::JsonView::Text(
                        text::trimmed(refresh_token@),
                    )
                    &&& members["expiry_date"@] == match expiry_date {
                        Some(n) => json::JsonView::Number(json::JsonNumber::Unsigned(n)),
                        None => json::JsonView::Null,
                    }
                    &&& members["email"@] == match email {
                        Some(s) if text::trimmed(s@).len() > 0 => json::JsonView::Text(
                            text::trimmed(s@),
                        ),
                        _ => json::JsonView::Null,
                    }
                    &&& members["project_id"@] == match project_id {
                        Some(s) if text::trimmed(s@).len() > 0 => json::JsonView::Text(
                            text::trimmed(s@),
                        ),
                        _ => json::JsonView::Null,
                    }
                },
                Err(error) => !is_storable(name@, login) && is_refusal(error, name@, login),
            }
        }),
{
    let auth = match check_login(
        name,
        access_token,
        refresh_token,
        expiry_date,
        email,
        project_id,
    ) {
        Ok(auth) => auth,
        Err(error) => return Err(error),
    };
    proof {
        record_has_five_members(auth@);
    }
    Ok(AccountFile { path: account_path(dir, name), contents: auth.to_text() })
}

impl StoreError {
    /// The words of the error.
    pub fn message(&self) -> (r: String)
        ensures
            r@ == store_message(*self),
    {
        match self {
            StoreError::InvalidName { name } => {
                let mut words = "invalid account name: ".to_owned();
                words.append(name.as_str());
                words
            },
            StoreError::InvalidAccessToken =>
                "Antigravity access token must be one non-empty value without whitespace".to_owned(),
            StoreError::InvalidRefreshToken =>
                "Antigravity refresh token must be one non-empty value without whitespace".to_owned(),
        }
    }
}

/// The text in a member, null or a missing member being none. None of these
/// where the member is anything else.
pub open spec fn text_in(member: Option<json::JsonView>) -> Option<Option<Seq<char>>> {
    match member {
        None => Some(None),
        Some(json::JsonView::Null) => Some(None),
        Some(json::JsonView::Text(s)) => Some(Some(s)),
        _ => None,
    }
}

/// The natural number in a member, null or a missing member being none. None
/// of these where the member is anything else.
pub open spec fn number_in(member: Option<json::JsonView>) -> Option<Option<u64>> {
    match member {
        None => Some(None),
        Some(json::JsonView::Null) => Some(None),
        Some(json::JsonView::Number(json::JsonNumber::Unsigned(n))) => Some(Some(n)),
        _ => None,
    }
}

/// The login that a record holds. A record without its two tokens holds none.
pub open spec fn auth_in(record: json::JsonView) -> Option<AuthView> {
    match (
        text_in(record.member("access_token"@)),
        text_in(record.member("refresh_token"@)),
        number_in(record.member("expiry_date"@)),
        text_in(record.member("email"@)),
        text_in(record.member("project_id"@)),
    ) {
        (
            Some(Some(access_token)),
            Some(Some(refresh_token)),
            Some(expiry_date),
            Some(email),
            Some(project_id),
        ) => Some(AuthView { access_token, refresh_token, expiry_date, email, project_id }),
        _ => None,
    }
}

/// A login's record holds that very login: all five members come back as they
/// were written.
pub proof fn stored_login_reads_back(auth: AuthView)
    ensures
        auth_in(auth_json(auth)) == Some(auth),
{
    auth_keys_are_distinct();
}

/// What is kept of a login is kept unchanged when it is stored again, and can
/// be.
pub proof fn kept_login_is_stable(name: Seq<char>, login: AuthView)
    ensures
        kept(kept(login)) == kept(login),
        is_storable(name, kept(login)) == is_storable(name, login),
{
    text::trimmed_twice(login.access_token);
    text::trimmed_twice(login.refresh_token);
    match login.email {
        Some(s) => text::trimmed_twice(s),
        None => {},
    }
    match login.project_id {
        Some(s) => text::trimmed_twice(s),
        None => {},
    }
}

/// White space around a token changes nothing: the login is stored, or is
/// refused, as it would be without.
pub proof fn token_padding_is_ignored(
    name: Seq<char>,
    login: AuthView,
    before: Seq<char>,
    after: Seq<char>,
)
    requires
        text::all_white(before),
        text::all_white(after),
    ensures
        ({
            let padded = AuthView {
                access_token: before + login.access_token + after,
                refresh_token: before + login.refresh_token + after,
                ..login
            };
            kept(padded) == kept(login) && is_storable(name, padded) == is_storable(name, login)
        }),
{
    text::trimmed_ignores_padding(before, login.access_token, after);
    text::trimmed_ignores_padding(before, login.refresh_token, after);
}

/// A login with a blank token is never stored.
pub proof fn blank_tokens_are_refused(name: Seq<char>, login: AuthView)
    requires
        text::all_white(login.access_token) || text::all_white(login.refresh_token),
    ensures
        !is_storable(name, login),
{
    text::trimmed_of_blank(login.access_token);
    text::trimmed_of_blank(login.refresh_token);
}

/// The labels and the expiry date decide nothing: a login is stored whatever
/// they are. A label is dropped exactly where it is blank.
pub proof fn labels_never_refuse_a_login(name: Seq<char>, login: AuthView, other: AuthView)
    requires
        login.access_token == other.access_token,
        login.refresh_token == other.refresh_token,
    ensures
        is_storable(name, login) == is_storable(name, other),
        login.email matches Some(s) ==> (kept(login).email is None <==> text::all_white(s)),
        login.project_id matches Some(s) ==> (kept(login).project_id is None <==> text::all_white(
            s,
        )),
{
    match login.email {
        Some(s) => text::trimmed_of_blank(s),
        None => {},
    }
    match login.project_id {
        Some(s) => text::trimmed_of_blank(s),
        None => {},
    }
}

/// The directory of this store, under a home that does not end in a slash.
pub proof fn accounts_of_this_store(dir: Seq<char>, home: Seq<char>)
    ensures
        shared::accounts_dir(Some(dir), home, STORE_DIR@) == dir,
        home.len() > 0 && home[home.len() - 1] != '/' ==> shared::accounts_dir(
            None,
            home,
            STORE_DIR@,
        ) == home + "/.shunt/accounts/antigravity"@,
        ACCOUNTS_DIR_ENV@ == "SHUNT_ANTIGRAVITY_ACCOUNTS_DIR"@,
{
    reveal_strlit("antigravity");
    reveal_strlit("/.shunt/accounts/");
    reveal_strlit("/.shunt/accounts/antigravity");
    shared::accounts_lie_under_home(dir, home, STORE_DIR@);
    assert("/.shunt/accounts/antigravity"@ =~= "/.shunt/accounts/"@ + "antigravity"@);
    assert(home + "/.shunt/accounts/"@ + "antigravity"@ =~= home + (
    "/.shunt/accounts/"@ + "antigravity"@));
}

/// The names of accounts are theirs in full, one for each account.
pub proof fn names_are_those_of_the_accounts(accounts: Seq<AccountConfig>)
    ensures
        account_names(accounts).len() == accounts.len(),
        forall|i: int|
            0 <= i < accounts.len() ==> #[trigger] account_names(accounts)[i] == accounts[i].name@,
{
}

/// A token is a text of at least one character, none of which is white space.
pub proof fn tokens_have_no_white_space(s: Seq<char>)
    ensures
        is_token(s) <==> s.len() >= 1 && forall|i: int|
            0 <= i < s.len() ==> !text::is_white(#[trigger] s[i]),
{
}

/// What a stored login says is what its fields hold.
pub proof fn logins_say_their_fields(auth: StoredAuth)
    ensures
        auth@.access_token == auth.access_token@,
        auth@.refresh_token == auth.refresh_token@,
        auth@.expiry_date == auth.expiry_date,
        auth@.email is Some == auth.email is Some,
        auth@.project_id is Some == auth.project_id is Some,
        auth.email matches Some(s) ==> auth@.email == Some(s@),
        auth.project_id matches Some(s) ==> auth@.project_id == Some(s@),
{
}

/// An optional text says what it holds, borrowed or not.
pub proof fn optional_texts_say_themselves(owned: String, borrowed: &str)
    ensures
        optional_text(Some(owned)) == Some(owned@),
        optional_text(None) is None,
        optional_str(Some(borrowed)) == Some(borrowed@),
        optional_str(None) is None,
{
}

/// What is kept of a login: each token as the core of the one given, the
/// expiry date as it was given, and each label as the core of the one given.
/// Nothing is taken from one part of a login on account of another. Only a
/// label that was not given, or has no core, is not kept.
pub proof fn every_part_of_a_login_is_kept(login: AuthView)
    ensures
        kept(login).access_token == text::trimmed(login.access_token),
        kept(login).refresh_token == text::trimmed(login.refresh_token),
        kept(login).expiry_date == login.expiry_date,
        login.email is None ==> kept(login).email is None,
        login.email matches Some(s) ==> kept(login).email == if text::trimmed(s).len() == 0 {
            None
        } else {
            Some(text::trimmed(s))
        },
        login.project_id is None ==> kept(login).project_id is None,
        login.project_id matches Some(s) ==> kept(login).project_id == if text::trimmed(s).len()
            == 0 {
            None
        } else {
            Some(text::trimmed(s))
        },
{
}

/// Each part of what is kept rests on that part of the login alone.
pub proof fn parts_of_a_login_are_kept_apart(a: AuthView, b: AuthView)
    ensures
        a.access_token == b.access_token ==> kept(a).access_token == kept(b).access_token,
        a.refresh_token == b.refresh_token ==> kept(a).refresh_token == kept(b).refresh_token,
        a.expiry_date == b.expiry_date <==> kept(a).expiry_date == kept(b).expiry_date,
        a.email == b.email ==> kept(a).email == kept(b).email,
        a.project_id == b.project_id ==> kept(a).project_id == kept(b).project_id,
{
}

/// A login whose parts have no white space around them is kept as it is.
pub proof fn tight_logins_are_kept_unchanged(login: AuthView)
    requires
        !text::has_white(login.access_token),
        !text::has_white(login.refresh_token),
        login.email matches Some(s) ==> s.len() > 0 && !text::is_white(s[0]) && !text::is_white(
            s[s.len() - 1],
        ),
        login.project_id matches Some(s) ==> s.len() > 0 && !text::is_white(s[0])
            && !text::is_white(s[s.len() - 1]),
    ensures
        kept(login) == login,
{
    if login.access_token.len() > 0 {
        assert(!text::is_white(login.access_token[0]));
        assert(!text::is_white(login.access_token[login.access_token.len() - 1]));
    }
    if login.refresh_token.len() > 0 {
        assert(!text::is_white(login.refresh_token[0]));
        assert(!text::is_white(login.refresh_token[login.refresh_token.len() - 1]));
    }
    text::trimmed_of_tight(login.access_token);
    text::trimmed_of_tight(login.refresh_token);
    match login.email {
        Some(s) => text::trimmed_of_tight(s),
        None => {},
    }
    match login.project_id {
        Some(s) => text::trimmed_of_tight(s),
        None => {},
    }
}

/// A login is stored exactly where its name is an account name and each token
/// has a core without white space. Nothing else stands against it.
pub proof fn storable_logins(name: Seq<char>, login: AuthView)
    ensures
        is_storable(name, login) <==> ({
            let access = text::trimmed(login.access_token);
            let refresh = text::trimmed(login.refresh_token);
            &&& shared::is_account_name(name)
            &&& access.len() > 0
            &&& refresh.len() > 0
            &&& forall|i: int| 0 <= i < access.len() ==> !text::is_white(#[trigger] access[i])
            &&& forall|i: int| 0 <= i < refresh.len() ==> !text::is_white(#[trigger] refresh[i])
        }),
{
}

/// A login that is not stored is refused for the first thing that is wrong
/// with it: the name, then the access token, then the refresh token.
pub proof fn refusals_name_the_first_fault(error: StoreError, name: Seq<char>, login: AuthView)
    requires
        !is_storable(name, login),
        is_refusal(error, name, login),
    ensures
        ({
            let named = shared::is_account_name(name);
            let access = is_token(text::trimmed(login.access_token));
            let refresh = is_token(text::trimmed(login.refresh_token));
            &&& error is InvalidName <==> !named
            &&& error is InvalidAccessToken <==> named && !access
            &&& error is InvalidRefreshToken <==> named && access && !refresh
            &&& error matches StoreError::InvalidName { name: refused } ==> refused@ == name
        }),
{
}

/// A record has the five members of a login and no other. Each token and each
/// label is its member's text in full, the expiry date is its member's number,
/// and what a login does not have is null.
pub proof fn record_has_five_members(auth: AuthView)
    ensures
        ({
            &&& auth_json(auth) matches json::JsonView::Object(members)
            &&& members.dom() == set![
                "access_token"@,
                "refresh_token"@,
                "expiry_date"@,
                "email"@,
                "project_id"@,
            ]
            &&& members["access_token"@] == json::JsonView::Text(auth.access_token)
            &&& members["refresh_token"@] == json::JsonView::Text(auth.refresh_token)
            &&& members["expiry_date"@] == match auth.expiry_date {
                Some(n) => json::JsonView::Number(json::JsonNumber::Unsigned(n)),
                None => json::JsonView::Null,
            }
            &&& members["email"@] == match auth.email {
                Some(s) => json::JsonView::Text(s),
                None => json::JsonView::Null,
            }
            &&& members["project_id"@] == match auth.project_id {
                Some(s) => json::JsonView::Text(s),
                None => json::JsonView::Null,
            }
        }),
{
    auth_keys_are_distinct();
    let members = auth_json(auth)->Object_0;
    assert(members.dom() =~= set![
        "access_token"@,
        "refresh_token"@,
        "expiry_date"@,
        "email"@,
        "project_id"@,
    ]);
}

/// Two logins that differ in any part never have the same record.
pub proof fn records_tell_logins_apart(a: AuthView, b: AuthView)
    requires
        auth_json(a) == auth_json(b),
    ensures
        a.access_token == b.access_token,
        a.refresh_token == b.refresh_token,
        a.expiry_date == b.expiry_date,
        a.email == b.email,
        a.project_id == b.project_id,
{
    record_has_five_members(a);
    record_has_five_members(b);
}

/// The words of each error. A refused name is quoted in full.
pub proof fn store_errors_say_what_is_wrong(name: String)
    ensures
        store_message(StoreError::InvalidAccessToken)
            == "Antigravity access token must be one non-empty value without whitespace"@,
        store_message(StoreError::InvalidRefreshToken)
            == "Antigravity refresh token must be one non-empty value without whitespace"@,
        name@.is_suffix_of(store_message(StoreError::InvalidName { name })),
        "invalid account name: "@.is_prefix_of(store_message(StoreError::InvalidName { name })),
        store_message(StoreError::InvalidName { name }).len() == "invalid account name: "@.len()
            + name@.len(),
{
    let words = store_message(StoreError::InvalidName { name });
    assert(name@ =~= words.subrange(words.len() - name@.len(), words.len() as int));
    assert("invalid account name: "@ =~= words.subrange(
        0,
        "invalid account name: "@.len() as int,
    ));
}

} // verus!
