//! What every account store has in common: account names, the files that hold
//! them and the directories that those lie in.
//!
//! Paths are text with `/` between their parts.

use vstd::prelude::*;
use vstd::string::{StrSliceExecFns, StringExecFns};

use crate::text::{self, in_order};

verus! {

/// A name that no account may have.
#[derive(Debug)]
pub struct InvalidAccountName {
    pub name: String,
}

/// What listing an account directory came to.
#[derive(Debug)]
pub enum DirListing<E> {
    /// There is no such directory.
    Missing,
    /// The names of the files in it.
    Entries(Vec<String>),
    /// It could not be listed.
    Failed(E),
}

/// A lowercase letter, a digit or a hyphen.
pub open spec fn is_name_char(c: char) -> bool {
    'a' <= c <= 'z' || '0' <= c <= '9' || c == '-'
}

/// An account name: lowercase letters, digits and hyphens, and at least one of
/// them.
pub open spec fn is_account_name(name: Seq<char>) -> bool {
    &&& name.len() > 0
    &&& forall|i: int| 0 <= i < name.len() ==> is_name_char(#[trigger] name[i])
}

/// The path of `relative` as seen from `dir`. An absolute path stays as it is.
pub open spec fn joined(dir: Seq<char>, relative: Seq<char>) -> Seq<char> {
    if relative.len() > 0 && relative[0] == '/' {
        relative
    } else if dir.len() == 0 || dir.last() == '/' {
        dir + relative
    } else {
        dir + "/"@ + relative
    }
}

/// The directory that a store keeps its accounts in: the one that is set for
/// it, or else its own under `home`.
pub open spec fn accounts_dir(
    chosen: Option<Seq<char>>,
    home: Seq<char>,
    store: Seq<char>,
) -> Seq<char> {
    match chosen {
        Some(dir) => dir,
        None => joined(joined(joined(home, ".shunt"@), "accounts"@), store),
    }
}

/// The name of an account's file.
pub open spec fn file_name(account: Seq<char>) -> Seq<char> {
    account + ".json"@
}

/// The path of an account's file in `dir`.
pub open spec fn account_file(dir: Seq<char>, account: Seq<char>) -> Seq<char> {
    joined(dir, file_name(account))
}

/// What a file's name is before its `.json`, where it ends in that.
pub open spec fn stem(file: Seq<char>) -> Option<Seq<char>> {
    if ".json"@.is_suffix_of(file) {
        Some(file.take(file.len() - ".json"@.len()))
    } else {
        None
    }
}

/// The account that a file of this name is for.
pub open spec fn account_in(file: Seq<char>) -> Option<Seq<char>> {
    match stem(file) {
        Some(name) => if is_account_name(name) {
            Some(name)
        } else {
            None
        },
        None => None,
    }
}

/// The accounts that the files of these names are for, in the order of the
/// files. Other files are passed over.
pub open spec fn accounts_in(files: Seq<Seq<char>>) -> Seq<Seq<char>>
    decreases files.len(),
{
    if files.len() == 0 {
        Seq::empty()
    } else {
        match account_in(files.last()) {
            Some(name) => accounts_in(files.drop_last()).push(name),
            None => accounts_in(files.drop_last()),
        }
    }
}

/// No text in `names` stands before an earlier one.
pub open spec fn is_sorted(names: Seq<Seq<char>>) -> bool {
    forall|i: int, j: int|
        0 <= i <= j < names.len() ==> text::precedes(#[trigger] names[i], #[trigger] names[j])
}

/// `names` are the accounts that `files` are for, each as often as it has a
/// file, and in the order of their names.
pub open spec fn is_scan_of(names: Seq<Seq<char>>, files: Seq<Seq<char>>) -> bool {
    &&& is_sorted(names)
    &&& names.to_multiset() == accounts_in(files).to_multiset()
}

/// The characters of each of `strings`.
pub open spec fn texts(strings: Seq<String>) -> Seq<Seq<char>> {
    strings.map_values(|s: String| s@)
}

/// Whether an account may be named `name`.
fn check_account_name(name: &str) -> (r: bool)
    ensures
        r == is_account_name(name@),
{
    let len = name.unicode_len();
    let mut i: usize = 0;
    while i < len
        invariant
            i <= len == name@.len(),
            forall|k: int| 0 <= k < i ==> is_name_char(#[trigger] name@[k]),
        decreases len - i,
    {
        let c = name.get_char(i);
        if !(('a' <= c && c <= 'z') || ('0' <= c && c <= '9') || c == '-') {
            assert(!is_name_char(name@[i as int]));
            return false;
        }
        i = i + 1;
    }
    0 < len
}

/// Refuses a name that no account may have.
pub fn validate_account_name(name: &str) -> (r: Result<(), InvalidAccountName>)
    ensures
        match r {
            Ok(()) => is_account_name(name@),
            Err(error) => !is_account_name(name@) && error.name@ == name@,
        },
        r is Ok <==> name@.len() > 0 && forall|i: int|
            0 <= i < name@.len() ==> ({
                let n = #[trigger] name@[i] as int;
                97 <= n <= 122 || 48 <= n <= 57 || n == 45
            }),
{
    proof {
        account_names_by_code_point(name@);
    }
    if check_account_name(name) {
        Ok(())
    } else {
        Err(InvalidAccountName { name: name.to_owned() })
    }
}

/// The path of `relative` as seen from `dir`.
pub fn join_path(dir: &str, relative: &str) -> (r: String)
    ensures
        r@ == joined(dir@, relative@),
{
    if relative.unicode_len() > 0 && relative.get_char(0) == '/' {
        return relative.to_owned();
    }
    let len = dir.unicode_len();
    let mut path = dir.to_owned();
    if len > 0 && dir.get_char(len - 1) != '/' {
        path.append("/");
    }
    path.append(relative);
    path
}

/// The directory that the store `store` keeps its accounts in: the one that is
/// set for it, or else `.shunt/accounts/<store>` under `home`.
pub fn default_accounts_dir(chosen: Option<&str>, home: &str, store: &str) -> (r: String)
    ensures
        r@ == accounts_dir(
            match chosen {
                Some(dir) => Some(dir@),
                None => None,
            },
            home@,
            store@,
        ),
{
    match chosen {
        Some(dir) => dir.to_owned(),
        None => {
            let shunt = join_path(home, ".shunt");
            let accounts = join_path(shunt.as_str(), "accounts");
            join_path(accounts.as_str(), store)
        },
    }
}

/// The path of an account's file in `dir`.
pub fn account_path_in(dir: &str, account: &str) -> (r: String)
    ensures
        r@ == account_file(dir@, account@),
{
    let mut file = account.to_owned();
    file.append(".json");
    join_path(dir, file.as_str())
}

/// The account that a file of this name is for.
fn account_of_file(file: &str) -> (r: Option<String>)
    ensures
        match r {
            Some(name) => account_in(file@) == Some(name@),
            None => account_in(file@) is None,
        },
{
    proof {
        reveal_strlit(".json");
    }
    let len = file.unicode_len();
    if len < 5 {
        return None;
    }
    let ending = file.substring_char(len - 5, len).to_owned();
    if ending != ".json".to_owned() {
        assert(!".json"@.is_suffix_of(file@));
        return None;
    }
    assert(".json"@.is_suffix_of(file@));
    let name = file.substring_char(0, len - 5);
    assert(name@ == file@.take(len - 5));
    if check_account_name(name) {
        Some(name.to_owned())
    } else {
        None
    }
}

proof fn insert_to_multiset<A>(s: Seq<A>, i: int, a: A)
    requires
        0 <= i <= s.len(),
    ensures
        s.insert(i, a).to_multiset() == s.to_multiset().insert(a),
{
    let longer = s.insert(i, a);
    assert(longer.remove(i) == s);
    assert(longer[i] == a);
    vstd::seq_lib::to_multiset_remove(longer, i);
    longer.to_multiset_ensures();
    assert(longer.contains(a));
    assert(longer.to_multiset() =~= s.to_multiset().insert(a));
}

/// Puts `name` in its place in `names`, which are in order.
fn insert_in_order(names: &mut Vec<String>, name: String)
    requires
        is_sorted(texts(old(names)@)),
    ensures
        is_sorted(texts(final(names)@)),
        texts(final(names)@).to_multiset() == texts(old(names)@).to_multiset().insert(name@),
{
    let ghost before = texts(names@);
    let mut at = names.len();
    while 0 < at && !in_order(names[at - 1].as_str(), name.as_str())
        invariant
            at <= names@.len(),
            before == texts(names@),
            *old(names) == *names,
            forall|k: int|
                at <= k < names@.len() ==> !text::precedes(#[trigger] before[k], name@),
        decreases at,
    {
        at = at - 1;
    }
    let ghost added = name@;
    proof {
        insert_to_multiset(before, at as int, added);
        let after = before.insert(at as int, added);
        assert forall|i: int, j: int| 0 <= i <= j < after.len() implies text::precedes(
            #[trigger] after[i],
            #[trigger] after[j],
        ) by {
            text::precedes_reflexive(added);
            if i < at && j == at {
                assert(text::precedes(before[i], before[at - 1]));
                text::precedes_transitive(before[i], before[at - 1], added);
            } else if i == at && at < j {
                text::precedes_total(before[j - 1], added);
            }
        }
    }
    names.insert(at, name);
    assert(texts(names@) =~= before.insert(at as int, added));
}

/// The accounts that the files of these names are for, in the order of their
/// names. Other files are passed over.
pub fn scan_account_dir(files: &Vec<String>) -> (names: Vec<String>)
    ensures
        is_scan_of(texts(names@), texts(files@)),
{
    let mut names: Vec<String> = Vec::new();
    let mut i: usize = 0;
    assert(texts(names@) =~= accounts_in(texts(files@).take(0)));
    while i < files.len()
        invariant
            i <= files@.len(),
            is_scan_of(texts(names@), texts(files@).take(i as int)),
        decreases files@.len() - i,
    {
        proof {
            let seen = texts(files@).take(i + 1);
            assert(seen.drop_last() == texts(files@).take(i as int));
            vstd::seq_lib::to_multiset_build(
                accounts_in(texts(files@).take(i as int)),
                account_in(seen.last())->0,
            );
        }
        match account_of_file(files[i].as_str()) {
            Some(name) => insert_in_order(&mut names, name),
            None => {},
        }
        i = i + 1;
    }
    assert(texts(files@).take(i as int) == texts(files@));
    names
}

/// An account's file is told by its name, and by no other.
pub proof fn account_of_its_file(account: Seq<char>, file: Seq<char>)
    requires
        is_account_name(account),
    ensures
        account_in(file) == Some(account) <==> file == file_name(account),
{
    reveal_strlit(".json");
    if file == file_name(account) {
        assert(".json"@.is_suffix_of(file));
        assert(file.take(file.len() - ".json"@.len()) == account);
    }
    if account_in(file) == Some(account) {
        assert(file == file.take(file.len() - ".json"@.len()) + ".json"@);
    }
}

/// An account's file lies in the store's directory itself: no account name
/// leads out of it or further down.
pub proof fn account_file_lies_in_dir(dir: Seq<char>, account: Seq<char>)
    requires
        is_account_name(account),
    ensures
        account_file(dir, account) == if dir.len() == 0 || dir.last() == '/' {
            dir + file_name(account)
        } else {
            dir + "/"@ + file_name(account)
        },
        !file_name(account).contains('/'),
{
    reveal_strlit(".json");
    reveal_strlit("/");
    let file = file_name(account);
    assert(file[0] == account[0] && is_name_char(account[0]));
    assert forall|i: int| 0 <= i < file.len() implies file[i] != '/' by {
        if i < account.len() {
            assert(file[i] == account[i] && is_name_char(account[i]));
        } else {
            assert(file[i] == ".json"@[i - account.len()]);
        }
    }
}

/// Two accounts of a store never share a file.
pub proof fn account_files_are_distinct(dir: Seq<char>, a: Seq<char>, b: Seq<char>)
    requires
        is_account_name(a),
        is_account_name(b),
        account_file(dir, a) == account_file(dir, b),
    ensures
        a == b,
{
    assert(is_name_char(a[0]) && is_name_char(b[0]));
    assert(file_name(a)[0] == a[0] && file_name(b)[0] == b[0]);
    let path = account_file(dir, a);
    let start = path.len() - file_name(a).len();
    assert(path.len() == start + file_name(b).len());
    assert(path.skip(start) == file_name(a));
    assert(path.skip(start) == file_name(b));
    assert(file_name(a).take(a.len() as int) == a);
    assert(file_name(b).take(a.len() as int) == b);
}

proof fn accounts_in_members(files: Seq<Seq<char>>)
    ensures
        forall|name: Seq<char>| #[trigger]
            accounts_in(files).contains(name) <==> is_account_name(name) && files.contains(
                file_name(name),
            ),
    decreases files.len(),
{
    if files.len() > 0 {
        let rest = files.drop_last();
        let last = files.last();
        accounts_in_members(rest);
        assert forall|name: Seq<char>| #[trigger]
            accounts_in(files).contains(name) <==> is_account_name(name) && files.contains(
                file_name(name),
            ) by {
            assert(files == rest.push(last));
            if is_account_name(name) {
                account_of_its_file(name, last);
            }
            match account_in(last) {
                Some(found) => {
                    let earlier = accounts_in(rest);
                    assert(accounts_in(files) == earlier.push(found));
                    account_of_its_file(found, last);
                    assert(earlier.push(found)[earlier.len() as int] == found);
                    if earlier.contains(name) {
                        let i = choose|i: int| 0 <= i < earlier.len() && earlier[i] == name;
                        assert(earlier.push(found)[i] == name);
                    }
                },
                None => {},
            }
            if rest.contains(file_name(name)) {
                let i = choose|i: int| 0 <= i < rest.len() && rest[i] == file_name(name);
                assert(files[i] == file_name(name));
            }
            if last == file_name(name) {
                assert(files[files.len() - 1] == file_name(name));
            }
        }
    }
}

/// A scan finds an account exactly where the directory holds its file: every
/// stored account is found, and nothing else is.
pub proof fn scan_finds_the_accounts(
    names: Seq<Seq<char>>,
    files: Seq<Seq<char>>,
    account: Seq<char>,
)
    requires
        is_scan_of(names, files),
    ensures
        names.contains(account) <==> is_account_name(account) && files.contains(
            file_name(account),
        ),
{
    accounts_in_members(files);
    names.to_multiset_ensures();
    accounts_in(files).to_multiset_ensures();
    assert(names.contains(account) <==> names.to_multiset().count(account) > 0);
    assert(accounts_in(files).contains(account) <==> accounts_in(files).to_multiset().count(account)
        > 0);
}

proof fn accounts_in_no_duplicates(files: Seq<Seq<char>>)
    requires
        files.no_duplicates(),
    ensures
        accounts_in(files).no_duplicates(),
    decreases files.len(),
{
    if files.len() > 0 {
        let rest = files.drop_last();
        accounts_in_no_duplicates(rest);
        accounts_in_members(rest);
        match account_in(files.last()) {
            Some(name) => {
                account_of_its_file(name, files.last());
                if accounts_in(rest).contains(name) {
                    let i = choose|i: int| 0 <= i < rest.len() && rest[i] == file_name(name);
                    assert(files[i] == files[files.len() - 1]);
                }
            },
            None => {},
        }
    }
}

/// In a directory, where no two files share a name, a scan lists no account
/// twice.
pub proof fn scan_lists_each_account_once(names: Seq<Seq<char>>, files: Seq<Seq<char>>)
    requires
        is_scan_of(names, files),
        files.no_duplicates(),
    ensures
        names.no_duplicates(),
{
    accounts_in_no_duplicates(files);
    accounts_in(files).lemma_multiset_has_no_duplicates();
    names.lemma_multiset_has_no_duplicates_conv();
}

proof fn sorted_is_unique(a: Seq<Seq<char>>, b: Seq<Seq<char>>)
    requires
        is_sorted(a),
        is_sorted(b),
        a.to_multiset() == b.to_multiset(),
    ensures
        a == b,
    decreases a.len(),
{
    a.to_multiset_ensures();
    b.to_multiset_ensures();
    if a.len() > 0 {
        let x = a.last();
        let y = b.last();
        assert(a.contains(x) && b.contains(y));
        assert(a.to_multiset().count(x) > 0 && b.to_multiset().count(y) > 0);
        assert(a.contains(y) && b.contains(x));
        let i = choose|i: int| 0 <= i < a.len() && a[i] == y;
        let j = choose|j: int| 0 <= j < b.len() && b[j] == x;
        assert(text::precedes(a[i], a[a.len() - 1]));
        assert(text::precedes(b[j], b[b.len() - 1]));
        text::precedes_antisymmetric(x, y);
        assert(a.remove(a.len() - 1) == a.drop_last());
        assert(b.remove(b.len() - 1) == b.drop_last());
        assert(is_sorted(a.drop_last()) && is_sorted(b.drop_last()));
        sorted_is_unique(a.drop_last(), b.drop_last());
        assert(a == a.drop_last().push(x));
        assert(b == b.drop_last().push(y));
    } else {
        assert(a == b);
    }
}

proof fn accounts_in_without(files: Seq<Seq<char>>, i: int)
    requires
        0 <= i < files.len(),
    ensures
        accounts_in(files).to_multiset() == match account_in(files[i]) {
            Some(name) => accounts_in(files.remove(i)).to_multiset().insert(name),
            None => accounts_in(files.remove(i)).to_multiset(),
        },
    decreases files.len(),
{
    broadcast use vstd::seq_lib::to_multiset_build;

    let rest = files.drop_last();
    if i == files.len() - 1 {
        assert(files.remove(i) == rest);
    } else {
        accounts_in_without(rest, i);
        assert(files.remove(i).drop_last() == rest.remove(i));
        assert(files.remove(i).last() == files.last());
        assert(files[i] == rest[i]);
        assert(accounts_in(files).to_multiset() =~= match account_in(files[i]) {
            Some(name) => accounts_in(files.remove(i)).to_multiset().insert(name),
            None => accounts_in(files.remove(i)).to_multiset(),
        });
    }
}

proof fn accounts_in_any_order(a: Seq<Seq<char>>, b: Seq<Seq<char>>)
    requires
        a.to_multiset() == b.to_multiset(),
    ensures
        accounts_in(a).to_multiset() == accounts_in(b).to_multiset(),
    decreases a.len(),
{
    a.to_multiset_ensures();
    b.to_multiset_ensures();
    if a.len() > 0 {
        let x = a.last();
        assert(a.contains(x));
        assert(a.to_multiset().count(x) > 0);
        assert(b.contains(x));
        let j = choose|j: int| 0 <= j < b.len() && b[j] == x;
        assert(a.remove(a.len() - 1) == a.drop_last());
        accounts_in_any_order(a.drop_last(), b.remove(j));
        accounts_in_without(a, a.len() - 1);
        accounts_in_without(b, j);
    } else {
        assert(a == b);
    }
}

/// A scan is deterministic: it comes out the same in whatever order the
/// directory lists its files.
pub proof fn scan_ignores_listing_order(
    names: Seq<Seq<char>>,
    files: Seq<Seq<char>>,
    other_names: Seq<Seq<char>>,
    other_files: Seq<Seq<char>>,
)
    requires
        is_scan_of(names, files),
        is_scan_of(other_names, other_files),
        files.to_multiset() == other_files.to_multiset(),
    ensures
        names == other_names,
{
    accounts_in_any_order(files, other_files);
    sorted_is_unique(names, other_names);
}

/// An account name, by code point: it has a character, and each is a lowercase
/// letter, a digit or a hyphen, in whatever place it stands.
pub proof fn account_names_by_code_point(name: Seq<char>)
    ensures
        is_account_name(name) <==> name.len() > 0 && forall|i: int|
            0 <= i < name.len() ==> ({
                let n = #[trigger] name[i] as int;
                97 <= n <= 122 || 48 <= n <= 57 || n == 45
            }),
{
    assert forall|i: int| 0 <= i < name.len() implies is_name_char(name[i]) == ({
        let n = #[trigger] name[i] as int;
        97 <= n <= 122 || 48 <= n <= 57 || n == 45
    }) by {}
    if name.len() > 0 && !is_account_name(name) {
        let i = choose|i: int| 0 <= i < name.len() && !is_name_char(#[trigger] name[i]);
        assert(!is_name_char(name[i]));
    }
}

/// One character that no name may have spoils a name, wherever it stands.
pub proof fn a_wrong_character_spoils_a_name(before: Seq<char>, c: char, after: Seq<char>)
    requires
        !(97 <= c as int <= 122),
        !(48 <= c as int <= 57),
        c as int != 45,
    ensures
        !is_account_name(before + seq![c] + after),
{
    let name = before + seq![c] + after;
    assert(name[before.len() as int] == c);
    account_names_by_code_point(name);
}

/// Two names put together make a name, and so does each letter, digit and
/// hyphen alone.
pub proof fn names_are_made_of_names(a: Seq<char>, b: Seq<char>, c: char)
    requires
        is_account_name(a),
        is_account_name(b),
        97 <= c as int <= 122 || 48 <= c as int <= 57 || c as int == 45,
    ensures
        is_account_name(a + b),
        is_account_name(seq![c]),
{
    assert forall|i: int| 0 <= i < (a + b).len() implies is_name_char(#[trigger] (a + b)[i]) by {
        if i < a.len() {
            assert(is_name_char(a[i]));
        } else {
            assert(is_name_char(b[i - a.len()]));
        }
    }
    account_names_by_code_point(seq![c]);
}

/// A joined path begins with the directory and ends with what is joined to it,
/// with one slash between them where the directory does not end in one. An
/// absolute path is left as it is.
pub proof fn joined_path_has_both_parts(dir: Seq<char>, relative: Seq<char>)
    ensures
        ({
            let path = joined(dir, relative);
            let absolute = relative.len() > 0 && relative[0] as int == 47;
            let open = dir.len() == 0 || dir[dir.len() - 1] as int == 47;
            &&& relative.is_suffix_of(path)
            &&& absolute ==> path.len() == relative.len()
            &&& !absolute ==> dir.is_prefix_of(path)
            &&& !absolute && open ==> path.len() == dir.len() + relative.len()
            &&& !absolute && !open ==> path.len() == dir.len() + 1 + relative.len()
                && path[dir.len() as int] as int == 47
        }),
{
    reveal_strlit("/");
    let path = joined(dir, relative);
    assert(relative =~= path.subrange(path.len() - relative.len(), path.len() as int));
    if !(relative.len() > 0 && relative[0] == '/') {
        assert(dir =~= path.subrange(0, dir.len() as int));
    }
}

/// Where a directory is set, it is taken as it stands, whatever `home` is.
/// Where none is, the accounts lie three levels under `home`.
pub proof fn accounts_lie_under_home(dir: Seq<char>, home: Seq<char>, store: Seq<char>)
    requires
        store.len() > 0,
        store[0] != '/',
    ensures
        accounts_dir(Some(dir), home, store) == dir,
        home.len() > 0 && home[home.len() - 1] != '/' ==> accounts_dir(None, home, store) == home
            + "/.shunt/accounts/"@ + store,
        home.len() == 0 || home[home.len() - 1] == '/' ==> accounts_dir(None, home, store) == home
            + ".shunt/accounts/"@ + store,
{
    reveal_strlit("/");
    reveal_strlit(".shunt");
    reveal_strlit("accounts");
    reveal_strlit(".shunt/accounts/");
    reveal_strlit("/.shunt/accounts/");
    let start = if home.len() == 0 || home.last() == '/' {
        home
    } else {
        home + "/"@
    };
    let shunt = joined(home, ".shunt"@);
    assert(shunt == start + ".shunt"@);
    assert(shunt.last() == 't');
    let accounts = joined(shunt, "accounts"@);
    assert(accounts == shunt + "/"@ + "accounts"@);
    assert(accounts.last() == 's');
    assert(accounts_dir(None, home, store) == accounts + "/"@ + store);
    assert(accounts_dir(None, home, store) =~= start + ".shunt/accounts/"@ + store);
    if home.len() > 0 && home.last() != '/' {
        assert(accounts_dir(None, home, store) =~= home + "/.shunt/accounts/"@ + store);
    }
}

/// An account's file is the account's whole name and `.json`, in the store's
/// directory.
pub proof fn account_file_is_named_after_the_account(dir: Seq<char>, account: Seq<char>)
    ensures
        account.len() > 0 && account[0] == '/' ==> account_file(dir, account) == account
            + ".json"@,
        (account.len() == 0 || account[0] != '/') && dir.len() > 0 && dir[dir.len() - 1] != '/'
            ==> account_file(dir, account) == dir + seq!['/'] + account + ".json"@,
        (account.len() == 0 || account[0] != '/') && (dir.len() == 0 || dir[dir.len() - 1] == '/')
            ==> account_file(dir, account) == dir + account + ".json"@,
{
    reveal_strlit("/");
    reveal_strlit(".json");
    let file = file_name(account);
    if account.len() > 0 {
        assert(file[0] == account[0]);
    }
    assert("/"@ =~= seq!['/']);
    assert(dir + seq!['/'] + file =~= dir + seq!['/'] + account + ".json"@);
    assert(dir + file =~= dir + account + ".json"@);
}

/// A file is an account's exactly where its name is an account name followed
/// by `.json`, and then it is that account's.
pub proof fn files_of_accounts(file: Seq<char>, account: Seq<char>)
    ensures
        account_in(file) == Some(account) <==> is_account_name(account) && file == account
            + ".json"@,
{
    if is_account_name(account) {
        account_of_its_file(account, file);
    }
}

proof fn accounts_in_count(files: Seq<Seq<char>>, account: Seq<char>)
    ensures
        accounts_in(files).to_multiset().count(account) == if is_account_name(account) {
            files.to_multiset().count(file_name(account))
        } else {
            0
        },
    decreases files.len(),
{
    broadcast use vstd::seq_lib::to_multiset_build;

    if files.len() > 0 {
        let rest = files.drop_last();
        let last = files.last();
        assert(files == rest.push(last));
        accounts_in_count(rest, account);
        files_of_accounts(last, account);
        assert(files.to_multiset().count(file_name(account)) == rest.to_multiset().count(
            file_name(account),
        ) + if last == file_name(account) {
            1nat
        } else {
            0nat
        });
        match account_in(last) {
            Some(name) => {
                files_of_accounts(last, name);
                assert(accounts_in(files) == accounts_in(rest).push(name));
            },
            None => {},
        }
    } else {
        accounts_in(files).to_multiset_ensures();
        files.to_multiset_ensures();
        assert(accounts_in(files).to_multiset().len() == 0);
        assert(files.to_multiset().len() == 0);
    }
}

/// A scan lists an account as often as the directory has a file of its name
/// with `.json` behind it, and lists nothing that is no account name.
pub proof fn scan_counts_the_files(
    names: Seq<Seq<char>>,
    files: Seq<Seq<char>>,
    account: Seq<char>,
)
    requires
        is_scan_of(names, files),
    ensures
        is_account_name(account) ==> names.to_multiset().count(account)
            == files.to_multiset().count(account + ".json"@),
        !is_account_name(account) ==> !names.contains(account),
{
    accounts_in_count(files, account);
    names.to_multiset_ensures();
    assert(names.contains(account) <==> names.to_multiset().count(account) > 0);
}

/// A scan lists its accounts by name: of two, the earlier begins the later, or
/// has the lower code point where the two first differ.
pub proof fn scan_is_in_name_order(
    names: Seq<Seq<char>>,
    files: Seq<Seq<char>>,
    i: int,
    j: int,
)
    requires
        is_scan_of(names, files),
        0 <= i < j < names.len(),
    ensures
        names[i].is_prefix_of(names[j]) || exists|k: int|
            0 <= k < names[i].len() && k < names[j].len() && (forall|m: int|
                0 <= m < k ==> names[i][m] == names[j][m]) && (#[trigger] names[i][k] as int) < (
            names[j][k] as int),
{
    assert(text::precedes(names[i], names[j]));
    text::precedes_at_first_difference(names[i], names[j]);
}

/// The texts of strings are their characters, one text for each string.
pub proof fn texts_are_those_of_the_strings(strings: Seq<String>)
    ensures
        texts(strings).len() == strings.len(),
        forall|i: int| 0 <= i < strings.len() ==> #[trigger] texts(strings)[i] == strings[i]@,
{
}

} // verus!
