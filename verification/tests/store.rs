use serde_json::Value;
use shunt::shared::{scan_account_dir, DirListing};
use shunt::store::{
    account_path, check_login, default_accounts_dir, scan_accounts, store_oauth_tokens,
    validate_account_name, StoreError, ACCOUNTS_DIR_ENV,
};

fn strings(items: &[&str]) -> Vec<String> {
    items.iter().map(|item| item.to_string()).collect()
}

fn scanned(files: &[&str]) -> Vec<String> {
    let listing: DirListing<String> = DirListing::Entries(strings(files));
    let accounts = scan_accounts(listing).unwrap();
    accounts.into_iter().map(|account| account.name).collect()
}

#[test]
fn validates_account_names() {
    assert!(validate_account_name("primary-2").is_ok());
    for invalid in ["", "Primary", "has space", "../escape", "under_score"] {
        assert!(
            validate_account_name(invalid).is_err(),
            "accepted {invalid:?}"
        );
    }
}

#[test]
fn account_names_are_checked_to_the_last_character() {
    assert!(validate_account_name("az09-").is_ok());
    assert!(validate_account_name("-").is_ok());
    for invalid in ["a.", "a/", "a`", "a{", "é", "a\0"] {
        let error = validate_account_name(invalid).unwrap_err();
        assert_eq!(error.name, invalid);
    }
}

#[test]
fn oauth_tokens_round_trip_in_the_stored_auth_schema() {
    let file = store_oauth_tokens(
        "/accounts",
        "primary",
        "access-token",
        "refresh-token",
        Some(4_000_000_000_000),
        Some("a@example.com"),
        Some("proj-1"),
    )
    .unwrap();
    assert_eq!(file.path, account_path("/accounts", "primary"));

    let written: Value = serde_json::from_str(&file.contents).unwrap();
    assert_eq!(written["access_token"], "access-token");
    assert_eq!(written["refresh_token"], "refresh-token");
    assert_eq!(written["expiry_date"].as_u64(), Some(4_000_000_000_000));
    assert_eq!(written["email"], "a@example.com");
    assert_eq!(written["project_id"], "proj-1");
    assert_eq!(written.as_object().unwrap().len(), 5);
}

#[test]
fn stored_text_is_exact() {
    let file = store_oauth_tokens("/d", "p", "a", "r", Some(u64::MAX), None, Some("q\"\\\n")).unwrap();
    assert_eq!(
        file.contents,
        "{\"access_token\":\"a\",\"email\":null,\"expiry_date\":18446744073709551615,\
         \"project_id\":\"q\\\"\\\\\",\"refresh_token\":\"r\"}"
    );
}

#[test]
fn awkward_labels_come_back_as_they_were() {
    let label = "tab\there \u{1} \u{7f} \u{2028} é 😀 \"quoted\" \\ end";
    let file = store_oauth_tokens("", "p", "a", "r", None, Some(label), None).unwrap();
    let written: Value = serde_json::from_str(&file.contents).unwrap();
    assert_eq!(written["email"], label);
    assert_eq!(file.path, "p.json");
}

#[test]
fn oauth_tokens_reject_blank_tokens_and_trim_labels() {
    let dir = "/accounts";
    assert!(store_oauth_tokens(dir, "primary", "", "refresh", None, None, None).is_err());
    assert!(store_oauth_tokens(dir, "primary", " ", "refresh", None, None, None).is_err());
    assert!(store_oauth_tokens(dir, "primary", "access", "", None, None, None).is_err());
    assert!(store_oauth_tokens(dir, "primary", "access", " ", None, None, None).is_err());

    let file = store_oauth_tokens(
        dir,
        "primary",
        "access",
        "refresh",
        None,
        Some("   "),
        Some("  "),
    )
    .unwrap();
    let written: Value = serde_json::from_str(&file.contents).unwrap();
    assert_eq!(written["email"], Value::Null);
    assert_eq!(written["project_id"], Value::Null);
    assert_eq!(written["expiry_date"], Value::Null);
}

#[test]
fn oauth_tokens_reject_invalid_names() {
    assert!(
        store_oauth_tokens("/accounts", "../escape", "access", "refresh", None, None, None)
            .is_err()
    );
}

#[test]
fn logins_are_kept_trimmed() {
    let auth = check_login(
        "primary",
        "\u{2003}access\n",
        "\trefresh ",
        Some(7),
        Some(" me@example.com "),
        Some("\u{a0}proj\u{3000}"),
    )
    .unwrap();
    assert_eq!(auth.access_token, "access");
    assert_eq!(auth.refresh_token, "refresh");
    assert_eq!(auth.expiry_date, Some(7));
    assert_eq!(auth.email.as_deref(), Some("me@example.com"));
    assert_eq!(auth.project_id.as_deref(), Some("proj"));
    let again = check_login(
        "primary",
        &auth.access_token,
        &auth.refresh_token,
        auth.expiry_date,
        auth.email.as_deref(),
        auth.project_id.as_deref(),
    )
    .unwrap();
    assert_eq!(again.to_text(), auth.to_text());
}

#[test]
fn the_first_thing_wrong_is_reported() {
    let error = check_login("No", "a b", "", None, None, None).unwrap_err();
    assert!(matches!(&error, StoreError::InvalidName { name } if name == "No"));
    assert_eq!(error.message(), "invalid account name: No");
    let error = check_login("no", "a b", "", None, None, None).unwrap_err();
    assert!(matches!(error, StoreError::InvalidAccessToken));
    assert_eq!(
        error.message(),
        "Antigravity access token must be one non-empty value without whitespace"
    );
    let error = check_login("no", "a", "r\u{85}r", None, None, None).unwrap_err();
    assert!(matches!(error, StoreError::InvalidRefreshToken));
    assert_eq!(
        error.message(),
        "Antigravity refresh token must be one non-empty value without whitespace"
    );
}

#[test]
fn accounts_dir_is_the_chosen_one_or_under_home() {
    assert_eq!(ACCOUNTS_DIR_ENV, "SHUNT_ANTIGRAVITY_ACCOUNTS_DIR");
    assert_eq!(default_accounts_dir(Some("/chosen"), "/home/me"), "/chosen");
    assert_eq!(
        default_accounts_dir(None, "/home/me"),
        "/home/me/.shunt/accounts/antigravity"
    );
    assert_eq!(
        default_accounts_dir(None, "/"),
        "/.shunt/accounts/antigravity"
    );
}

#[test]
fn account_paths_join_like_std_paths() {
    for dir in ["/accounts", "/accounts/", "", "rel"] {
        for name in ["primary", "../escape", "/absolute", ""] {
            let expected = std::path::Path::new(dir).join(format!("{name}.json"));
            assert_eq!(account_path(dir, name), expected.to_str().unwrap());
        }
    }
}

#[test]
fn accounts_have_files_of_their_own() {
    assert_ne!(account_path("/d", "a"), account_path("/d", "a-a"));
    assert_eq!(account_path("/d", "a"), "/d/a.json");
}

#[test]
fn scan_accounts_skips_non_account_files_and_uses_filename_identity() {
    let files = strings(&["zeta.json", "alpha.json", "ignore.txt", "Bad.json"]);
    let listing: DirListing<String> = DirListing::Entries(files);
    let accounts = scan_accounts(listing).unwrap();
    let names: Vec<_> = accounts
        .iter()
        .map(|account| account.name.as_str())
        .collect();
    assert_eq!(names, ["alpha", "zeta"]);
    assert!(accounts.iter().all(|account| account.uuid.is_none()));
}

#[test]
fn scan_accounts_missing_dir_is_empty() {
    let listing: DirListing<String> = DirListing::Missing;
    assert!(scan_accounts(listing).unwrap().is_empty());
}

#[test]
fn scan_accounts_passes_a_failure_on() {
    let listing: DirListing<u8> = DirListing::Failed(13);
    assert_eq!(scan_accounts(listing).unwrap_err(), 13);
}

#[test]
fn scan_order_does_not_depend_on_the_listing() {
    let sorted = ["a", "a-1", "a0", "ab", "b"];
    assert_eq!(scanned(&["b.json", "ab.json", "a0.json", "a-1.json", "a.json"]), sorted);
    assert_eq!(scanned(&["a0.json", "b.json", "a.json", "ab.json", "a-1.json"]), sorted);
}

#[test]
fn scan_reads_whole_file_names() {
    let files = strings(&[".json", "json", "a.json.bak", "a.b.json", "a.JSON", "x.json"]);
    assert_eq!(scan_account_dir(&files), ["x"]);
}
