use zeroclaw::wechat::accounts::{
    list_accounts, load_sync_buf, normalize_account_id, now_unix_secs, resolve_account,
    stamp_saved_at, AccountData, CredentialError, StoredAccount, DEFAULT_BASE_URL,
};
use zeroclaw::wechat::index::{
    bytes_or_none, ids_or_none, list_account_ids, print_account_ids, register_account_id,
    unregister_account_id,
};
use zeroclaw::wechat::paths::{
    account_path, accounts_dir, index_path, state_dir, sync_buf_path, wechat_dir, StateRoot,
};
use zeroclaw::wechat::report::{delete_report, list_report, login_report, unavailable_message};

fn strings(list: &[&str]) -> Vec<String> {
    list.iter().map(|s| s.to_string()).collect()
}

fn data(token: Option<&str>, base_url: Option<&str>) -> AccountData {
    AccountData {
        token: token.map(str::to_string),
        base_url: base_url.map(str::to_string),
        user_id: Some("wxid_1".to_string()),
        saved_at: Some(7),
    }
}

#[test]
fn test_normalize_account_id() {
    assert_eq!(normalize_account_id("Tony@Wang.123"), "tony-wang-123");
    assert_eq!(normalize_account_id("  ABC  "), "abc");
}

#[test]
fn normalize_handles_other_white_space_and_letters() {
    assert_eq!(normalize_account_id("\u{3000}\tA b\n\u{a0}"), "a b");
    assert_eq!(normalize_account_id("ÄÖ@X"), "äö-x");
    assert_eq!(normalize_account_id("ΑΣ"), "ας");
    assert_eq!(normalize_account_id(" \t "), "");
    assert_eq!(normalize_account_id("..@/a"), "----a");
    assert_eq!(normalize_account_id("/etc/X"), "-etc-x");
    assert_eq!(normalize_account_id("..\\A"), "---a");
    assert_eq!(normalize_account_id(&normalize_account_id(" A.b@C ")), "a-b-c");
}

#[test]
fn test_state_dir_env_override() {
    assert_eq!(
        state_dir(Some("/tmp/zeroclaw-test-state".to_string()), true),
        StateRoot::Given("/tmp/zeroclaw-test-state".to_string())
    );
}

#[test]
fn state_dir_falls_back_to_home_and_working_directory() {
    let name = ".zeroclaw".to_string();
    assert_eq!(state_dir(None, true), StateRoot::InHome(name.clone()));
    assert_eq!(state_dir(Some(String::new()), true), StateRoot::InHome(name.clone()));
    assert_eq!(state_dir(None, false), StateRoot::InWorkingDirectory(name));
}

#[test]
fn paths_follow_the_layout() {
    assert_eq!(wechat_dir().parts, strings(&["wechat"]));
    assert_eq!(accounts_dir().parts, strings(&["wechat", "accounts"]));
    assert_eq!(account_path("a-b").parts, strings(&["wechat", "accounts", "a-b.json"]));
    assert_eq!(index_path().parts, strings(&["wechat", "accounts.json"]));
    assert_eq!(sync_buf_path("a-b").parts, strings(&["wechat", "sync_buf", "a-b"]));
}

#[test]
fn paths_of_different_files_differ() {
    assert_ne!(account_path("a"), account_path("b"));
    assert_ne!(account_path("a"), sync_buf_path("a"));
    assert_ne!(account_path("accounts"), index_path());
    assert_ne!(sync_buf_path("a"), index_path());
}

#[test]
fn index_is_read_from_json() {
    assert_eq!(
        list_account_ids(Some(" [\"b\",\n\"\\u0061\"] ".to_string())),
        strings(&["b", "a"])
    );
    assert_eq!(list_account_ids(Some("[]".to_string())), strings(&[]));
    assert_eq!(list_account_ids(Some("[1]".to_string())), strings(&[]));
    assert_eq!(list_account_ids(Some("{}".to_string())), strings(&[]));
    assert_eq!(list_account_ids(Some(String::new())), strings(&[]));
    assert_eq!(list_account_ids(None), strings(&[]));
}

#[test]
fn index_reads_back_what_was_printed() {
    let bytes = print_account_ids(&strings(&["a", "b"]));
    assert_eq!(bytes, b"[\n  \"a\",\n  \"b\"\n]".to_vec());
    let odd = strings(&["", "a\"\\\n\u{1}\u{7f}", "ä 👪", "\u{2028}"]);
    let text = String::from_utf8(print_account_ids(&odd)).unwrap();
    assert_eq!(list_account_ids(Some(text)), odd);
    assert_eq!(print_account_ids(&strings(&[])), b"[]".to_vec());
}

#[test]
fn failed_conversions_count_as_empty() {
    assert_eq!(ids_or_none::<u8>(Ok(strings(&["a"]))), strings(&["a"]));
    assert_eq!(ids_or_none::<u8>(Err(1)), strings(&[]));
    assert_eq!(bytes_or_none::<u8>(Ok(vec![1, 2])), vec![1, 2]);
    assert_eq!(bytes_or_none::<u8>(Err(1)), Vec::<u8>::new());
}

#[test]
fn registering_moves_an_id_to_the_end() {
    let ids = strings(&["a", "b", "a", "c"]);
    let more = register_account_id(ids.clone(), "a".to_string());
    assert_eq!(more, strings(&["b", "c", "a"]));
    assert_eq!(register_account_id(more.clone(), "a".to_string()), more);
    assert_eq!(
        unregister_account_id(more, &"a".to_string()),
        unregister_account_id(ids, &"a".to_string())
    );
    assert_eq!(register_account_id(Vec::new(), "x".to_string()), strings(&["x"]));
}

#[test]
fn unregistering_takes_every_occurrence() {
    let ids = strings(&["a", "b", "a"]);
    assert_eq!(unregister_account_id(ids.clone(), &"a".to_string()), strings(&["b"]));
    assert_eq!(unregister_account_id(ids.clone(), &"A".to_string()), ids);
}

#[test]
fn list_accounts_skips_unreadable_credentials() {
    let records = vec![
        ("one".to_string(), Some(data(Some("t"), None))),
        ("two".to_string(), None),
        ("three".to_string(), Some(data(Some(" \t"), Some("u")))),
        ("four".to_string(), Some(data(None, None))),
    ];
    let listed = list_accounts(records);
    assert_eq!(
        listed[0],
        StoredAccount {
            account_id: "one".to_string(),
            has_token: true,
            base_url: None,
            user_id: Some("wxid_1".to_string()),
            saved_at: Some(7),
        }
    );
    let ids: Vec<&str> = listed.iter().map(|a| a.account_id.as_str()).collect();
    assert_eq!(ids, vec!["one", "three", "four"]);
    assert!(!listed[1].has_token && !listed[2].has_token);
    assert_eq!(listed[1].base_url.as_deref(), Some("u"));
}

#[test]
fn resolve_account_hands_out_token_and_server() {
    assert_eq!(
        resolve_account(Some(data(Some(" t "), Some("https://x"))), String::new()),
        Ok((" t ".to_string(), "https://x".to_string()))
    );
    let default = Ok(("t".to_string(), "https://ilinkai.weixin.qq.com".to_string()));
    assert_eq!(resolve_account(Some(data(Some("t"), None)), String::new()), default);
    assert_eq!(resolve_account(Some(data(Some("t"), Some(" \u{2003}"))), String::new()), default);
    assert_eq!(DEFAULT_BASE_URL, "https://ilinkai.weixin.qq.com");
}

#[test]
fn resolve_account_reports_what_is_missing() {
    let err = resolve_account(None, "/s/wechat/accounts/a.json".to_string()).unwrap_err();
    assert_eq!(err, CredentialError::NotFound { path: "/s/wechat/accounts/a.json".to_string() });
    assert_eq!(
        err.message(),
        "WeChat credentials not found at /s/wechat/accounts/a.json. Run `zeroclaw channel wechat login` first."
    );
    for token in [None, Some(""), Some(" \n")] {
        let err = resolve_account(Some(data(token, None)), String::new()).unwrap_err();
        assert_eq!(err, CredentialError::MissingToken);
        assert_eq!(err.message(), "WeChat credentials missing token");
    }
}

#[test]
fn listing_agrees_with_resolving() {
    for token in [None, Some(""), Some(" "), Some("t")] {
        let listed = list_accounts(vec![("a".to_string(), Some(data(token, None)))]);
        let resolved = resolve_account(Some(data(token, None)), String::new());
        assert_eq!(listed[0].has_token, resolved.is_ok());
    }
}

#[test]
fn stamping_keeps_a_time_that_is_there() {
    assert_eq!(stamp_saved_at(data(None, None), 9).saved_at, Some(7));
    let fresh = stamp_saved_at(AccountData::default(), 9);
    assert_eq!(fresh.saved_at, Some(9));
    assert_eq!((fresh.token, fresh.base_url, fresh.user_id), (None, None, None));
}

#[test]
fn clock_before_the_epoch_reads_zero() {
    assert_eq!(now_unix_secs(Some(42)), 42);
    assert_eq!(now_unix_secs(None), 0);
}

#[test]
fn missing_cursor_is_empty() {
    assert_eq!(load_sync_buf(Some("c1".to_string())), "c1");
    assert_eq!(load_sync_buf(None), "");
}

#[test]
fn reports_are_exact() {
    assert_eq!(
        login_report("a-b"),
        strings(&[
            "✅ WeChat login successful: account_id = a-b",
            "Now configure ZeroClaw with:\n  zeroclaw config set channels.wechat.account_id a-b\n  zeroclaw config set channels.wechat.enabled true",
        ])
    );
    assert_eq!(
        list_report(&Vec::new()),
        strings(&["No WeChat accounts saved.", "Run `zeroclaw channel wechat login` to add one."])
    );
    let accounts = list_accounts(vec![
        ("one".to_string(), Some(data(Some("t"), Some("https://x")))),
        (
            "two".to_string(),
            Some(AccountData { user_id: None, ..data(None, None) }),
        ),
    ]);
    assert_eq!(
        list_report(&accounts),
        strings(&[
            "Saved WeChat accounts:",
            "  ✅ one  user=wxid_1  base_url=https://x",
            "  ❌ two  user=-  base_url=-",
        ])
    );
    assert_eq!(delete_report("A.b"), strings(&["✅ Deleted WeChat account: A.b"]));
    assert!(unavailable_message().starts_with("WeChat channel support is not built into this binary."));
}
