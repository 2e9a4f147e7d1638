//! WeChat accounts: their identifiers, and what is known of each.

use vstd::prelude::*;

use crate::seqs::lemma_filter_map_next;
use crate::text::{blank, is_blank, is_white_space, lowercase, opt_text, trimmed};

verus! {

/// The server that is used where an account names none.
pub const DEFAULT_BASE_URL: &'static str = "https://ilinkai.weixin.qq.com";

/// The credentials of one account, as they are kept on disk.
#[derive(Clone, Debug, PartialEq, Eq)]
pub struct AccountData {
    pub token: Option<String>,
    pub base_url: Option<String>,
    pub user_id: Option<String>,
    /// Seconds since the Unix epoch.
    pub saved_at: Option<u64>,
}

impl Default for AccountData {
    fn default() -> (r: Self)
        ensures
            r == (AccountData { token: None, base_url: None, user_id: None, saved_at: None }),
    {
        AccountData { token: None, base_url: None, user_id: None, saved_at: None }
    }
}

/// An account as it is listed: all but the token itself.
#[derive(Clone, Debug, PartialEq, Eq)]
pub struct StoredAccount {
    pub account_id: String,
    pub has_token: bool,
    pub base_url: Option<String>,
    pub user_id: Option<String>,
    pub saved_at: Option<u64>,
}

/// Why the credentials of an account cannot be used.
#[derive(Debug, PartialEq, Eq)]
pub enum CredentialError {
    /// There are none at the path.
    NotFound { path: String },
    /// They hold no token.
    MissingToken,
}

impl CredentialError {
    /// The error in words.
    pub open spec fn text(self) -> Seq<char> {
        match self {
            CredentialError::NotFound { path } => "WeChat credentials not found at "@ + path@
                + ". Run `zeroclaw channel wechat login` first."@,
            CredentialError::MissingToken => "WeChat credentials missing token"@,
        }
    }

    /// The error in words.
    pub fn message(&self) -> (r: String)
        ensures
            r@ == self.text(),
    {
        match self {
            CredentialError::NotFound { path } => {
                let mut text = "WeChat credentials not found at ".to_owned();
                text.append(path.as_str());
                text.append(". Run `zeroclaw channel wechat login` first.");
                text
            },
            CredentialError::MissingToken => "WeChat credentials missing token".to_owned(),
        }
    }
}

/// `-` in place of `@`, `.` and the path separators `/` and `\`, any other
/// character as it is.
pub open spec fn dashed_char(c: char) -> char {
    if c == '@' || c == '.' || c == '/' || c == '\\' {
        '-'
    } else {
        c
    }
}

/// `s` with `-` in place of every `@`, `.` and path separator.
pub open spec fn dashed(s: Seq<char>) -> Seq<char> {
    s.map_values(|c: char| dashed_char(c))
}

/// The account identifier of a raw iLink user ID: trimmed, in lower case, with
/// `-` in place of `@`, `.` and path separators.
pub open spec fn normalized(raw: Seq<char>) -> Seq<char> {
    dashed(lowercase(trimmed(raw)))
}

/// Turns a raw iLink user ID into a filesystem-safe account identifier, by which
/// its files are named.
pub fn normalize_account_id(raw: &str) -> (r: String)
    ensures
        r@ == normalized(raw@),
        !r@.contains('/'),
        !r@.contains('\\'),
{
    let lower = raw.trim().to_lowercase();
    let ghost all = lower@;
    let mut out = String::new();
    for c in it: lower.as_str().chars()
        invariant
            it.seq() == all,
            out@ == dashed(all.take(it.index())),
    {
        let ghost n = it.index();
        if c == '@' || c == '.' || c == '/' || c == '\\' {
            out.push('-');
        } else {
            out.push(c);
        }
        assert(out@ =~= dashed(all.take(n + 1)));
    }
    assert(all.take(all.len() as int) =~= all);
    assert forall|i: int| 0 <= i < out@.len() implies out@[i] != '/' && out@[i] != '\\' by {
        assert(out@[i] == dashed_char(all[i]));
    }
    out
}

/// A token that can be used: one that is not blank.
pub open spec fn usable(text: Option<String>) -> bool {
    text is Some && !is_blank(text->0@)
}

/// How an account is listed. One whose credentials cannot be read is not.
pub open spec fn listed(record: (String, Option<AccountData>)) -> Option<StoredAccount> {
    match record.1 {
        None => None,
        Some(data) => Some(
            StoredAccount {
                account_id: record.0,
                has_token: usable(data.token),
                base_url: data.base_url,
                user_id: data.user_id,
                saved_at: data.saved_at,
            },
        ),
    }
}

/// Whether there is a text, and it is not blank.
fn is_usable(text: &Option<String>) -> (r: bool)
    ensures
        r == usable(*text),
{
    match text {
        None => false,
        Some(t) => !blank(t.as_str()),
    }
}

/// Lists the accounts of the index, each with the credentials that were read
/// for it, in the order of the index.
pub fn list_accounts(records: Vec<(String, Option<AccountData>)>) -> (r: Vec<StoredAccount>)
    ensures
        r@ == records@.filter_map(|record: (String, Option<AccountData>)| listed(record)),
{
    let ghost all = records@;
    let ghost f = |record: (String, Option<AccountData>)| listed(record);
    let mut out: Vec<StoredAccount> = Vec::new();
    proof {
        assert(all.take(0).filter_map(f) =~= Seq::empty()) by {
            reveal(Seq::filter_map);
        }
    }
    for record in it: records
        invariant
            it.seq() == all,
            f == (|record: (String, Option<AccountData>)| listed(record)),
            out@ == all.take(it.index()).filter_map(f),
    {
        proof {
            lemma_filter_map_next(all, it.index(), f);
            assert(all[it.index()] == record);
        }
        let (account_id, data) = record;
        if let Some(data) = data {
            let has_token = is_usable(&data.token);
            out.push(
                StoredAccount {
                    account_id,
                    has_token,
                    base_url: data.base_url,
                    user_id: data.user_id,
                    saved_at: data.saved_at,
                },
            );
        }
    }
    assert(all.take(all.len() as int) =~= all);
    out
}

/// The credentials can be used.
pub open spec fn resolves(data: Option<AccountData>) -> bool {
    data is Some && usable(data->0.token)
}

/// The token and the server of an account, from the credentials that were read
/// at `path`. A blank server stands for the default one.
pub fn resolve_account(data: Option<AccountData>, path: String) -> (r: Result<
    (String, String),
    CredentialError,
>)
    ensures
        match data {
            None => r == Err::<(String, String), CredentialError>(
                CredentialError::NotFound { path },
            ),
            Some(d) => if !usable(d.token) {
                r == Err::<(String, String), CredentialError>(CredentialError::MissingToken)
            } else {
                &&& r matches Ok((token, base_url))
                &&& token == d.token->0
                &&& base_url@ == if usable(d.base_url) {
                    d.base_url->0@
                } else {
                    DEFAULT_BASE_URL@
                }
            },
        },
        r is Ok <==> resolves(data),
        r matches Ok((token, base_url)) ==> !is_blank(token@) && !is_blank(base_url@),
{
    proof {
        reveal_strlit("https://ilinkai.weixin.qq.com");
        assert(!is_white_space(DEFAULT_BASE_URL@[0]));
    }
    let data = match data {
        None => return Err(CredentialError::NotFound { path }),
        Some(d) => d,
    };
    let token = match data.token {
        None => return Err(CredentialError::MissingToken),
        Some(t) => t,
    };
    if blank(token.as_str()) {
        return Err(CredentialError::MissingToken);
    }
    let base_url = match data.base_url {
        None => DEFAULT_BASE_URL.to_owned(),
        Some(u) => {
            if blank(u.as_str()) {
                DEFAULT_BASE_URL.to_owned()
            } else {
                u
            }
        },
    };
    Ok((token, base_url))
}

/// The credentials with the time of the save, which is `now` unless they name
/// one.
pub fn stamp_saved_at(data: AccountData, now: u64) -> (r: AccountData)
    ensures
        r == stamped(data, now),
{
    if data.saved_at.is_none() {
        AccountData { saved_at: Some(now), ..data }
    } else {
        data
    }
}

/// The credentials with the time of the save.
pub open spec fn stamped(data: AccountData, now: u64) -> AccountData {
    if data.saved_at is None {
        AccountData { saved_at: Some(now), ..data }
    } else {
        data
    }
}

/// The time of a clock that is `since_epoch` seconds past the Unix epoch. A
/// clock before the epoch reads zero.
pub fn now_unix_secs(since_epoch: Option<u64>) -> (r: u64)
    ensures
        r == match since_epoch {
            Some(secs) => secs,
            None => 0,
        },
{
    match since_epoch {
        Some(secs) => secs,
        None => 0,
    }
}

/// The cursor in the text of its file. Where none could be read it is empty.
pub open spec fn cursor(read: Option<Seq<char>>) -> Seq<char> {
    match read {
        Some(text) => text,
        None => Seq::empty(),
    }
}

/// The long-poll cursor that was read. One that cannot be read is empty.
pub fn load_sync_buf(read: Option<String>) -> (r: String)
    ensures
        r@ == cursor(opt_text(read)),
{
    match read {
        Some(text) => text,
        None => String::new(),
    }
}

} // verus!
