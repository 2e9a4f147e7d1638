//! What the WeChat commands tell the user, line by line.

use vstd::prelude::*;

use crate::text::texts;
use crate::wechat::accounts::StoredAccount;

verus! {

/// What is printed after a login.
pub open spec fn login_text(account_id: Seq<char>) -> Seq<Seq<char>> {
    seq![
        "✅ WeChat login successful: account_id = "@ + account_id,
        "Now configure ZeroClaw with:\n  zeroclaw config set channels.wechat.account_id "@
            + account_id + "\n  zeroclaw config set channels.wechat.enabled true"@,
    ]
}

/// What is printed after a login.
pub fn login_report(account_id: &str) -> (r: Vec<String>)
    ensures
        texts(r@) == login_text(account_id@),
{
    let mut done = "✅ WeChat login successful: account_id = ".to_owned();
    done.append(account_id);
    let mut hint =
        "Now configure ZeroClaw with:\n  zeroclaw config set channels.wechat.account_id ".to_owned();
    hint.append(account_id);
    hint.append("\n  zeroclaw config set channels.wechat.enabled true");
    let mut lines: Vec<String> = Vec::new();
    lines.push(done);
    lines.push(hint);
    assert(texts(lines@) =~= login_text(account_id@));
    lines
}

/// An optional text, or `-` in its place.
pub open spec fn or_dash(text: Option<String>) -> Seq<char> {
    match text {
        Some(t) => t@,
        None => "-"@,
    }
}

/// The line of one account in a listing.
pub open spec fn account_text(a: StoredAccount) -> Seq<char> {
    "  "@ + (if a.has_token {
        "✅"@
    } else {
        "❌"@
    }) + " "@ + a.account_id@ + "  user="@ + or_dash(a.user_id) + "  base_url="@ + or_dash(
        a.base_url,
    )
}

/// What is printed for a listing.
pub open spec fn list_text(accounts: Seq<StoredAccount>) -> Seq<Seq<char>> {
    if accounts.len() == 0 {
        seq!["No WeChat accounts saved."@, "Run `zeroclaw channel wechat login` to add one."@]
    } else {
        seq!["Saved WeChat accounts:"@] + accounts.map_values(|a: StoredAccount| account_text(a))
    }
}

fn append_or_dash(line: &mut String, text: &Option<String>)
    ensures
        final(line)@ == old(line)@ + or_dash(*text),
{
    match text {
        Some(t) => line.append(t.as_str()),
        None => line.append("-"),
    }
}

fn account_line(a: &StoredAccount) -> (r: String)
    ensures
        r@ == account_text(*a),
{
    let mut line = "  ".to_owned();
    if a.has_token {
        line.append("✅");
    } else {
        line.append("❌");
    }
    line.append(" ");
    line.append(a.account_id.as_str());
    line.append("  user=");
    append_or_dash(&mut line, &a.user_id);
    line.append("  base_url=");
    append_or_dash(&mut line, &a.base_url);
    line
}

/// What is printed for a listing: one line for each account, or how to get one.
pub fn list_report(accounts: &Vec<StoredAccount>) -> (r: Vec<String>)
    ensures
        texts(r@) == list_text(accounts@),
{
    let mut lines: Vec<String> = Vec::new();
    if accounts.len() == 0 {
        lines.push("No WeChat accounts saved.".to_owned());
        lines.push("Run `zeroclaw channel wechat login` to add one.".to_owned());
        assert(texts(lines@) =~= list_text(accounts@));
        return lines;
    }
    lines.push("Saved WeChat accounts:".to_owned());
    let mut i: usize = 0;
    while i < accounts.len()
        invariant
            i <= accounts@.len(),
            lines@.len() == i + 1,
            lines@[0]@ == "Saved WeChat accounts:"@,
            forall|j: int| 1 <= j <= i ==> #[trigger] lines@[j]@ == account_text(accounts@[j - 1]),
        decreases accounts@.len() - i,
    {
        lines.push(account_line(&accounts[i]));
        i = i + 1;
    }
    assert(texts(lines@) =~= list_text(accounts@));
    lines
}

/// What is printed after a deletion.
pub fn delete_report(account_id: &str) -> (r: Vec<String>)
    ensures
        texts(r@) == seq!["✅ Deleted WeChat account: "@ + account_id@],
{
    let mut line = "✅ Deleted WeChat account: ".to_owned();
    line.append(account_id);
    let mut lines: Vec<String> = Vec::new();
    lines.push(line);
    assert(texts(lines@) =~= seq!["✅ Deleted WeChat account: "@ + account_id@]);
    lines
}

/// Why the commands fail in a binary without the WeChat channel.
pub fn unavailable_message() -> (r: String)
    ensures
        r@
            == "WeChat channel support is not built into this binary. Rebuild with `--features channel-wechat`."@,
{
    "WeChat channel support is not built into this binary. Rebuild with `--features channel-wechat`.".to_owned()
}

} // verus!
