//! Where the files of the account store are.

use vstd::prelude::*;

use crate::text::texts;

verus! {

/// A path below the state directory, by the parts that are joined to it one
/// after the other.
#[derive(Debug, PartialEq, Eq)]
pub struct StatePath {
    pub parts: Vec<String>,
}

impl View for StatePath {
    type V = Seq<Seq<char>>;

    open spec fn view(&self) -> Seq<Seq<char>> {
        texts(self.parts@)
    }
}

impl StatePath {
    /// The path with one part more.
    pub fn join(self, part: String) -> (r: StatePath)
        ensures
            r@ == self@.push(part@),
    {
        let mut parts = self.parts;
        let ghost before = parts@;
        parts.push(part);
        assert(texts(parts@) =~= texts(before).push(part@));
        StatePath { parts }
    }
}

/// The directory that holds all state.
#[derive(Debug, PartialEq, Eq)]
pub enum StateRoot {
    /// The directory that the environment names.
    Given(String),
    /// The named directory in the home directory.
    InHome(String),
    /// The named directory in the working directory.
    InWorkingDirectory(String),
}

/// Chooses the state directory: the one that the environment names, unless the
/// name is empty, and otherwise `.zeroclaw` in the home directory, or in the
/// working directory where no home directory is known.
pub fn state_dir(from_environment: Option<String>, home_is_known: bool) -> (r: StateRoot)
    ensures
        match r {
            StateRoot::Given(dir) => from_environment == Some(dir) && dir@.len() > 0,
            StateRoot::InHome(name) => name@ == ".zeroclaw"@ && home_is_known,
            StateRoot::InWorkingDirectory(name) => name@ == ".zeroclaw"@ && !home_is_known,
        },
        r is Given <==> from_environment is Some && from_environment->0@.len() > 0,
{
    if let Some(dir) = from_environment {
        if !dir.as_str().is_empty() {
            return StateRoot::Given(dir);
        }
    }
    if home_is_known {
        StateRoot::InHome(".zeroclaw".to_owned())
    } else {
        StateRoot::InWorkingDirectory(".zeroclaw".to_owned())
    }
}

/// The parts of the directory of the account store.
pub open spec fn wechat_parts() -> Seq<Seq<char>> {
    seq!["wechat"@]
}

/// The parts of the directory of the credentials.
pub open spec fn accounts_parts() -> Seq<Seq<char>> {
    wechat_parts().push("accounts"@)
}

/// The parts of the file with the credentials of an account.
pub open spec fn account_parts(account_id: Seq<char>) -> Seq<Seq<char>> {
    accounts_parts().push(account_id + ".json"@)
}

/// The parts of the account index.
pub open spec fn index_parts() -> Seq<Seq<char>> {
    wechat_parts().push("accounts.json"@)
}

/// The parts of the file with the long-poll cursor of an account.
pub open spec fn sync_buf_parts(account_id: Seq<char>) -> Seq<Seq<char>> {
    wechat_parts().push("sync_buf"@).push(account_id)
}

/// The text holds no path separator.
pub open spec fn no_separator(text: Seq<char>) -> bool {
    !text.contains('/') && !text.contains('\\')
}

/// Joined to a directory, the part names one entry directly in it.
pub open spec fn is_file_name(part: Seq<char>) -> bool {
    no_separator(part) && part.len() > 0 && part != "."@ && part != ".."@
}

/// The directory of the account store.
pub fn wechat_dir() -> (r: StatePath)
    ensures
        r@ == wechat_parts(),
{
    let r = StatePath { parts: Vec::new() }.join("wechat".to_owned());
    assert(r@ =~= wechat_parts());
    r
}

/// The directory of the credentials.
pub fn accounts_dir() -> (r: StatePath)
    ensures
        r@ == accounts_parts(),
{
    wechat_dir().join("accounts".to_owned())
}

/// The file with the credentials of an account.
pub fn account_path(account_id: &str) -> (r: StatePath)
    ensures
        r@ == account_parts(account_id@),
{
    accounts_dir().join(account_id.to_owned().concat(".json"))
}

/// The account index.
pub fn index_path() -> (r: StatePath)
    ensures
        r@ == index_parts(),
{
    wechat_dir().join("accounts.json".to_owned())
}

/// The file with the long-poll cursor of an account.
pub fn sync_buf_path(account_id: &str) -> (r: StatePath)
    ensures
        r@ == sync_buf_parts(account_id@),
{
    wechat_dir().join("sync_buf".to_owned()).join(account_id.to_owned())
}

/// No two files of the account store have the same parts: not the credentials
/// or the cursors of two accounts, nor credentials, cursor and index.
pub proof fn law_files_are_told_apart(a: Seq<char>, b: Seq<char>)
    ensures
        account_parts(a) == account_parts(b) ==> a == b,
        sync_buf_parts(a) == sync_buf_parts(b) ==> a == b,
        account_parts(a) != sync_buf_parts(b),
        account_parts(a) != index_parts(),
        sync_buf_parts(a) != index_parts(),
{
    let json = ".json"@;
    assert(account_parts(a)[2] == a + json && account_parts(b)[2] == b + json);
    if account_parts(a) == account_parts(b) {
        assert((a + json).len() == (b + json).len());
        assert((a + json).take(a.len() as int) =~= a);
        assert((b + json).take(b.len() as int) =~= b);
    }
    assert(sync_buf_parts(a)[2] == a && sync_buf_parts(b)[2] == b);
    reveal_strlit("accounts");
    reveal_strlit("sync_buf");
    assert("accounts"@[0] != "sync_buf"@[0]);
    assert(account_parts(a)[1] == "accounts"@ && sync_buf_parts(b)[1] == "sync_buf"@);
    assert(account_parts(a).len() == 3 && sync_buf_parts(a).len() == 3 && index_parts().len() == 2);
}

} // verus!
