//! What a caller of the account store can rely on, from what is handed in to
//! what comes out.

use vstd::prelude::*;
use vstd::utf8::{decode_utf8, is_ascii_chars};

use crate::seqs::{lemma_filter_agree, lemma_filter_map_each};
use crate::text::{
    ascii_lower, is_blank, is_white_space, lowercase, texts, trimmed,
    unicode_lowercase,
};
use crate::wechat::accounts::{
    dashed_char, listed, load_sync_buf, normalize_account_id, normalized, now_unix_secs,
    resolve_account, stamp_saved_at, usable, AccountData, CredentialError, StoredAccount,
};
use crate::wechat::flows::{
    delete_account, save_account, save_sync_buf, DeleteAccount, DeleteStage, FileAction, FileEvent,
    FileStep, SaveAccount,
};
use crate::wechat::index::{
    json_pretty_list, json_string_list, list_account_ids, other_than, print_account_ids,
    register_account_id, removed, unregister_account_id,
};
use crate::wechat::paths::{
    account_path, accounts_dir, index_path, state_dir, sync_buf_path, wechat_dir, StatePath,
    StateRoot,
};
use crate::wechat::report::{delete_report, list_report, login_report, unavailable_message};

verus! {

/// What lies before `a` and from `b` on is white space, and what lies between
/// neither begins nor ends with it.
pub open spec fn trims_to(s: Seq<char>, a: int, b: int) -> bool {
    &&& 0 <= a <= b <= s.len()
    &&& forall|i: int| 0 <= i < a ==> is_white_space(#[trigger] s[i])
    &&& forall|i: int| b <= i < s.len() ==> is_white_space(#[trigger] s[i])
    &&& a < b ==> !is_white_space(s[a]) && !is_white_space(s[b - 1])
}

/// The character is `-` in an id: `@`, `.` or a path separator.
pub open spec fn becomes_dash(c: char) -> bool {
    c == '@' || c == '.' || c == '/' || c == '\\'
}

/// The id spells the text: letter by letter in lower case, with `-` for the
/// characters that an id does not hold.
pub open spec fn spells(part: Seq<char>, id: Seq<char>) -> bool {
    if is_ascii_chars(part) {
        &&& id.len() == part.len()
        &&& forall|i: int|
            0 <= i < id.len() ==> #[trigger] id[i] as int == if becomes_dash(part[i]) {
                '-' as int
            } else if 'A' <= part[i] <= 'Z' {
                part[i] as int + 32
            } else {
                part[i] as int
            }
    } else {
        let low = unicode_lowercase(part);
        &&& id.len() == low.len()
        &&& forall|i: int|
            0 <= i < id.len() ==> #[trigger] id[i] == if becomes_dash(low[i]) {
                '-'
            } else {
                low[i]
            }
    }
}

proof fn lemma_trims_first(s: Seq<char>, a: int, b: int)
    requires
        s.len() > 0,
        is_white_space(s[0]),
        trims_to(s.drop_first(), a, b),
    ensures
        trims_to(s, a + 1, b + 1),
        s.subrange(a + 1, b + 1) == s.drop_first().subrange(a, b),
{
    let rest = s.drop_first();
    assert(s.subrange(a + 1, b + 1) =~= rest.subrange(a, b));
    assert forall|i: int| 0 <= i < a + 1 implies is_white_space(#[trigger] s[i]) by {
        if i > 0 {
            assert(rest[i - 1] == s[i]);
        }
    }
    assert forall|i: int| b + 1 <= i < s.len() implies is_white_space(#[trigger] s[i]) by {
        assert(rest[i - 1] == s[i]);
    }
    if a < b {
        assert(rest[a] == s[a + 1] && rest[b - 1] == s[b]);
    }
}

proof fn lemma_trims_last(s: Seq<char>, a: int, b: int)
    requires
        s.len() > 0,
        is_white_space(s[s.len() - 1]),
        trims_to(s.drop_last(), a, b),
    ensures
        trims_to(s, a, b),
        s.subrange(a, b) == s.drop_last().subrange(a, b),
{
    let rest = s.drop_last();
    assert(s.subrange(a, b) =~= rest.subrange(a, b));
    assert forall|i: int| 0 <= i < a implies is_white_space(#[trigger] s[i]) by {
        assert(rest[i] == s[i]);
    }
    assert forall|i: int| b <= i < s.len() implies is_white_space(#[trigger] s[i]) by {
        if i < rest.len() {
            assert(rest[i] == s[i]);
        }
    }
    if a < b {
        assert(rest[a] == s[a] && rest[b - 1] == s[b - 1]);
    }
}

proof fn lemma_trims_to(s: Seq<char>)
    ensures
        exists|a: int, b: int| #[trigger] trims_to(s, a, b) && trimmed(s) == s.subrange(a, b),
    decreases s.len(),
{
    if s.len() == 0 {
        assert(s =~= s.subrange(0, 0));
        assert(trims_to(s, 0, 0));
    } else if is_white_space(s.first()) {
        let rest = s.drop_first();
        lemma_trims_to(rest);
        let (a, b) = choose|a: int, b: int| #[trigger]
            trims_to(rest, a, b) && trimmed(rest) == rest.subrange(a, b);
        lemma_trims_first(s, a, b);
        assert(trims_to(s, a + 1, b + 1) && trimmed(s) == s.subrange(a + 1, b + 1));
    } else if is_white_space(s.last()) {
        let rest = s.drop_last();
        lemma_trims_to(rest);
        let (a, b) = choose|a: int, b: int| #[trigger]
            trims_to(rest, a, b) && trimmed(rest) == rest.subrange(a, b);
        lemma_trims_last(s, a, b);
        assert(trims_to(s, a, b) && trimmed(s) == s.subrange(a, b));
    } else {
        let n = s.len() as int;
        assert(s =~= s.subrange(0, n));
        assert(trims_to(s, 0, n));
    }
}

/// A normalised id spells the raw one without the white space at its ends.
pub proof fn law_ids_are_spelt_letter_by_letter(raw: &str, id: String)
    requires
        call_ensures(normalize_account_id, (raw,), id),
    ensures
        exists|a: int, b: int| #[trigger]
            trims_to(raw@, a, b) && spells(raw@.subrange(a, b), id@),
{
    lemma_trims_to(raw@);
    let (a, b) = choose|a: int, b: int| #[trigger]
        trims_to(raw@, a, b) && trimmed(raw@) == raw@.subrange(a, b);
    let part = raw@.subrange(a, b);
    let low = lowercase(part);
    assert forall|i: int| 0 <= i < id@.len() implies #[trigger] id@[i] == dashed_char(low[i]) by {}
    if is_ascii_chars(part) {
        assert forall|i: int| 0 <= i < id@.len() implies #[trigger] id@[i] as int
            == if becomes_dash(part[i]) {
            '-' as int
        } else if 'A' <= part[i] <= 'Z' {
            part[i] as int + 32
        } else {
            part[i] as int
        } by {
            assert(id@[i] == dashed_char(low[i]));
            assert(low[i] == ascii_lower(part[i]));
        }
    }
    assert(spells(part, id@));
}

/// There is a text, and some character of it is not white space.
pub open spec fn says_something(text: Option<String>) -> bool {
    text matches Some(t) && exists|i: int| 0 <= i < t@.len() && !is_white_space(#[trigger] t@[i])
}

proof fn lemma_says_something(text: Option<String>)
    ensures
        says_something(text) == usable(text),
{
    if let Some(t) = text {
        if !is_blank(t@) {
            let i = choose|i: int| 0 <= i < t@.len() && !is_white_space(#[trigger] t@[i]);
            assert(!is_white_space(t@[i]));
        }
    }
}

/// Holds of the accounts whose credentials could be read.
pub open spec fn was_read() -> spec_fn((String, Option<AccountData>)) -> bool {
    |record: (String, Option<AccountData>)| record.1 is Some
}

/// A listing holds every account whose credentials could be read, and no other,
/// in the order of the index, each with what its credentials say. It has a token
/// where the token says something.
pub proof fn law_listing_is_complete(
    records: Vec<(String, Option<AccountData>)>,
    accounts: Vec<StoredAccount>,
)
    requires
        call_ensures(crate::wechat::accounts::list_accounts, (records,), accounts),
    ensures
        accounts@.len() == records@.filter(was_read()).len(),
        forall|i: int|
            0 <= i < accounts@.len() ==> {
                let account = #[trigger] accounts@[i];
                let record = records@.filter(was_read())[i];
                &&& record.1 is Some
                &&& account.account_id == record.0
                &&& account.has_token == says_something(record.1->0.token)
                &&& account.base_url == record.1->0.base_url
                &&& account.user_id == record.1->0.user_id
                &&& account.saved_at == record.1->0.saved_at
            },
{
    let f = |record: (String, Option<AccountData>)| listed(record);
    lemma_filter_map_each(records@, f, was_read());
    assert forall|i: int| 0 <= i < accounts@.len() implies {
        let account = #[trigger] accounts@[i];
        let record = records@.filter(was_read())[i];
        &&& record.1 is Some
        &&& account.account_id == record.0
        &&& account.has_token == says_something(record.1->0.token)
        &&& account.base_url == record.1->0.base_url
        &&& account.user_id == record.1->0.user_id
        &&& account.saved_at == record.1->0.saved_at
    } by {
        let record = records@.filter(was_read())[i];
        assert(f(record) == Some(records@.filter_map(f)[i]));
        assert(listed(record) == Some(accounts@[i]));
        lemma_says_something(record.1->0.token);
    }
}

/// Resolving gives the token as it is and the server that the credentials name,
/// or the default one where they name none. It fails where there are no
/// credentials, and where their token says nothing.
pub proof fn law_resolving_gives_token_and_server(
    data: Option<AccountData>,
    path: String,
    result: Result<(String, String), CredentialError>,
)
    requires
        call_ensures(resolve_account, (data, path), result),
    ensures
        data is None ==> result == Err::<(String, String), CredentialError>(
            CredentialError::NotFound { path },
        ),
        data is Some && !says_something(data->0.token) ==> result == Err::<
            (String, String),
            CredentialError,
        >(CredentialError::MissingToken),
        data is Some && says_something(data->0.token) ==> {
            &&& result is Ok
            &&& result->Ok_0.0 == data->0.token->0
            &&& says_something(data->0.base_url) ==> result->Ok_0.1@ == data->0.base_url->0@
            &&& !says_something(data->0.base_url) ==> result->Ok_0.1@
                == "https://ilinkai.weixin.qq.com"@
        },
{
    if let Some(d) = data {
        lemma_says_something(d.token);
        lemma_says_something(d.base_url);
    }
}

/// The error in words names the path, and what to do.
pub proof fn law_credential_errors_in_words(error: &CredentialError, words: String)
    requires
        call_ensures(CredentialError::message, (error,), words),
    ensures
        *error matches CredentialError::NotFound { path } ==> words@
            == "WeChat credentials not found at "@ + path@
            + ". Run `zeroclaw channel wechat login` first."@,
        *error == CredentialError::MissingToken ==> words@ == "WeChat credentials missing token"@,
{
}

/// Stamping changes the time alone, and only where none was named.
pub open spec fn only_stamped(given: AccountData, now: u64, kept: AccountData) -> bool {
    &&& kept.token == given.token
    &&& kept.base_url == given.base_url
    &&& kept.user_id == given.user_id
    &&& given.saved_at is Some ==> kept.saved_at == given.saved_at
    &&& given.saved_at is None ==> kept.saved_at == Some(now)
}

/// Stamped credentials are the given ones but for the time, so they resolve to
/// the same token and the same server.
pub proof fn law_stamping_keeps_the_credentials(
    data: AccountData,
    now: u64,
    kept: AccountData,
    path: String,
    given: Result<(String, String), CredentialError>,
    read_back: Result<(String, String), CredentialError>,
)
    requires
        call_ensures(stamp_saved_at, (data, now), kept),
        call_ensures(resolve_account, (Some(data), path), given),
        call_ensures(resolve_account, (Some(kept), path), read_back),
    ensures
        only_stamped(data, now, kept),
        given is Ok <==> read_back is Ok,
        given is Ok ==> given->Ok_0.0@ == read_back->Ok_0.0@ && given->Ok_0.1@
            == read_back->Ok_0.1@,
        given is Err ==> given == read_back,
{
}

/// The parts of the path, one by one.
pub open spec fn leads_to(path: StatePath, parts: Seq<Seq<char>>) -> bool {
    &&& path.parts@.len() == parts.len()
    &&& forall|i: int| 0 <= i < parts.len() ==> #[trigger] path.parts@[i]@ == parts[i]
}

proof fn lemma_leads_to(path: StatePath, parts: Seq<Seq<char>>)
    requires
        path@ == parts,
    ensures
        leads_to(path, parts),
{
    assert(texts(path.parts@).len() == path.parts@.len());
    assert forall|i: int| 0 <= i < parts.len() implies #[trigger] path.parts@[i]@ == parts[i] by {
        assert(texts(path.parts@)[i] == path.parts@[i]@);
    }
}

/// The files of the store are where the layout has them.
pub proof fn law_layout(
    id: &str,
    wechat: StatePath,
    accounts: StatePath,
    account: StatePath,
    index: StatePath,
    cursor: StatePath,
)
    requires
        call_ensures(wechat_dir, (), wechat),
        call_ensures(accounts_dir, (), accounts),
        call_ensures(account_path, (id,), account),
        call_ensures(index_path, (), index),
        call_ensures(sync_buf_path, (id,), cursor),
    ensures
        leads_to(wechat, seq!["wechat"@]),
        leads_to(accounts, seq!["wechat"@, "accounts"@]),
        leads_to(account, seq!["wechat"@, "accounts"@, id@ + ".json"@]),
        leads_to(index, seq!["wechat"@, "accounts.json"@]),
        leads_to(cursor, seq!["wechat"@, "sync_buf"@, id@]),
{
    assert(wechat@ =~= seq!["wechat"@]);
    assert(accounts@ =~= seq!["wechat"@, "accounts"@]);
    assert(account@ =~= seq!["wechat"@, "accounts"@, id@ + ".json"@]);
    assert(index@ =~= seq!["wechat"@, "accounts.json"@]);
    assert(cursor@ =~= seq!["wechat"@, "sync_buf"@, id@]);
    lemma_leads_to(wechat, wechat@);
    lemma_leads_to(accounts, accounts@);
    lemma_leads_to(account, account@);
    lemma_leads_to(index, index@);
    lemma_leads_to(cursor, cursor@);
}

/// The state directory is the one that the environment names, where the name is
/// not empty; otherwise `.zeroclaw` in the home directory, or in the working
/// directory where no home is known. A clock before the epoch reads zero.
pub proof fn law_surroundings(
    from_environment: Option<String>,
    home_is_known: bool,
    root: StateRoot,
    since_epoch: Option<u64>,
    now: u64,
)
    requires
        call_ensures(state_dir, (from_environment, home_is_known), root),
        call_ensures(now_unix_secs, (since_epoch,), now),
    ensures
        from_environment is Some && from_environment->0@.len() > 0 ==> root == StateRoot::Given(
            from_environment->0,
        ),
        (from_environment is None || from_environment->0@.len() == 0) && home_is_known ==> root
            is InHome && root->InHome_0@ == ".zeroclaw"@,
        (from_environment is None || from_environment->0@.len() == 0) && !home_is_known ==> root
            is InWorkingDirectory && root->InWorkingDirectory_0@ == ".zeroclaw"@,
        since_epoch is Some ==> now == since_epoch->0,
        since_epoch is None ==> now == 0,
{
}

/// The ids in the text of an index: those of the JSON list, or none.
pub open spec fn ids_of_text(text: Option<String>) -> Seq<Seq<char>> {
    match text {
        Some(t) => match json_string_list(t@) {
            Some(ids) => ids,
            None => Seq::empty(),
        },
        None => Seq::empty(),
    }
}

/// Holds of the other ids.
pub open spec fn not_the(id: Seq<char>) -> spec_fn(Seq<char>) -> bool {
    |listed: Seq<char>| listed != id
}

proof fn lemma_not_the(ids: Seq<Seq<char>>, id: Seq<char>)
    ensures
        removed(ids, id) == ids.filter(not_the(id)),
{
    lemma_filter_agree(ids, other_than(id), not_the(id));
}

/// The list has these texts.
pub open spec fn says(list: Seq<String>, said: Seq<Seq<char>>) -> bool {
    &&& list.len() == said.len()
    &&& forall|i: int| 0 <= i < said.len() ==> #[trigger] list[i]@ == said[i]
}

proof fn lemma_says(list: Seq<String>)
    ensures
        says(list, texts(list)),
{
    assert(texts(list).len() == list.len());
    assert forall|i: int| 0 <= i < texts(list).len() implies #[trigger] list[i]@ == texts(
        list,
    )[i] by {}
}

/// Taking an id out of the index leaves the others in their order; registering
/// one leaves the others in their order and puts it behind them.
pub proof fn law_index_edits(
    ids: Vec<String>,
    id: String,
    without: Vec<String>,
    with: Vec<String>,
)
    requires
        call_ensures(unregister_account_id, (ids, &id), without),
        call_ensures(register_account_id, (ids, id), with),
    ensures
        says(without@, texts(ids@).filter(not_the(id@))),
        with@.len() == without@.len() + 1,
        with@.last()@ == id@,
        forall|i: int| 0 <= i < without@.len() ==> #[trigger] with@[i]@ == without@[i]@,
{
    lemma_not_the(texts(ids@), id@);
    lemma_says(without@);
    lemma_says(with@);
    assert(texts(with@) == texts(without@).push(id@));
    assert(texts(with@).len() == with@.len());
    assert forall|i: int| 0 <= i < without@.len() implies #[trigger] with@[i]@
        == without@[i]@ by {
        assert(texts(with@)[i] == with@[i]@ && texts(without@)[i] == without@[i]@);
    }
    assert(with@[with@.len() - 1]@ == texts(with@)[with@.len() - 1]);
}

/// An index that was printed reads back as the ids that were printed. A missing
/// index, and one that is no JSON list of strings, lists none.
pub proof fn law_index_reads_back(
    ids: Vec<String>,
    bytes: Vec<u8>,
    text: String,
    back: Vec<String>,
    raw: Option<String>,
    found: Vec<String>,
)
    requires
        call_ensures(print_account_ids, (&ids,), bytes),
        text@ == decode_utf8(bytes@),
        call_ensures(list_account_ids, (Some(text),), back),
        call_ensures(list_account_ids, (raw,), found),
    ensures
        says(back@, texts(ids@)),
        bytes@ == json_pretty_list(texts(ids@)),
        says(found@, ids_of_text(raw)),
{
    lemma_says(back@);
    lemma_says(found@);
}

/// The event is one that the action can have.
pub open spec fn answers<E>(action: FileAction, event: FileEvent<E>) -> bool {
    match action {
        FileAction::Exists(_) => event is Found,
        FileAction::Read(_) => event is Text,
        _ => event is Finished,
    }
}

/// The event is a failure.
pub open spec fn failed<E>(event: FileEvent<E>) -> bool {
    event matches FileEvent::Finished(outcome) && outcome is Err
}

/// The operations are those of a save that ended with `result`, and the events
/// what came of each.
pub open spec fn was_saved<E>(
    id: String,
    data: AccountData,
    now: u64,
    actions: Seq<FileAction>,
    flows: Seq<SaveAccount>,
    events: Seq<FileEvent<E>>,
    result: Result<(), E>,
) -> bool {
    &&& actions.len() > 0
    &&& flows.len() == actions.len()
    &&& events.len() == actions.len()
    &&& forall|i: int| 0 <= i < actions.len() ==> answers(#[trigger] actions[i], events[i])
    &&& call_ensures(save_account, (id, data, now), (actions[0], flows[0]))
    &&& forall|i: int|
        0 <= i < actions.len() - 1 ==> call_ensures(
            SaveAccount::resume::<E>,
            (#[trigger] flows[i], events[i]),
            FileStep::Do(actions[i + 1], flows[i + 1]),
        )
    &&& call_ensures(
        SaveAccount::resume::<E>,
        (flows.last(), events.last()),
        FileStep::Done(result),
    )
}

/// The operation of a save at place `i`, given what came of those before: make
/// the directory of the credentials, write them, make the directory of the
/// store, read the index, write it with the id at its end.
pub open spec fn saves_at<E>(
    i: int,
    id: Seq<char>,
    data: AccountData,
    now: u64,
    action: FileAction,
    events: Seq<FileEvent<E>>,
) -> bool {
    if i == 0 {
        action matches FileAction::CreateDirs(path) && leads_to(
            path,
            seq!["wechat"@, "accounts"@],
        )
    } else if i == 1 {
        action matches FileAction::WriteAccount(path, kept) && leads_to(
            path,
            seq!["wechat"@, "accounts"@, id + ".json"@],
        ) && only_stamped(data, now, kept)
    } else if i == 2 {
        action matches FileAction::CreateDirs(path) && leads_to(path, seq!["wechat"@])
    } else if i == 3 {
        action matches FileAction::Read(path) && leads_to(path, seq!["wechat"@, "accounts.json"@])
    } else {
        &&& i == 4
        &&& action matches FileAction::Write(path, bytes)
        &&& leads_to(path, seq!["wechat"@, "accounts.json"@])
        &&& bytes@ == json_pretty_list(
            ids_of_text(events[3]->Text_0).filter(not_the(id)).push(id),
        )
    }
}

proof fn lemma_save_stage<E>(
    id: String,
    data: AccountData,
    now: u64,
    actions: Seq<FileAction>,
    flows: Seq<SaveAccount>,
    events: Seq<FileEvent<E>>,
    result: Result<(), E>,
    n: int,
)
    requires
        was_saved(id, data, now, actions, flows, events, result),
        0 <= n < actions.len(),
    ensures
        n <= 4,
        flows[n].account_id == id,
        n == 0 ==> flows[n].stage is MakingAccountsDir && only_stamped(
            data,
            now,
            flows[n].stage->MakingAccountsDir_0,
        ),
        n == 1 ==> flows[n].stage is WritingAccount,
        n == 2 ==> flows[n].stage is MakingWechatDir,
        n == 3 ==> flows[n].stage is ReadingIndex,
        n == 4 ==> flows[n].stage is WritingIndex,
        saves_at(n, id@, data, now, actions[n], events),
        n > 0 ==> !failed(events[n - 1]),
    decreases n,
{
    if n == 0 {
        if let FileAction::CreateDirs(path) = actions[0] {
            assert(path@ =~= seq!["wechat"@, "accounts"@]);
            lemma_leads_to(path, path@);
        }
    } else {
        lemma_save_stage(id, data, now, actions, flows, events, result, n - 1);
        let event = events[n - 1];
        assert(answers(actions[n - 1], event));
        assert(call_ensures(
            SaveAccount::resume::<E>,
            (flows[n - 1], events[n - 1]),
            FileStep::Do(actions[n - 1 + 1], flows[n - 1 + 1]),
        ));
        match actions[n] {
            FileAction::CreateDirs(path) => {
                assert(path@ =~= seq!["wechat"@]);
                lemma_leads_to(path, path@);
            },
            FileAction::WriteAccount(path, _) => {
                assert(path@ =~= seq!["wechat"@, "accounts"@, id@ + ".json"@]);
                lemma_leads_to(path, path@);
            },
            FileAction::Read(path) => {
                assert(path@ =~= seq!["wechat"@, "accounts.json"@]);
                lemma_leads_to(path, path@);
            },
            FileAction::Write(path, _) => {
                assert(path@ =~= seq!["wechat"@, "accounts.json"@]);
                lemma_leads_to(path, path@);
                lemma_not_the(ids_of_text(event->Text_0), id@);
            },
            _ => {},
        }
    }
}

/// A save goes through its five operations in order, and writes the credentials
/// that were given, under the account's own file, before it puts the id at the
/// end of the index. It succeeds exactly where none of them fails, and otherwise
/// ends at the first failure, with that.
pub proof fn law_save_goes_through<E>(
    id: String,
    data: AccountData,
    now: u64,
    actions: Seq<FileAction>,
    flows: Seq<SaveAccount>,
    events: Seq<FileEvent<E>>,
    result: Result<(), E>,
)
    requires
        was_saved(id, data, now, actions, flows, events, result),
    ensures
        forall|i: int|
            0 <= i < actions.len() ==> #[trigger] saves_at(
                i,
                id@,
                data,
                now,
                actions[i],
                events,
            ),
        result is Ok ==> actions.len() == 5 && forall|i: int|
            0 <= i < events.len() ==> !failed(#[trigger] events[i]),
        result matches Err(e) ==> events.last() == FileEvent::<E>::Finished(Err(e)) && forall|
            i: int,
        |
            0 <= i < events.len() - 1 ==> !failed(#[trigger] events[i]),
{
    let last = actions.len() - 1;
    assert forall|i: int| 0 <= i < actions.len() implies #[trigger] saves_at(
        i,
        id@,
        data,
        now,
        actions[i],
        events,
    ) by {
        lemma_save_stage(id, data, now, actions, flows, events, result, i);
    }
    assert forall|i: int| 0 <= i < events.len() - 1 implies !failed(#[trigger] events[i]) by {
        lemma_save_stage(id, data, now, actions, flows, events, result, i + 1);
    }
    lemma_save_stage(id, data, now, actions, flows, events, result, last);
    assert(answers(actions[last], events[last]));
    assert(flows[last] == flows.last() && events[last] == events.last());
}

/// The operations are those of a deletion that ended with `result`, and the
/// events what came of each.
pub open spec fn was_deleted<E>(
    account_id: &str,
    actions: Seq<FileAction>,
    flows: Seq<DeleteAccount>,
    events: Seq<FileEvent<E>>,
    result: Result<(), E>,
) -> bool {
    &&& actions.len() > 0
    &&& flows.len() == actions.len()
    &&& events.len() == actions.len()
    &&& forall|i: int| 0 <= i < actions.len() ==> answers(#[trigger] actions[i], events[i])
    &&& call_ensures(delete_account, (account_id,), (actions[0], flows[0]))
    &&& forall|i: int|
        0 <= i < actions.len() - 1 ==> call_ensures(
            DeleteAccount::resume::<E>,
            (#[trigger] flows[i], events[i]),
            FileStep::Do(actions[i + 1], flows[i + 1]),
        )
    &&& call_ensures(
        DeleteAccount::resume::<E>,
        (flows.last(), events.last()),
        FileStep::Done(result),
    )
}

/// The place at which a deletion reads the index: after the removal of the
/// account's file, where there is one to remove.
pub open spec fn index_place<E>(events: Seq<FileEvent<E>>) -> int {
    if events[0] == FileEvent::<E>::Found(true) {
        2
    } else {
        1
    }
}

/// The index that a deletion read lists the id.
pub open spec fn was_listed<E>(id: Seq<char>, events: Seq<FileEvent<E>>) -> bool {
    ids_of_text(events[index_place(events)]->Text_0).contains(id)
}

/// The operation of a deletion at place `i`, given what came of those before:
/// look for the account's file, remove it where it is there, read the index,
/// write it without the id where it is listed, remove the cursor.
pub open spec fn deletes_at<E>(
    i: int,
    id: Seq<char>,
    action: FileAction,
    events: Seq<FileEvent<E>>,
) -> bool {
    let place = index_place(events);
    if i == 0 {
        action matches FileAction::Exists(path) && leads_to(
            path,
            seq!["wechat"@, "accounts"@, id + ".json"@],
        )
    } else if i < place {
        action matches FileAction::Remove(path) && leads_to(
            path,
            seq!["wechat"@, "accounts"@, id + ".json"@],
        )
    } else if i == place {
        action matches FileAction::Read(path) && leads_to(path, seq!["wechat"@, "accounts.json"@])
    } else if i == place + 1 && was_listed(id, events) {
        &&& action matches FileAction::Write(path, bytes)
        &&& leads_to(path, seq!["wechat"@, "accounts.json"@])
        &&& bytes@ == json_pretty_list(
            ids_of_text(events[place]->Text_0).filter(not_the(id)),
        )
    } else {
        &&& i == place + if was_listed(id, events) {
            2int
        } else {
            1int
        }
        &&& action matches FileAction::Remove(path)
        &&& leads_to(path, seq!["wechat"@, "sync_buf"@, id])
    }
}

/// The stage of a deletion at place `i`.
spec fn stage_at<E>(i: int, id: Seq<char>, events: Seq<FileEvent<E>>) -> DeleteStage {
    let place = index_place(events);
    if i == 0 {
        DeleteStage::LookingForFile
    } else if i < place {
        DeleteStage::RemovingFile
    } else if i == place {
        DeleteStage::ReadingIndex
    } else if i == place + 1 && was_listed(id, events) {
        DeleteStage::WritingIndex
    } else {
        DeleteStage::RemovingCursor
    }
}

proof fn lemma_delete_stage<E>(
    account_id: &str,
    id: String,
    actions: Seq<FileAction>,
    flows: Seq<DeleteAccount>,
    events: Seq<FileEvent<E>>,
    result: Result<(), E>,
    n: int,
)
    requires
        was_deleted(account_id, actions, flows, events, result),
        id@ == normalized(account_id@),
        0 <= n < actions.len(),
    ensures
        flows[n].account_id@ == id@,
        flows[n].stage == stage_at(n, id@, events),
        deletes_at(n, id@, actions[n], events),
        n > 0 ==> !failed(events[n - 1]),
    decreases n,
{
    let acc = seq!["wechat"@, "accounts"@, id@ + ".json"@];
    let idx = seq!["wechat"@, "accounts.json"@];
    let cur = seq!["wechat"@, "sync_buf"@, id@];
    assert(crate::wechat::paths::account_parts(id@) =~= acc);
    assert(crate::wechat::paths::index_parts() =~= idx);
    assert(crate::wechat::paths::sync_buf_parts(id@) =~= cur);
    if n == 0 {
        if let FileAction::Exists(path) = actions[0] {
            lemma_leads_to(path, path@);
        }
    } else {
        lemma_delete_stage(account_id, id, actions, flows, events, result, n - 1);
        let event = events[n - 1];
        assert(answers(actions[n - 1], event));
        assert(call_ensures(
            DeleteAccount::resume::<E>,
            (flows[n - 1], events[n - 1]),
            FileStep::Do(actions[n - 1 + 1], flows[n - 1 + 1]),
        ));
        match actions[n] {
            FileAction::Remove(path) => {
                lemma_leads_to(path, path@);
            },
            FileAction::Read(path) => {
                lemma_leads_to(path, path@);
            },
            FileAction::Write(path, _) => {
                lemma_leads_to(path, path@);
                lemma_not_the(ids_of_text(event->Text_0), id@);
            },
            _ => {},
        }
    }
}

/// A deletion goes through its operations in order, on the files of the
/// normalised id: the account's file goes where it is there, the index is
/// written without the id where it lists it, and the cursor goes last. Only a
/// failure to remove the file or to write the index ends it, with that; a cursor
/// that stays does not matter.
pub proof fn law_delete_goes_through<E>(
    account_id: &str,
    id: String,
    actions: Seq<FileAction>,
    flows: Seq<DeleteAccount>,
    events: Seq<FileEvent<E>>,
    result: Result<(), E>,
)
    requires
        call_ensures(normalize_account_id, (account_id,), id),
        was_deleted(account_id, actions, flows, events, result),
    ensures
        forall|i: int|
            0 <= i < actions.len() ==> #[trigger] deletes_at(i, id@, actions[i], events),
        forall|i: int| 0 <= i < events.len() - 1 ==> !failed(#[trigger] events[i]),
        result is Ok ==> actions.len() == index_place(events) + if was_listed(id@, events) {
            3int
        } else {
            2int
        },
        result matches Err(e) ==> {
            &&& events.last() == FileEvent::<E>::Finished(Err(e))
            &&& actions.len() < index_place(events) + if was_listed(id@, events) {
                3int
            } else {
                2int
            }
        },
{
    let last = actions.len() - 1;
    assert forall|i: int| 0 <= i < actions.len() implies #[trigger] deletes_at(
        i,
        id@,
        actions[i],
        events,
    ) by {
        lemma_delete_stage(account_id, id, actions, flows, events, result, i);
    }
    assert forall|i: int| 0 <= i < events.len() - 1 implies !failed(#[trigger] events[i]) by {
        lemma_delete_stage(account_id, id, actions, flows, events, result, i + 1);
    }
    lemma_delete_stage(account_id, id, actions, flows, events, result, last);
    assert(answers(actions[last], events[last]));
    assert(flows[last] == flows.last() && events[last] == events.last());
}

/// A cursor is written as it is, under the account's own file, once the
/// directory for it is there. It is read as it was written, and is empty where
/// nothing could be read.
pub proof fn law_cursor_is_kept_as_it_is(
    id: &str,
    buf: &str,
    steps: (FileAction, FileAction),
    read: Option<String>,
    loaded: String,
)
    requires
        call_ensures(save_sync_buf, (id, buf), steps),
        call_ensures(load_sync_buf, (read,), loaded),
    ensures
        steps.0 matches FileAction::CreateParent(path) && leads_to(
            path,
            seq!["wechat"@, "sync_buf"@, id@],
        ),
        steps.1 matches FileAction::WriteCursor(path, text) && leads_to(
            path,
            seq!["wechat"@, "sync_buf"@, id@],
        ) && text@ == buf@,
        read is Some ==> loaded@ == read->0@,
        read is None ==> loaded@.len() == 0,
{
    let cur = seq!["wechat"@, "sync_buf"@, id@];
    assert(crate::wechat::paths::sync_buf_parts(id@) =~= cur);
    if let FileAction::CreateParent(path) = steps.0 {
        lemma_leads_to(path, path@);
    }
    if let FileAction::WriteCursor(path, _) = steps.1 {
        lemma_leads_to(path, path@);
    }
}

/// What is said of an optional text.
pub open spec fn text_or_dash(text: Option<String>) -> Seq<char> {
    if text is Some {
        text->0@
    } else {
        "-"@
    }
}

/// A listing shows a line for each account, in order, with its mark, id, user and
/// server; without accounts it says so, and how to get one.
pub proof fn law_listing_shows_each_account(accounts: &Vec<StoredAccount>, lines: Vec<String>)
    requires
        call_ensures(list_report, (accounts,), lines),
    ensures
        accounts@.len() == 0 ==> says(
            lines@,
            seq!["No WeChat accounts saved."@, "Run `zeroclaw channel wechat login` to add one."@],
        ),
        accounts@.len() > 0 ==> {
            &&& lines@.len() == accounts@.len() + 1
            &&& lines@[0]@ == "Saved WeChat accounts:"@
            &&& forall|i: int|
                0 <= i < accounts@.len() ==> lines@[i + 1]@ == "  "@ + (
                if (#[trigger] accounts@[i]).has_token {
                    "✅"@
                } else {
                    "❌"@
                }) + " "@ + accounts@[i].account_id@ + "  user="@ + text_or_dash(
                    accounts@[i].user_id,
                ) + "  base_url="@ + text_or_dash(accounts@[i].base_url)
        },
{
    lemma_says(lines@);
    if accounts@.len() > 0 {
        assert(texts(lines@).len() == accounts@.len() + 1);
        assert(lines@[0]@ == texts(lines@)[0]);
        assert forall|i: int| 0 <= i < accounts@.len() implies lines@[i + 1]@ == "  "@ + (
        if (#[trigger] accounts@[i]).has_token {
            "✅"@
        } else {
            "❌"@
        }) + " "@ + accounts@[i].account_id@ + "  user="@ + text_or_dash(accounts@[i].user_id)
            + "  base_url="@ + text_or_dash(accounts@[i].base_url) by {
            assert(lines@[i + 1]@ == texts(lines@)[i + 1]);
        }
    }
}

/// The other reports name the account, and say what was done or is to be done.
pub proof fn law_reports_name_the_account(
    id: &str,
    login: Vec<String>,
    deletion: Vec<String>,
    unavailable: String,
)
    requires
        call_ensures(login_report, (id,), login),
        call_ensures(delete_report, (id,), deletion),
        call_ensures(unavailable_message, (), unavailable),
    ensures
        says(
            login@,
            seq![
                "✅ WeChat login successful: account_id = "@ + id@,
                "Now configure ZeroClaw with:\n  zeroclaw config set channels.wechat.account_id "@
                    + id@ + "\n  zeroclaw config set channels.wechat.enabled true"@,
            ],
        ),
        says(deletion@, seq!["✅ Deleted WeChat account: "@ + id@]),
        unavailable@
            == "WeChat channel support is not built into this binary. Rebuild with `--features channel-wechat`."@,
{
    lemma_says(login@);
    lemma_says(deletion@);
}

} // verus!
