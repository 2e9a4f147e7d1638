//! What holds of the account store as a whole.

use vstd::prelude::*;
use vstd::utf8::is_ascii_chars;

use crate::text::{ascii_lower, ascii_lowercase, is_white_space, lemma_trimmed_ends, lowercase, trimmed};
use crate::wechat::accounts::{
    cursor, dashed, dashed_char, listed, normalized, resolves, stamped, AccountData,
};
use crate::wechat::flows::{
    delete_next, save_next, DeleteStage, FileOp, FileOutcome, Next, SaveStage,
};
use crate::wechat::index::{index_ids, law_registered, law_removed, registered, removed};
use crate::wechat::paths::{
    account_parts, accounts_parts, index_parts, is_file_name, law_files_are_told_apart,
    no_separator, sync_buf_parts, wechat_parts,
};

verus! {

/// A normalised id is filesystem-safe: it holds no `@`, no `.` and no path
/// separator, so the account's file, and for an id that is not empty its
/// cursor, is one entry directly in its directory.
pub proof fn law_normalized_is_filesystem_safe(raw: Seq<char>)
    ensures
        !normalized(raw).contains('@'),
        !normalized(raw).contains('.'),
        no_separator(normalized(raw)),
        account_parts(normalized(raw)) == accounts_parts().push(normalized(raw) + ".json"@),
        is_file_name(normalized(raw) + ".json"@),
        normalized(raw).len() > 0 ==> is_file_name(normalized(raw)),
{
    let id = normalized(raw);
    let lower = lowercase(trimmed(raw));
    assert forall|i: int| 0 <= i < id.len() implies id[i] != '@' && id[i] != '.' && id[i] != '/'
        && id[i] != '\\' by {
        assert(id[i] == dashed_char(lower[i]));
    }
    reveal_strlit(".");
    reveal_strlit("..");
    reveal_strlit(".json");
    let file = id + ".json"@;
    assert forall|i: int| 0 <= i < file.len() implies file[i] != '/' && file[i] != '\\' by {
        if i < id.len() {
            assert(file[i] == id[i]);
        } else {
            assert(file[i] == ".json"@[i - id.len()]);
        }
    }
    assert(file.len() > 2);
    if id.len() > 0 {
        assert(id[0] != '.');
    }
}

/// Normalising an id that is normalised already changes nothing. This is
/// stated of ASCII ids, where the lower case is given letter by letter, and of
/// any other id whose normal form has nothing to trim and is its own lower case.
pub proof fn law_normalizing_twice_is_normalizing_once(raw: Seq<char>)
    requires
        is_ascii_chars(raw) || (trimmed(normalized(raw)) == normalized(raw) && lowercase(
            normalized(raw),
        ) == normalized(raw)),
    ensures
        normalized(normalized(raw)) == normalized(raw),
{
    let t = trimmed(raw);
    let d = normalized(raw);
    let lower = lowercase(t);
    assert forall|i: int| 0 <= i < d.len() implies dashed_char(#[trigger] d[i]) == d[i] by {
        assert(d[i] == dashed_char(lower[i]));
    }
    assert(dashed(d) =~= d);
    if is_ascii_chars(raw) {
        lemma_trimmed_ends(raw);
        assert(d =~= dashed(ascii_lowercase(t)));
        assert forall|i: int| 0 <= i < t.len() implies {
            &&& d[i] == dashed_char(ascii_lower(t[i]))
            &&& ascii_lower(#[trigger] d[i]) == d[i]
            &&& is_white_space(d[i]) == is_white_space(t[i])
            &&& (d[i] as u32) < 128
        } by {
            assert(ascii_lowercase(t)[i] == ascii_lower(t[i]));
            assert((t[i] as u32) < 128);
        }
        assert(trimmed(d) == d) by {
            if d.len() > 0 {
                assert(d[0] == d.first() && d[d.len() - 1] == d.last());
            }
        }
        assert(is_ascii_chars(d));
        assert(ascii_lowercase(d) =~= d);
    }
}

/// An account is listed exactly when its credentials could be read, and listed
/// with a token exactly when resolving it succeeds.
pub proof fn law_listed_token_is_usable(record: (String, Option<AccountData>))
    ensures
        listed(record) is Some <==> record.1 is Some,
        listed(record) matches Some(account) ==> account.account_id == record.0
            && account.has_token == resolves(record.1),
{
}

/// What a file of the account store holds.
#[verifier::ext_equal]
pub enum Content {
    /// An index, by the ids that a reader finds in it.
    Index(Seq<Seq<char>>),
    /// The credentials of an account.
    Account(AccountData),
    /// The text of a cursor.
    Cursor(Seq<char>),
    /// Anything else.
    Other,
}

/// The files of the account store by their parts. Paths with different parts
/// are different files here; a file system tells them apart where each part
/// names one entry of its directory.
pub type Files = Map<Seq<Seq<char>>, Content>;

/// The account ids that a reader finds in a file. Credentials are no list of
/// ids.
pub open spec fn ids_at(files: Files, path: Seq<Seq<char>>) -> Seq<Seq<char>> {
    if files.contains_key(path) {
        match files[path] {
            Content::Index(ids) => ids,
            Content::Cursor(text) => index_ids(Some(text)),
            _ => Seq::empty(),
        }
    } else {
        Seq::empty()
    }
}

/// The credentials that a reader finds in a file.
pub open spec fn account_at(files: Files, path: Seq<Seq<char>>) -> Option<AccountData> {
    if files.contains_key(path) {
        match files[path] {
            Content::Account(data) => Some(data),
            _ => None,
        }
    } else {
        None
    }
}

/// The text that a reader finds in the file of a cursor.
pub open spec fn cursor_text_at(files: Files, path: Seq<Seq<char>>) -> Option<Seq<char>> {
    if files.contains_key(path) {
        match files[path] {
            Content::Cursor(text) => Some(text),
            _ => None,
        }
    } else {
        None
    }
}

/// The account ids that the index lists.
pub open spec fn ids_in(files: Files) -> Seq<Seq<char>> {
    ids_at(files, index_parts())
}

/// How a file system behaves. An operation with a fault fails with it; a faulty
/// look at a file finds nothing, and a faulty change leaves its own file in any
/// state, and no other.
pub struct Disk<E> {
    /// The error of removing a file that is not there.
    pub missing: E,
    pub fault: spec_fn(FileOp) -> Option<E>,
    /// What a faulty change leaves in its file.
    pub spoilt: spec_fn(FileOp) -> Option<Content>,
}

impl<E> Disk<E> {
    /// Nothing fails but the removal of a file that is not there.
    pub open spec fn sound(self) -> bool {
        forall|op: FileOp| #[trigger] (self.fault)(op) is None
    }

    /// The files after an operation.
    pub open spec fn after(self, files: Files, op: FileOp) -> Files {
        let spoil = |path: Seq<Seq<char>>|
            match (self.spoilt)(op) {
                None => files.remove(path),
                Some(content) => files.insert(path, content),
            };
        let faulty = (self.fault)(op) is Some;
        match op {
            FileOp::Remove(path) => if faulty {
                spoil(path)
            } else {
                files.remove(path)
            },
            FileOp::WriteIndex(path, ids) => if faulty {
                spoil(path)
            } else {
                files.insert(path, Content::Index(ids))
            },
            FileOp::WriteAccount(path, data) => if faulty {
                spoil(path)
            } else {
                files.insert(path, Content::Account(data))
            },
            FileOp::WriteCursor(path, text) => if faulty {
                spoil(path)
            } else {
                files.insert(path, Content::Cursor(text))
            },
            _ => files,
        }
    }

    /// What comes of an operation.
    pub open spec fn outcome(self, files: Files, op: FileOp) -> FileOutcome<E> {
        match (op, (self.fault)(op)) {
            (FileOp::Exists(_), Some(_)) => FileOutcome::Found(false),
            (FileOp::Exists(path), None) => FileOutcome::Found(files.contains_key(path)),
            (FileOp::Read(_), Some(_)) => FileOutcome::Listed(Seq::empty()),
            (FileOp::Read(path), None) => FileOutcome::Listed(ids_at(files, path)),
            (_, Some(e)) => FileOutcome::Finished(Err(e)),
            (FileOp::Remove(path), None) => FileOutcome::Finished(
                if files.contains_key(path) {
                    Ok(())
                } else {
                    Err(self.missing)
                },
            ),
            (_, None) => FileOutcome::Finished(Ok(())),
        }
    }
}

/// What a save leaves and reports.
pub open spec fn save_run<E>(
    id: Seq<char>,
    next: Next<SaveStage, E>,
    files: Files,
    disk: Disk<E>,
) -> (Files, Result<(), E>)
    decreases (match next {
        Next::Do(_, stage) => stage.left(),
        Next::Done(_) => 0,
    }),
{
    match next {
        Next::Done(result) => (files, result),
        Next::Do(op, stage) => save_run(
            id,
            save_next(id, stage, disk.outcome(files, op)),
            disk.after(files, op),
            disk,
        ),
    }
}

/// What the save of account `id` at the time `now` leaves and reports.
pub open spec fn saved<E>(
    files: Files,
    id: Seq<char>,
    data: AccountData,
    now: u64,
    disk: Disk<E>,
) -> (Files, Result<(), E>) {
    save_run(
        id,
        Next::Do(
            FileOp::CreateDirs(accounts_parts()),
            SaveStage::MakingAccountsDir(stamped(data, now)),
        ),
        files,
        disk,
    )
}

/// What a deletion leaves and reports.
pub open spec fn delete_run<E>(
    id: Seq<char>,
    next: Next<DeleteStage, E>,
    files: Files,
    disk: Disk<E>,
) -> (Files, Result<(), E>)
    decreases (match next {
        Next::Do(_, stage) => stage.left(),
        Next::Done(_) => 0,
    }),
{
    match next {
        Next::Done(result) => (files, result),
        Next::Do(op, stage) => delete_run(
            id,
            delete_next(id, stage, disk.outcome(files, op)),
            disk.after(files, op),
            disk,
        ),
    }
}

/// What the deletion of an account leaves and reports.
pub open spec fn deleted<E>(files: Files, account_id: Seq<char>, disk: Disk<E>) -> (
    Files,
    Result<(), E>,
) {
    let id = normalized(account_id);
    delete_run(
        id,
        Next::Do(FileOp::Exists(account_parts(id)), DeleteStage::LookingForFile),
        files,
        disk,
    )
}

/// The file is the same before and after.
pub open spec fn same_file(before: Files, after: Files, path: Seq<Seq<char>>) -> bool {
    &&& before.contains_key(path) <==> after.contains_key(path)
    &&& before.contains_key(path) ==> before[path] == after[path]
}

/// The account ids that a flow is told the index lists. An index that cannot be
/// read lists none.
pub open spec fn ids_read<E>(files: Files, disk: Disk<E>) -> Seq<Seq<char>> {
    if (disk.fault)(FileOp::Read(index_parts())) is Some {
        Seq::empty()
    } else {
        ids_in(files)
    }
}

/// A save that reports success has left the credentials in the account's file
/// and the id at the end of the index; every other file stays as it was. Reading
/// the account gives the credentials back, with the time of the save where they
/// named none. Where nothing fails, a save succeeds.
pub proof fn law_save_keeps_the_account<E>(
    files: Files,
    id: Seq<char>,
    data: AccountData,
    now: u64,
    disk: Disk<E>,
)
    requires
        no_separator(id),
    ensures
        ({
            let done = saved(files, id, data, now, disk);
            &&& disk.sound() ==> done.1 == Ok::<(), E>(())
            &&& done.1 is Ok ==> {
                &&& done.0 == files.insert(
                    account_parts(id),
                    Content::Account(stamped(data, now)),
                ).insert(index_parts(), Content::Index(registered(ids_read(files, disk), id)))
                &&& account_at(done.0, account_parts(id)) == Some(stamped(data, now))
                &&& account_at(done.0, account_parts(id)) matches Some(kept) && {
                    &&& kept.token == data.token
                    &&& kept.base_url == data.base_url
                    &&& kept.user_id == data.user_id
                    &&& data.saved_at is Some ==> kept.saved_at == data.saved_at
                    &&& data.saved_at is None ==> kept.saved_at == Some(now)
                }
                &&& ids_in(done.0) == registered(ids_read(files, disk), id)
                &&& (disk.fault)(FileOp::Read(index_parts())) is None ==> ids_in(done.0)
                    == registered(ids_in(files), id)
            }
            &&& forall|path: Seq<Seq<char>>|
                path != account_parts(id) && path != index_parts() ==> #[trigger] same_file(
                    files,
                    done.0,
                    path,
                )
        }),
{
    law_files_are_told_apart(id, id);
    reveal_with_fuel(save_run, 6);
}

/// A deletion that reports success, and could look for the account's file and
/// read the index, has left neither the file nor the id in the index, and no
/// cursor unless that could not be removed; every other file, and every other
/// id, stays as it was. Where nothing fails, a deletion succeeds.
pub proof fn law_delete_removes_the_account<E>(files: Files, account_id: Seq<char>, disk: Disk<E>)
    ensures
        ({
            let id = normalized(account_id);
            let done = deleted(files, account_id, disk);
            &&& disk.sound() ==> done.1 == Ok::<(), E>(())
            &&& done.1 is Ok && (disk.fault)(FileOp::Exists(account_parts(id))) is None ==> {
                &&& !done.0.contains_key(account_parts(id))
                &&& account_at(done.0, account_parts(id)) is None
            }
            &&& done.1 is Ok && (disk.fault)(FileOp::Read(index_parts())) is None ==> {
                &&& ids_in(done.0) == removed(ids_in(files), id)
                &&& !ids_in(done.0).contains(id)
            }
            &&& done.1 is Ok && (disk.fault)(FileOp::Remove(sync_buf_parts(id))) is None
                ==> !done.0.contains_key(sync_buf_parts(id))
            &&& forall|path: Seq<Seq<char>>|
                path != account_parts(id) && path != sync_buf_parts(id) && path != index_parts()
                    ==> #[trigger] same_file(files, done.0, path)
        }),
{
    let id = normalized(account_id);
    law_files_are_told_apart(id, id);
    law_removed(ids_in(files), id);
    reveal_with_fuel(delete_run, 6);
}

/// After a deletion that reports success, deleting the account again succeeds
/// and changes nothing.
pub proof fn law_deleting_twice_is_deleting_once<E>(
    files: Files,
    account_id: Seq<char>,
    disk: Disk<E>,
)
    requires
        deleted(files, account_id, disk).1 is Ok,
    ensures
        ({
            let once = deleted(files, account_id, disk).0;
            deleted(once, account_id, disk) == (once, Ok::<(), E>(()))
        }),
{
    let id = normalized(account_id);
    let once = deleted(files, account_id, disk).0;
    law_delete_removes_the_account(files, account_id, disk);
    law_files_are_told_apart(id, id);
    reveal_with_fuel(delete_run, 6);
    assert(disk.after(once, FileOp::Remove(sync_buf_parts(id))) =~= once);
}

/// Saving an account again keeps the index as it is and replaces the
/// credentials: of two saves that report success the first leaves no trace.
pub proof fn law_saving_again_replaces_the_credentials<E>(
    files: Files,
    id: Seq<char>,
    first: AccountData,
    second: AccountData,
    now: u64,
    later: u64,
    disk: Disk<E>,
)
    requires
        no_separator(id),
        saved(files, id, first, now, disk).1 is Ok,
        saved(files, id, second, later, disk).1 is Ok,
    ensures
        ({
            let once = saved(files, id, first, now, disk).0;
            saved(once, id, second, later, disk) == saved(files, id, second, later, disk)
        }),
{
    let once = saved(files, id, first, now, disk).0;
    law_save_keeps_the_account(files, id, first, now, disk);
    law_save_keeps_the_account(once, id, second, later, disk);
    law_save_keeps_the_account(files, id, second, later, disk);
    law_failed_save_leaves_the_index(once, id, second, later, disk);
    law_failed_save_leaves_the_index(files, id, second, later, disk);
    law_registered(ids_in(files), id);
    law_files_are_told_apart(id, id);
    assert(saved(once, id, second, later, disk).0 =~= saved(files, id, second, later, disk).0);
}

/// A deletion undoes a save under a normalised id, where both report success and
/// the deletion could look for the file and read the index: the index lists what
/// it would list without the save, and no other account's files were touched.
pub proof fn law_delete_undoes_save<E>(
    files: Files,
    id: Seq<char>,
    data: AccountData,
    now: u64,
    disk: Disk<E>,
)
    requires
        normalized(id) == id,
        saved(files, id, data, now, disk).1 is Ok,
        deleted(saved(files, id, data, now, disk).0, id, disk).1 is Ok,
        (disk.fault)(FileOp::Exists(account_parts(id))) is None,
        (disk.fault)(FileOp::Read(index_parts())) is None,
    ensures
        ({
            let kept = saved(files, id, data, now, disk).0;
            let done = deleted(kept, id, disk).0;
            &&& ids_in(done) == removed(ids_in(files), id)
            &&& !ids_in(files).contains(id) ==> ids_in(done) == ids_in(files)
            &&& !done.contains_key(account_parts(id))
            &&& forall|path: Seq<Seq<char>>|
                path != account_parts(id) && path != sync_buf_parts(id) && path != index_parts()
                    ==> #[trigger] same_file(files, done, path)
        }),
{
    let kept = saved(files, id, data, now, disk).0;
    law_normalized_is_filesystem_safe(id);
    law_save_keeps_the_account(files, id, data, now, disk);
    law_delete_removes_the_account(kept, id, disk);
    law_registered(ids_in(files), id);
    law_removed(ids_in(files), id);
    let done = deleted(kept, id, disk).0;
    assert forall|path: Seq<Seq<char>>|
        path != account_parts(id) && path != sync_buf_parts(id) && path
            != index_parts() implies #[trigger] same_file(files, done, path) by {
        assert(same_file(files, kept, path));
        assert(same_file(kept, done, path));
    }
}

/// Whatever fails, a save touches the account's file and the index alone. It
/// succeeds exactly where each of its changes does; otherwise it ends with the
/// first fault. The index is reached last: where an earlier change fails it
/// stays as it was, so it never gains an id whose credentials were not written.
pub proof fn law_failed_save_leaves_the_index<E>(
    files: Files,
    id: Seq<char>,
    data: AccountData,
    now: u64,
    disk: Disk<E>,
)
    requires
        no_separator(id),
    ensures
        ({
            let done = saved(files, id, data, now, disk);
            let before = ids_read(files, disk);
            let in_accounts = (disk.fault)(FileOp::CreateDirs(accounts_parts()));
            let in_account = (disk.fault)(
                FileOp::WriteAccount(account_parts(id), stamped(data, now)),
            );
            let in_wechat = (disk.fault)(FileOp::CreateDirs(wechat_parts()));
            let in_index = (disk.fault)(FileOp::WriteIndex(index_parts(), registered(before, id)));
            &&& done.1 == if in_accounts is Some {
                Err::<(), E>(in_accounts->0)
            } else if in_account is Some {
                Err(in_account->0)
            } else if in_wechat is Some {
                Err(in_wechat->0)
            } else if in_index is Some {
                Err(in_index->0)
            } else {
                Ok(())
            }
            &&& in_accounts is Some || in_account is Some || in_wechat is Some ==> same_file(
                files,
                done.0,
                index_parts(),
            )
            &&& forall|path: Seq<Seq<char>>|
                path != account_parts(id) && path != index_parts() ==> #[trigger] same_file(
                    files,
                    done.0,
                    path,
                )
        }),
{
    law_files_are_told_apart(id, id);
    reveal_with_fuel(save_run, 6);
}

/// Whatever fails, a deletion touches the account's file, its cursor and the
/// index alone. Where the file cannot be removed the deletion ends with that
/// fault, and the account stays in the index. A cursor that cannot be removed
/// does not matter.
pub proof fn law_failed_delete_keeps_the_account_listed<E>(
    files: Files,
    account_id: Seq<char>,
    disk: Disk<E>,
)
    ensures
        ({
            let id = normalized(account_id);
            let done = deleted(files, account_id, disk);
            let there = (disk.fault)(FileOp::Exists(account_parts(id))) is None
                && files.contains_key(account_parts(id));
            let before = ids_read(files, disk);
            let in_account = (disk.fault)(FileOp::Remove(account_parts(id)));
            let in_index = (disk.fault)(FileOp::WriteIndex(index_parts(), removed(before, id)));
            &&& done.1 == if there && in_account is Some {
                Err::<(), E>(in_account->0)
            } else if before.contains(id) && in_index is Some {
                Err(in_index->0)
            } else {
                Ok(())
            }
            &&& there && in_account is Some ==> same_file(files, done.0, index_parts())
            &&& !before.contains(id) ==> same_file(files, done.0, index_parts())
            &&& forall|path: Seq<Seq<char>>|
                path != account_parts(id) && path != sync_buf_parts(id) && path != index_parts()
                    ==> #[trigger] same_file(files, done.0, path)
        }),
{
    law_files_are_told_apart(normalized(account_id), normalized(account_id));
    reveal_with_fuel(delete_run, 6);
}

/// What the save of a cursor leaves.
pub open spec fn cursor_saved<E>(
    files: Files,
    id: Seq<char>,
    buf: Seq<char>,
    disk: Disk<E>,
) -> Files {
    let path = sync_buf_parts(id);
    disk.after(disk.after(files, FileOp::CreateParent(path)), FileOp::WriteCursor(path, buf))
}

/// The cursor of an account.
pub open spec fn cursor_of(files: Files, id: Seq<char>) -> Seq<char> {
    cursor(cursor_text_at(files, sync_buf_parts(id)))
}

/// Where the write goes through, the last saved cursor is read back, in place of
/// any older one. Whatever fails, every other file stays as it was, the cursors
/// of other accounts among them. An account without a cursor reads as empty.
pub proof fn law_last_cursor_is_read_back<E>(
    files: Files,
    id: Seq<char>,
    other: Seq<char>,
    older: Seq<char>,
    buf: Seq<char>,
    disk: Disk<E>,
)
    requires
        is_file_name(id),
        is_file_name(other),
    ensures
        (disk.fault)(FileOp::WriteCursor(sync_buf_parts(id), buf)) is None ==> {
            let done = cursor_saved(files, id, buf, disk);
            &&& cursor_of(done, id) == buf
            &&& cursor_saved(cursor_saved(files, id, older, disk), id, buf, disk) == done
        },
        other != id ==> cursor_of(cursor_saved(files, id, buf, disk), other) == cursor_of(
            files,
            other,
        ),
        forall|path: Seq<Seq<char>>|
            path != sync_buf_parts(id) ==> #[trigger] same_file(
                files,
                cursor_saved(files, id, buf, disk),
                path,
            ),
        !files.contains_key(sync_buf_parts(id)) ==> cursor_of(files, id) == Seq::<char>::empty(),
{
    law_files_are_told_apart(id, other);
    let path = sync_buf_parts(id);
    if (disk.fault)(FileOp::WriteCursor(path, buf)) is None {
        assert(cursor_saved(cursor_saved(files, id, older, disk), id, buf, disk)
            =~= cursor_saved(files, id, buf, disk));
    }
}

} // verus!
