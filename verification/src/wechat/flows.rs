//! Saving and deleting an account, and saving its cursor, one file operation at a
//! time.
//!
//! A flow hands out the next [`FileAction`] and is resumed with what came of
//! it. Errors of the file system, of type `E`, end a flow, but for those that
//! it does not mind.

use vstd::prelude::*;

use crate::text::{opt_text, texts};
use crate::wechat::accounts::{
    normalize_account_id, normalized, stamp_saved_at, stamped, AccountData,
};
use crate::wechat::index::{
    index_ids, index_ids_in, json_pretty_list, lemma_removed_len, list_account_ids,
    print_account_ids, register_account_id, registered, removed, unregister_account_id,
};
use crate::wechat::paths::{
    account_parts, account_path, accounts_dir, accounts_parts, index_parts, index_path,
    sync_buf_parts, sync_buf_path, wechat_dir, wechat_parts, StatePath,
};

verus! {

/// One operation on the files of the account store.
#[derive(Debug, PartialEq, Eq)]
pub enum FileAction {
    /// Create the directory and the ones above it, where they are missing.
    CreateDirs(StatePath),
    /// Create the directory that holds the file, and the ones above it, where
    /// they are missing.
    CreateParent(StatePath),
    /// Tell whether the file exists.
    Exists(StatePath),
    Remove(StatePath),
    /// Read the file as text.
    Read(StatePath),
    Write(StatePath, Vec<u8>),
    /// Write the credentials in the form in which they are kept.
    WriteAccount(StatePath, AccountData),
    /// Write the text in place of what the file held.
    WriteCursor(StatePath, String),
}

/// What came of a [`FileAction`].
#[derive(Debug, PartialEq, Eq)]
pub enum FileEvent<E> {
    /// The file exists, or does not.
    Found(bool),
    /// The operation succeeded or failed.
    Finished(Result<(), E>),
    /// The text that was read, if the file could be read.
    Text(Option<String>),
}

/// How a flow goes on.
#[derive(Debug, PartialEq, Eq)]
pub enum FileStep<S, E> {
    Do(FileAction, S),
    Done(Result<(), E>),
}

/// A [`FileAction`] by what it means: of the bytes of an index, the ids in it.
#[verifier::ext_equal]
pub enum FileOp {
    CreateDirs(Seq<Seq<char>>),
    CreateParent(Seq<Seq<char>>),
    Exists(Seq<Seq<char>>),
    Remove(Seq<Seq<char>>),
    Read(Seq<Seq<char>>),
    WriteIndex(Seq<Seq<char>>, Seq<Seq<char>>),
    WriteAccount(Seq<Seq<char>>, AccountData),
    WriteCursor(Seq<Seq<char>>, Seq<char>),
}

impl View for FileAction {
    type V = FileOp;

    open spec fn view(&self) -> FileOp {
        match *self {
            FileAction::CreateDirs(path) => FileOp::CreateDirs(path@),
            FileAction::CreateParent(path) => FileOp::CreateParent(path@),
            FileAction::Exists(path) => FileOp::Exists(path@),
            FileAction::Remove(path) => FileOp::Remove(path@),
            FileAction::Read(path) => FileOp::Read(path@),
            FileAction::Write(path, bytes) => FileOp::WriteIndex(path@, index_ids_in(bytes@)),
            FileAction::WriteAccount(path, data) => FileOp::WriteAccount(path@, data),
            FileAction::WriteCursor(path, text) => FileOp::WriteCursor(path@, text@),
        }
    }
}

/// A [`FileEvent`] by what it means: of the text of an index, the ids in it.
#[verifier::ext_equal]
pub enum FileOutcome<E> {
    Found(bool),
    Finished(Result<(), E>),
    Listed(Seq<Seq<char>>),
}

impl<E> View for FileEvent<E> {
    type V = FileOutcome<E>;

    open spec fn view(&self) -> FileOutcome<E> {
        match *self {
            FileEvent::Found(yes) => FileOutcome::Found(yes),
            FileEvent::Finished(result) => FileOutcome::Finished(result),
            FileEvent::Text(text) => FileOutcome::Listed(index_ids(opt_text(text))),
        }
    }
}

/// A [`FileStep`] by what it means.
#[verifier::ext_equal]
pub enum Next<S, E> {
    Do(FileOp, S),
    Done(Result<(), E>),
}

/// How far a deletion has come: what it has asked for last.
#[derive(Clone, Copy, Debug, PartialEq, Eq, Structural)]
pub enum DeleteStage {
    LookingForFile,
    RemovingFile,
    ReadingIndex,
    WritingIndex,
    RemovingCursor,
}

impl DeleteStage {
    /// The outcome is one of what was asked for.
    pub open spec fn awaits<E>(self, outcome: FileOutcome<E>) -> bool {
        match self {
            DeleteStage::LookingForFile => outcome is Found,
            DeleteStage::ReadingIndex => outcome is Listed,
            _ => outcome is Finished,
        }
    }

    /// How many operations follow at most.
    pub open spec fn left(self) -> nat {
        match self {
            DeleteStage::LookingForFile => 5,
            DeleteStage::RemovingFile => 4,
            DeleteStage::ReadingIndex => 3,
            DeleteStage::WritingIndex => 2,
            DeleteStage::RemovingCursor => 1,
        }
    }
}

/// How the deletion of account `id` goes on. The file with the credentials goes
/// first, where there is one; then the id leaves the index, which is written
/// only where that changes it; then the cursor goes, and whether that works
/// does not matter.
pub open spec fn delete_next<E>(
    id: Seq<char>,
    stage: DeleteStage,
    outcome: FileOutcome<E>,
) -> Next<DeleteStage, E> {
    let remove_cursor = Next::Do(FileOp::Remove(sync_buf_parts(id)), DeleteStage::RemovingCursor);
    let read_index = Next::Do(FileOp::Read(index_parts()), DeleteStage::ReadingIndex);
    match stage {
        DeleteStage::LookingForFile => if outcome == FileOutcome::<E>::Found(true) {
            Next::Do(FileOp::Remove(account_parts(id)), DeleteStage::RemovingFile)
        } else {
            read_index
        },
        DeleteStage::RemovingFile => match outcome {
            FileOutcome::Finished(Err(e)) => Next::Done(Err(e)),
            _ => read_index,
        },
        DeleteStage::ReadingIndex => {
            let ids = outcome->Listed_0;
            if ids.contains(id) {
                Next::Do(
                    FileOp::WriteIndex(index_parts(), removed(ids, id)),
                    DeleteStage::WritingIndex,
                )
            } else {
                remove_cursor
            }
        },
        DeleteStage::WritingIndex => match outcome {
            FileOutcome::Finished(Err(e)) => Next::Done(Err(e)),
            _ => remove_cursor,
        },
        DeleteStage::RemovingCursor => Next::Done(Ok(())),
    }
}

/// The deletion of an account, in progress.
#[derive(Debug, PartialEq, Eq)]
pub struct DeleteAccount {
    pub account_id: String,
    pub stage: DeleteStage,
}

/// A step of a deletion by what it means.
pub open spec fn delete_step<E>(step: FileStep<DeleteAccount, E>) -> Next<DeleteStage, E> {
    match step {
        FileStep::Do(action, flow) => Next::Do(action@, flow.stage),
        FileStep::Done(result) => Next::Done(result),
    }
}

/// Starts the deletion of an account. The id is normalised first, so the
/// account is found by its raw iLink user ID too.
pub fn delete_account(account_id: &str) -> (r: (FileAction, DeleteAccount))
    ensures
        r.0@ == FileOp::Exists(account_parts(normalized(account_id@))),
        r.1.account_id@ == normalized(account_id@),
        r.1.stage == DeleteStage::LookingForFile,
{
    let id = normalize_account_id(account_id);
    let path = account_path(id.as_str());
    (
        FileAction::Exists(path),
        DeleteAccount { account_id: id, stage: DeleteStage::LookingForFile },
    )
}

impl DeleteAccount {
    /// Goes on once the operation that was asked for is over.
    pub fn resume<E>(self, event: FileEvent<E>) -> (r: FileStep<DeleteAccount, E>)
        requires
            self.stage.awaits(event@),
        ensures
            delete_step(r) == delete_next(self.account_id@, self.stage, event@),
            r matches FileStep::Do(_, flow) ==> flow.account_id == self.account_id,
            r matches FileStep::Do(FileAction::Write(_, bytes), _) ==> bytes@ == json_pretty_list(
                removed(event@->Listed_0, self.account_id@),
            ),
    {
        let id = self.account_id;
        match (self.stage, event) {
            (DeleteStage::LookingForFile, FileEvent::Found(true)) => FileStep::Do(
                FileAction::Remove(account_path(id.as_str())),
                DeleteAccount { account_id: id, stage: DeleteStage::RemovingFile },
            ),
            (DeleteStage::RemovingFile, FileEvent::Finished(Err(e))) => FileStep::Done(Err(e)),
            (DeleteStage::LookingForFile, _) | (DeleteStage::RemovingFile, _) => FileStep::Do(
                FileAction::Read(index_path()),
                DeleteAccount { account_id: id, stage: DeleteStage::ReadingIndex },
            ),
            (DeleteStage::ReadingIndex, FileEvent::Text(text)) => {
                let ids = list_account_ids(text);
                let ghost all = texts(ids@);
                let original_len = ids.len();
                let kept = unregister_account_id(ids, &id);
                proof {
                    lemma_removed_len(all, id@);
                    assert(texts(kept@).len() == kept@.len());
                    assert(all.len() == original_len);
                }
                if kept.len() != original_len {
                    FileStep::Do(
                        FileAction::Write(index_path(), print_account_ids(&kept)),
                        DeleteAccount { account_id: id, stage: DeleteStage::WritingIndex },
                    )
                } else {
                    FileStep::Do(
                        FileAction::Remove(sync_buf_path(id.as_str())),
                        DeleteAccount { account_id: id, stage: DeleteStage::RemovingCursor },
                    )
                }
            },
            (DeleteStage::WritingIndex, FileEvent::Finished(Err(e))) => FileStep::Done(Err(e)),
            (DeleteStage::RemovingCursor, _) => FileStep::Done(Ok(())),
            (_, _) => FileStep::Do(
                FileAction::Remove(sync_buf_path(id.as_str())),
                DeleteAccount { account_id: id, stage: DeleteStage::RemovingCursor },
            ),
        }
    }
}

/// How far a save has come: what it has asked for last.
#[derive(Debug, PartialEq, Eq)]
pub enum SaveStage {
    /// The credentials are still to be written.
    MakingAccountsDir(AccountData),
    WritingAccount,
    MakingWechatDir,
    ReadingIndex,
    WritingIndex,
}

impl SaveStage {
    /// The outcome is one of what was asked for.
    pub open spec fn awaits<E>(self, outcome: FileOutcome<E>) -> bool {
        match self {
            SaveStage::ReadingIndex => outcome is Listed,
            _ => outcome is Finished,
        }
    }

    /// How many operations follow at most.
    pub open spec fn left(self) -> nat {
        match self {
            SaveStage::MakingAccountsDir(_) => 5,
            SaveStage::WritingAccount => 4,
            SaveStage::MakingWechatDir => 3,
            SaveStage::ReadingIndex => 2,
            SaveStage::WritingIndex => 1,
        }
    }
}

/// How the save of account `id` goes on. The credentials are written first,
/// then the id is registered in the index. The first failure ends the save.
pub open spec fn save_next<E>(id: Seq<char>, stage: SaveStage, outcome: FileOutcome<E>) -> Next<
    SaveStage,
    E,
> {
    match outcome {
        FileOutcome::Finished(Err(e)) => Next::Done(Err(e)),
        _ => match stage {
            SaveStage::MakingAccountsDir(data) => Next::Do(
                FileOp::WriteAccount(account_parts(id), data),
                SaveStage::WritingAccount,
            ),
            SaveStage::WritingAccount => Next::Do(
                FileOp::CreateDirs(wechat_parts()),
                SaveStage::MakingWechatDir,
            ),
            SaveStage::MakingWechatDir => Next::Do(
                FileOp::Read(index_parts()),
                SaveStage::ReadingIndex,
            ),
            SaveStage::ReadingIndex => Next::Do(
                FileOp::WriteIndex(index_parts(), registered(outcome->Listed_0, id)),
                SaveStage::WritingIndex,
            ),
            SaveStage::WritingIndex => Next::Done(Ok(())),
        },
    }
}

/// The save of an account, in progress.
#[derive(Debug, PartialEq, Eq)]
pub struct SaveAccount {
    pub account_id: String,
    pub stage: SaveStage,
}

/// A step of a save by what it means.
pub open spec fn save_step<E>(step: FileStep<SaveAccount, E>) -> Next<SaveStage, E> {
    match step {
        FileStep::Do(action, flow) => Next::Do(action@, flow.stage),
        FileStep::Done(result) => Next::Done(result),
    }
}

/// Starts the save of an account. Credentials without a time are stamped with
/// `now`.
pub fn save_account(account_id: String, data: AccountData, now: u64) -> (r: (
    FileAction,
    SaveAccount,
))
    ensures
        r.0@ == FileOp::CreateDirs(accounts_parts()),
        r.1.account_id == account_id,
        r.1.stage == SaveStage::MakingAccountsDir(stamped(data, now)),
{
    let data = stamp_saved_at(data, now);
    (
        FileAction::CreateDirs(accounts_dir()),
        SaveAccount { account_id, stage: SaveStage::MakingAccountsDir(data) },
    )
}

impl SaveAccount {
    /// Goes on once the operation that was asked for is over.
    pub fn resume<E>(self, event: FileEvent<E>) -> (r: FileStep<SaveAccount, E>)
        requires
            self.stage.awaits(event@),
        ensures
            save_step(r) == save_next(self.account_id@, self.stage, event@),
            r matches FileStep::Do(_, flow) ==> flow.account_id == self.account_id,
            r matches FileStep::Do(FileAction::Write(_, bytes), _) ==> bytes@ == json_pretty_list(
                registered(event@->Listed_0, self.account_id@),
            ),
    {
        let id = self.account_id;
        match (self.stage, event) {
            (_, FileEvent::Finished(Err(e))) => FileStep::Done(Err(e)),
            (SaveStage::MakingAccountsDir(data), _) => FileStep::Do(
                FileAction::WriteAccount(account_path(id.as_str()), data),
                SaveAccount { account_id: id, stage: SaveStage::WritingAccount },
            ),
            (SaveStage::WritingAccount, _) => FileStep::Do(
                FileAction::CreateDirs(wechat_dir()),
                SaveAccount { account_id: id, stage: SaveStage::MakingWechatDir },
            ),
            (SaveStage::MakingWechatDir, _) => FileStep::Do(
                FileAction::Read(index_path()),
                SaveAccount { account_id: id, stage: SaveStage::ReadingIndex },
            ),
            (SaveStage::ReadingIndex, FileEvent::Text(text)) => {
                let ids = register_account_id(list_account_ids(text), id.clone());
                FileStep::Do(
                    FileAction::Write(index_path(), print_account_ids(&ids)),
                    SaveAccount { account_id: id, stage: SaveStage::WritingIndex },
                )
            },
            (_, _) => FileStep::Done(Ok(())),
        }
    }
}

/// Plans the save of an account's long-poll cursor: two operations, to be
/// carried out one after the other. A cursor is kept as well as can be: whether
/// either operation works does not matter.
pub fn save_sync_buf(account_id: &str, buf: &str) -> (r: (FileAction, FileAction))
    ensures
        r.0@ == FileOp::CreateParent(sync_buf_parts(account_id@)),
        r.1@ == FileOp::WriteCursor(sync_buf_parts(account_id@), buf@),
{
    (
        FileAction::CreateParent(sync_buf_path(account_id)),
        FileAction::WriteCursor(sync_buf_path(account_id), buf.to_owned()),
    )
}

} // verus!
