use std::collections::BTreeMap;

use zeroclaw::wechat::accounts::{load_sync_buf, AccountData};
use zeroclaw::wechat::flows::{
    delete_account, save_account, save_sync_buf, DeleteAccount, DeleteStage, FileAction, FileEvent, FileStep,
    SaveAccount, SaveStage,
};
use zeroclaw::wechat::index::list_account_ids;
use zeroclaw::wechat::paths::{account_path, index_path, sync_buf_path};

#[derive(Clone, Debug, PartialEq)]
enum Content {
    Bytes(Vec<u8>),
    Account(AccountData),
}

#[derive(Clone, Debug, Default, PartialEq)]
struct Disk {
    files: BTreeMap<Vec<String>, Content>,
    log: Vec<String>,
    /// The operation, by its place in the log, that fails.
    fails: Option<usize>,
}

impl Disk {
    fn perform(&mut self, action: FileAction) -> FileEvent<String> {
        let fails = self.fails == Some(self.log.len());
        let (word, parts) = match &action {
            FileAction::CreateDirs(p) => ("mkdir", &p.parts),
            FileAction::CreateParent(p) => ("mkparent", &p.parts),
            FileAction::Exists(p) => ("exists", &p.parts),
            FileAction::Remove(p) => ("remove", &p.parts),
            FileAction::Read(p) => ("read", &p.parts),
            FileAction::Write(p, _) => ("write", &p.parts),
            FileAction::WriteAccount(p, _) => ("write", &p.parts),
            FileAction::WriteCursor(p, _) => ("write", &p.parts),
        };
        self.log.push(format!("{} {}", word, parts.join("/")));
        if fails {
            return match action {
                FileAction::Exists(_) => FileEvent::Found(false),
                FileAction::Read(_) => FileEvent::Text(None),
                _ => FileEvent::Finished(Err("disk".to_string())),
            };
        }
        match action {
            FileAction::CreateDirs(_) | FileAction::CreateParent(_) => FileEvent::Finished(Ok(())),
            FileAction::Exists(p) => FileEvent::Found(self.files.contains_key(&p.parts)),
            FileAction::Remove(p) => FileEvent::Finished(match self.files.remove(&p.parts) {
                Some(_) => Ok(()),
                None => Err("missing".to_string()),
            }),
            FileAction::Read(p) => FileEvent::Text(match self.files.get(&p.parts) {
                Some(Content::Bytes(b)) => String::from_utf8(b.clone()).ok(),
                _ => None,
            }),
            FileAction::Write(p, b) => {
                self.files.insert(p.parts, Content::Bytes(b));
                FileEvent::Finished(Ok(()))
            }
            FileAction::WriteAccount(p, d) => {
                self.files.insert(p.parts, Content::Account(d));
                FileEvent::Finished(Ok(()))
            }
            FileAction::WriteCursor(p, text) => {
                self.files.insert(p.parts, Content::Bytes(text.into_bytes()));
                FileEvent::Finished(Ok(()))
            }
        }
    }

    fn save(&mut self, id: &str, data: AccountData, now: u64) -> Result<(), String> {
        let (mut action, mut flow) = save_account(id.to_string(), data, now);
        loop {
            let event = self.perform(action);
            match flow.resume(event) {
                FileStep::Do(a, f) => {
                    action = a;
                    flow = f;
                }
                FileStep::Done(r) => return r,
            }
        }
    }

    fn delete(&mut self, id: &str) -> Result<(), String> {
        let (mut action, mut flow) = delete_account(id);
        loop {
            let event = self.perform(action);
            match flow.resume(event) {
                FileStep::Do(a, f) => {
                    action = a;
                    flow = f;
                }
                FileStep::Done(r) => return r,
            }
        }
    }

    fn save_cursor(&mut self, id: &str, buf: &str) {
        let (first, second) = save_sync_buf(id, buf);
        self.perform(first);
        self.perform(second);
    }

    fn cursor(&mut self, id: &str) -> String {
        match self.perform(FileAction::Read(sync_buf_path(id))) {
            FileEvent::Text(text) => load_sync_buf(text),
            other => panic!("{:?}", other),
        }
    }

    fn ids(&self) -> Vec<String> {
        match self.files.get(&index_path().parts) {
            Some(Content::Bytes(b)) => list_account_ids(String::from_utf8(b.clone()).ok()),
            _ => Vec::new(),
        }
    }
}

fn token(t: &str) -> AccountData {
    AccountData {
        token: Some(t.to_string()),
        ..AccountData::default()
    }
}

#[test]
fn save_writes_the_credentials_and_registers_the_id() {
    let mut disk = Disk::default();
    assert_eq!(disk.save("a", token("t"), 5), Ok(()));
    assert_eq!(
        disk.log,
        vec![
            "mkdir wechat/accounts",
            "write wechat/accounts/a.json",
            "mkdir wechat",
            "read wechat/accounts.json",
            "write wechat/accounts.json",
        ]
    );
    let mut expected = token("t");
    expected.saved_at = Some(5);
    assert_eq!(disk.files[&account_path("a").parts], Content::Account(expected));
    assert_eq!(
        disk.files[&index_path().parts],
        Content::Bytes(b"[\n  \"a\"\n]".to_vec())
    );
}

#[test]
fn save_orders_the_index_by_the_last_save() {
    let mut disk = Disk::default();
    for id in ["a", "b", "c", "a"] {
        disk.save(id, token(id), 1).unwrap();
    }
    assert_eq!(disk.ids(), vec!["b", "c", "a"]);
    assert_eq!(disk.files.len(), 4);
}

#[test]
fn saving_again_replaces_the_credentials() {
    let mut once = Disk::default();
    once.save("a", token("new"), 2).unwrap();
    let mut twice = Disk::default();
    twice.save("a", token("old"), 1).unwrap();
    twice.save("a", token("new"), 2).unwrap();
    assert_eq!(once.files, twice.files);
}

#[test]
fn save_stops_at_the_first_failure() {
    for place in [0, 1, 2, 4] {
        let mut disk = Disk {
            fails: Some(place),
            ..Disk::default()
        };
        assert_eq!(disk.save("a", token("t"), 1), Err("disk".to_string()));
        assert_eq!(disk.log.len(), place + 1);
    }
    let mut disk = Disk {
        fails: Some(3),
        ..Disk::default()
    };
    assert_eq!(disk.save("a", token("t"), 1), Ok(()));
    assert_eq!(disk.ids(), vec!["a"]);
}

#[test]
fn delete_removes_file_id_and_cursor() {
    let mut disk = Disk::default();
    disk.save("a-b", token("1"), 1).unwrap();
    disk.save("other", token("2"), 1).unwrap();
    disk.files
        .insert(sync_buf_path("a-b").parts, Content::Bytes(vec![1]));
    disk.files
        .insert(sync_buf_path("other").parts, Content::Bytes(vec![2]));
    disk.log.clear();
    assert_eq!(disk.delete(" A.B "), Ok(()));
    assert_eq!(
        disk.log,
        vec![
            "exists wechat/accounts/a-b.json",
            "remove wechat/accounts/a-b.json",
            "read wechat/accounts.json",
            "write wechat/accounts.json",
            "remove wechat/sync_buf/a-b",
        ]
    );
    assert_eq!(disk.ids(), vec!["other"]);
    assert!(!disk.files.contains_key(&account_path("a-b").parts));
    assert!(!disk.files.contains_key(&sync_buf_path("a-b").parts));
    assert!(disk.files.contains_key(&account_path("other").parts));
    assert!(disk.files.contains_key(&sync_buf_path("other").parts));
}

#[test]
fn delete_of_an_unknown_account_writes_nothing() {
    let mut disk = Disk::default();
    disk.save("a", token("1"), 1).unwrap();
    let before = disk.files.clone();
    disk.log.clear();
    assert_eq!(disk.delete("b"), Ok(()));
    assert_eq!(disk.files, before);
    assert_eq!(
        disk.log,
        vec![
            "exists wechat/accounts/b.json",
            "read wechat/accounts.json",
            "remove wechat/sync_buf/b",
        ]
    );
}

#[test]
fn deleting_twice_is_deleting_once() {
    let mut disk = Disk::default();
    disk.save("a", token("1"), 1).unwrap();
    disk.delete("a").unwrap();
    let once = disk.files.clone();
    assert_eq!(disk.delete("a"), Ok(()));
    assert_eq!(disk.files, once);
}

#[test]
fn delete_undoes_a_save() {
    let mut disk = Disk::default();
    disk.save("x", token("1"), 1).unwrap();
    let before = disk.files.clone();
    disk.save("a", token("2"), 2).unwrap();
    disk.delete("a").unwrap();
    assert_eq!(disk.files, before);
}

#[test]
fn delete_stops_at_a_failed_removal_or_write() {
    for place in [1, 3] {
        let mut disk = Disk::default();
        disk.save("a", token("1"), 1).unwrap();
        disk.log.clear();
        disk.fails = Some(place);
        assert_eq!(disk.delete("a"), Err("disk".to_string()));
        assert_eq!(disk.log.len(), place + 1);
    }
    let mut disk = Disk::default();
    disk.save("a", token("1"), 1).unwrap();
    disk.log.clear();
    disk.fails = Some(4);
    assert_eq!(disk.delete("a"), Ok(()));
}

#[test]
fn flows_start_at_their_first_stage() {
    let (_, flow) = delete_account("A");
    assert_eq!(
        flow,
        DeleteAccount {
            account_id: "a".to_string(),
            stage: DeleteStage::LookingForFile
        }
    );
    let (_, flow) = save_account("A".to_string(), token("t"), 3);
    let mut stamped = token("t");
    stamped.saved_at = Some(3);
    assert_eq!(
        flow,
        SaveAccount {
            account_id: "A".to_string(),
            stage: SaveStage::MakingAccountsDir(stamped)
        }
    );
}

#[test]
fn last_cursor_is_read_back() {
    let mut disk = Disk::default();
    assert_eq!(disk.cursor("a"), "");
    disk.save_cursor("a", "a longer cursor");
    disk.save_cursor("b", "other");
    disk.save_cursor("a", "short");
    assert_eq!(disk.cursor("a"), "short");
    assert_eq!(disk.cursor("b"), "other");
    assert_eq!(
        disk.log[1..3],
        [
            "mkparent wechat/sync_buf/a".to_string(),
            "write wechat/sync_buf/a".to_string()
        ]
    );
}

#[test]
fn cursor_of_others_survives_a_failed_write() {
    let mut disk = Disk::default();
    disk.save_cursor("a", "one");
    disk.save_cursor("b", "two");
    disk.fails = Some(disk.log.len() + 1);
    disk.save_cursor("b", "three");
    assert_eq!(disk.cursor("a"), "one");
}

#[test]
fn delete_stays_in_the_store() {
    let (action, _) = delete_account("/etc/x");
    assert_eq!(action, FileAction::Exists(account_path("-etc-x")));
}
