//! Keeping the last invite key in the system's credential store.
use vstd::prelude::*;
use crate::text::{trim, trim_str, with_detail};

verus! {

#[verifier::external_type_specification]
#[verifier::external_body]
pub struct ExEntry(keyring::Entry);

#[verifier::external_type_specification]
#[verifier::external_body]
pub struct ExKeyringError(keyring::Error);

/// Calls `keyring::Entry::new` with the service and the user of `target`, in that
/// order. Whether the store accepts the entry depends on the platform, so nothing
/// is stated of the outcome.
#[verifier::external_body]
fn entry_new(target: &KeyTarget) -> (r: Result<keyring::Entry, keyring::Error>) {
    keyring::Entry::new(&target.service, &target.user)
}

/// Calls `keyring::Entry::set_password` with the password of `write`; the outcome
/// depends on the store.
#[verifier::external_body]
fn entry_set_password(entry: &keyring::Entry, write: &KeyWrite) -> (r: Result<(), keyring::Error>) {
    entry.set_password(&write.password)
}

/// Calls `keyring::Entry::get_password`; the outcome depends on the store.
#[verifier::external_body]
fn entry_get_password(entry: &keyring::Entry) -> (r: Result<String, keyring::Error>) {
    entry.get_password()
}

/// Calls `keyring::Entry::delete_credential`; the outcome depends on the store.
#[verifier::external_body]
fn entry_delete_credential(entry: &keyring::Entry) -> (r: Result<(), keyring::Error>) {
    entry.delete_credential()
}

/// Tells the `keyring::Error::NoEntry` variant from the others.
#[verifier::external_body]
fn error_is_no_entry(error: &keyring::Error) -> (r: bool) {
    matches!(error, keyring::Error::NoEntry)
}

/// The text that `keyring::Error`'s `Display` writes; not stated here.
#[verifier::external_body]
fn error_text(error: &keyring::Error) -> (r: String) {
    format!("{error}")
}

/// A failure of the credential store: whether it was that there is no saved key,
/// and the store's description of it.
pub struct StoreFailure {
    pub no_entry: bool,
    pub text: String,
}

/// A credential store error as plain values.
fn store_failure(error: &keyring::Error) -> (f: StoreFailure) {
    StoreFailure { no_entry: error_is_no_entry(error), text: error_text(error) }
}

/// The start of the error when the store cannot be opened.
pub open spec fn open_failed_prefix() -> Seq<char> {
    seq!['W', 'i', 'n', 'd', 'o', 'w', 's', '資', '格', '情', '報', 'を', '開', 'け', 'ま', 'せ', 'ん', ':', ' ']
}

/// The start of the error when the key cannot be saved.
pub open spec fn save_failed_prefix() -> Seq<char> {
    seq!['接', '続', 'キ', 'ー', 'を', '安', '全', 'に', '保', '存', 'で', 'き', 'ま', 'せ', 'ん', ':', ' ']
}

/// The start of the error when the saved key cannot be read.
pub open spec fn load_failed_prefix() -> Seq<char> {
    seq!['保', '存', '済', 'み', '接', '続', 'キ', 'ー', 'を', '読', 'み', '込', 'め', 'ま', 'せ', 'ん', ':', ' ']
}

/// The start of the error when the saved key cannot be deleted.
pub open spec fn clear_failed_prefix() -> Seq<char> {
    seq!['保', '存', '済', 'み', '接', '続', 'キ', 'ー', 'を', '削', '除', 'で', 'き', 'ま', 'せ', 'ん', ':', ' ']
}

/// `m` is `prefix` followed by some description.
pub open spec fn starts_with(m: Seq<char>, prefix: Seq<char>) -> bool {
    prefix.len() <= m.len() && m.take(prefix.len() as int) == prefix
}

/// A credential of the store: the service and the user it is filed under.
pub struct KeyTarget {
    pub service: String,
    pub user: String,
}

/// The service the invite key is filed under.
pub open spec fn key_service() -> Seq<char> {
    "jp.woollest.minecraft-connector"@
}

/// The user the invite key is filed under.
pub open spec fn key_user() -> Seq<char> {
    "unlim-invite-key"@
}

/// The credential that holds the invite key.
pub fn credential_target() -> (t: KeyTarget)
    ensures
        t.service@ == key_service(),
        t.user@ == key_user(),
{
    KeyTarget {
        service: String::from_str("jp.woollest.minecraft-connector"),
        user: String::from_str("unlim-invite-key"),
    }
}

/// What is written to the store to save a key: the credential and the password.
pub struct KeyWrite {
    pub target: KeyTarget,
    pub password: String,
}

/// The write that saves `key` as the invite key: under the invite key's credential,
/// the key itself, unchanged.
pub fn key_write(key: &str) -> (w: KeyWrite)
    ensures
        w.target.service@ == key_service(),
        w.target.user@ == key_user(),
        w.password@ == key@,
{
    KeyWrite { target: credential_target(), password: String::from_str(key) }
}

/// The entry of the store for `target`.
pub fn credential_at(target: &KeyTarget) -> (r: Result<keyring::Entry, String>)
    ensures
        r matches Err(m) ==> starts_with(m@, open_failed_prefix()),
{
    match entry_new(target) {
        Ok(e) => Ok(e),
        Err(error) => {
            let head = "Windows資格情報を開けません: ";
            proof {
                reveal_strlit("Windows資格情報を開けません: ");
                assert(head@ =~= open_failed_prefix());
            }
            let m = with_detail(head, error_text(&error).as_str());
            assert(m@.take(open_failed_prefix().len() as int) =~= open_failed_prefix());
            Err(m)
        },
    }
}

/// The entry of the credential store that holds the invite key.
pub fn credential() -> (r: Result<keyring::Entry, String>)
    ensures
        r matches Err(m) ==> starts_with(m@, open_failed_prefix()),
{
    let target = credential_target();
    credential_at(&target)
}

/// What saving the key comes to, given what the store answered: any failure is
/// reported with the store's description.
pub fn saved_outcome(answer: Result<(), StoreFailure>) -> (r: Result<(), String>)
    ensures
        match answer {
            Ok(()) => r is Ok,
            Err(f) => r matches Err(m) && m@ == save_failed_prefix() + f.text@,
        },
{
    match answer {
        Ok(()) => Ok(()),
        Err(f) => {
            let head = "接続キーを安全に保存できません: ";
            proof {
                reveal_strlit("接続キーを安全に保存できません: ");
                assert(head@ =~= save_failed_prefix());
            }
            Err(with_detail(head, f.text.as_str()))
        },
    }
}

/// What reading the saved key comes to, given what the store answered: a key that
/// is not blank, no key when it is blank or there is none, and the store's
/// description of any other failure.
pub fn saved_key_outcome(answer: Result<String, StoreFailure>) -> (r: Result<Option<String>, String>)
    ensures
        match answer {
            Ok(k) => if trim(k@).len() > 0 {
                r matches Ok(Some(k2)) && k2@ == k@
            } else {
                r matches Ok(None)
            },
            Err(f) => if f.no_entry {
                r matches Ok(None)
            } else {
                r matches Err(m) && m@ == load_failed_prefix() + f.text@
            },
        },
{
    match answer {
        Ok(k) => {
            let t = trim_str(k.as_str());
            if t.as_str().is_empty() {
                Ok(None)
            } else {
                Ok(Some(k))
            }
        },
        Err(f) => if f.no_entry {
            Ok(None)
        } else {
            let head = "保存済み接続キーを読み込めません: ";
            proof {
                reveal_strlit("保存済み接続キーを読み込めません: ");
                assert(head@ =~= load_failed_prefix());
            }
            Err(with_detail(head, f.text.as_str()))
        },
    }
}

/// What deleting the saved key comes to, given what the store answered: having
/// no key to delete counts as done.
pub fn cleared_outcome(answer: Result<(), StoreFailure>) -> (r: Result<(), String>)
    ensures
        match answer {
            Ok(()) => r is Ok,
            Err(f) => if f.no_entry {
                r is Ok
            } else {
                r matches Err(m) && m@ == clear_failed_prefix() + f.text@
            },
        },
{
    match answer {
        Ok(()) => Ok(()),
        Err(f) => if f.no_entry {
            Ok(())
        } else {
            let head = "保存済み接続キーを削除できません: ";
            proof {
                reveal_strlit("保存済み接続キーを削除できません: ");
                assert(head@ =~= clear_failed_prefix());
            }
            Err(with_detail(head, f.text.as_str()))
        },
    }
}

/// Writes `write` to the store: the password of the write is handed to
/// `keyring::Entry::set_password` as it is, on the entry of the write's credential.
/// Whether the store takes it is up to the store; a failure is reported as opening
/// or saving failed.
pub fn save_key_write(write: &KeyWrite) -> (r: Result<(), String>)
    ensures
        r matches Err(m) ==> starts_with(m@, open_failed_prefix()) || starts_with(
            m@,
            save_failed_prefix(),
        ),
{
    let entry = match credential_at(&write.target) {
        Ok(e) => e,
        Err(m) => {
            return Err(m);
        },
    };
    let answer = match entry_set_password(&entry, write) {
        Ok(()) => Ok(()),
        Err(error) => Err(store_failure(&error)),
    };
    let r = saved_outcome(answer);
    proof {
        if let Err(ref m) = r {
            assert(m@.take(save_failed_prefix().len() as int) =~= save_failed_prefix());
        }
    }
    r
}

/// Saves `key` as the last invite key: the write of `key_write(key)`.
pub fn save_key(key: &str) -> (r: Result<(), String>)
    ensures
        r matches Err(m) ==> starts_with(m@, open_failed_prefix()) || starts_with(
            m@,
            save_failed_prefix(),
        ),
{
    let write = key_write(key);
    save_key_write(&write)
}

/// The key saved under `target`, if there is one and it is not blank.
pub fn load_key_at(target: &KeyTarget) -> (r: Result<Option<String>, String>)
    ensures
        r matches Ok(Some(k)) ==> trim(k@).len() > 0,
        r matches Err(m) ==> starts_with(m@, open_failed_prefix()) || starts_with(
            m@,
            load_failed_prefix(),
        ),
{
    let entry = match credential_at(target) {
        Ok(e) => e,
        Err(m) => {
            return Err(m);
        },
    };
    let answer = match entry_get_password(&entry) {
        Ok(k) => Ok(k),
        Err(error) => Err(store_failure(&error)),
    };
    let r = saved_key_outcome(answer);
    proof {
        if let Err(ref m) = r {
            assert(m@.take(load_failed_prefix().len() as int) =~= load_failed_prefix());
        }
    }
    r
}

/// The last invite key, if one is saved and not blank.
pub fn load_saved_key() -> (r: Result<Option<String>, String>)
    ensures
        r matches Ok(Some(k)) ==> trim(k@).len() > 0,
        r matches Err(m) ==> starts_with(m@, open_failed_prefix()) || starts_with(
            m@,
            load_failed_prefix(),
        ),
{
    let target = credential_target();
    load_key_at(&target)
}

/// Deletes the key saved under `target`; having none counts as done.
pub fn clear_key_at(target: &KeyTarget) -> (r: Result<(), String>)
    ensures
        r matches Err(m) ==> starts_with(m@, open_failed_prefix()) || starts_with(
            m@,
            clear_failed_prefix(),
        ),
{
    let entry = match credential_at(target) {
        Ok(e) => e,
        Err(m) => {
            return Err(m);
        },
    };
    let answer = match entry_delete_credential(&entry) {
        Ok(()) => Ok(()),
        Err(error) => Err(store_failure(&error)),
    };
    let r = cleared_outcome(answer);
    proof {
        if let Err(ref m) = r {
            assert(m@.take(clear_failed_prefix().len() as int) =~= clear_failed_prefix());
        }
    }
    r
}

/// Deletes the saved invite key; having none counts as done.
pub fn clear_saved_key() -> (r: Result<(), String>)
    ensures
        r matches Err(m) ==> starts_with(m@, open_failed_prefix()) || starts_with(
            m@,
            clear_failed_prefix(),
        ),
{
    let target = credential_target();
    clear_key_at(&target)
}

} // verus!
