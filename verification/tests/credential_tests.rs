use unlim_connector::credential::{
    clear_key_at, cleared_outcome, credential_target, key_write, load_key_at, save_key_write,
    saved_key_outcome, saved_outcome, KeyTarget, KeyWrite, StoreFailure,
};

fn failure(no_entry: bool, text: &str) -> StoreFailure {
    StoreFailure { no_entry, text: text.to_string() }
}

#[test]
fn reading_the_saved_key() {
    assert_eq!(saved_key_outcome(Ok("key-1".to_string())), Ok(Some("key-1".to_string())));
    assert_eq!(saved_key_outcome(Ok(" \t".to_string())), Ok(None));
    assert_eq!(saved_key_outcome(Err(failure(true, "none"))), Ok(None));
    assert_eq!(
        saved_key_outcome(Err(failure(false, "locked"))),
        Err("保存済み接続キーを読み込めません: locked".to_string())
    );
}

#[test]
fn saving_and_clearing() {
    assert_eq!(saved_outcome(Ok(())), Ok(()));
    assert_eq!(saved_outcome(Err(failure(true, "gone"))), Err("接続キーを安全に保存できません: gone".to_string()));
    assert_eq!(cleared_outcome(Err(failure(true, "gone"))), Ok(()));
    assert_eq!(cleared_outcome(Err(failure(false, "io"))), Err("保存済み接続キーを削除できません: io".to_string()));
}

#[test]
fn windows_credential_round_trip() {
    let target = KeyTarget {
        service: "jp.woollest.minecraft-connector.test".to_string(),
        user: "credential-round-trip".to_string(),
    };
    let _ = clear_key_at(&target);
    let write = KeyWrite { target, password: "temporary-test-value".to_string() };
    save_key_write(&write).expect("save test credential");
    assert_eq!(
        load_key_at(&write.target).expect("load test credential"),
        Some("temporary-test-value".to_string())
    );
    clear_key_at(&write.target).expect("delete test credential");
    assert_eq!(load_key_at(&write.target), Ok(None));
}

#[test]
fn invite_key_credential() {
    let t = credential_target();
    assert_eq!(t.service, "jp.woollest.minecraft-connector");
    assert_eq!(t.user, "unlim-invite-key");
    let w = key_write("abc-123");
    assert_eq!(w.target.service, "jp.woollest.minecraft-connector");
    assert_eq!(w.target.user, "unlim-invite-key");
    assert_eq!(w.password, "abc-123");
}
