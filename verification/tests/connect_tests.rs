use unlim_connector::connect::{
    connect_action, connect_args, connect_begin, connect_step, disconnect_commands,
    instance_status_args, status_plan, status_query_args, validate_invite_key, ConnectAction,
    ConnectEvent, ConnectSession, StatusPlan,
};
use unlim_connector::paths::UnlimPath;
use unlim_connector::instances::CliOutput;
use unlim_connector::status::StatusValue;

#[test]
fn invite_key_rules() {
    assert_eq!(validate_invite_key("  abcd-123  "), Ok("abcd-123".to_string()));
    assert_eq!(validate_invite_key("abc1234").err().unwrap(), "接続キーの形式を確認してください。");
    assert!(validate_invite_key("https://x.y/?a=b&c_d:e").is_ok());
    assert!(validate_invite_key("abcd 1234").is_err());
    assert!(validate_invite_key("abcdéfgh").is_err());
    assert!(validate_invite_key(&"a".repeat(512)).is_ok());
    assert!(validate_invite_key(&"a".repeat(513)).is_err());
}

fn finish(s: &ConnectSession) -> Option<Result<(), String>> {
    match connect_action(s) {
        ConnectAction::Finish(r) => Some(r),
        _ => None,
    }
}

fn exe() -> UnlimPath {
    UnlimPath { parts: vec!["C:\\U".to_string(), "unlim.exe".to_string()] }
}

fn at_saving() -> ConnectSession {
    let s = connect_begin(" key-12345 ");
    let s = connect_step(s, ConnectEvent::Connected(false));
    connect_step(s, ConnectEvent::Found(Some(exe())))
}

#[test]
fn connecting_steps() {
    let s = connect_begin(" key-12345 ");
    assert!(matches!(connect_action(&s), ConnectAction::CheckConnected));
    let s = connect_step(s, ConnectEvent::Connected(false));
    assert!(matches!(connect_action(&s), ConnectAction::FindUnlim));
    let s = connect_step(s, ConnectEvent::Found(Some(exe())));
    match connect_action(&s) {
        ConnectAction::SaveKey(k) => assert_eq!(k, "key-12345"),
        _ => panic!("expected the key to be saved"),
    }
    let s = connect_step(s, ConnectEvent::Saved(Ok(())));
    match connect_action(&s) {
        ConnectAction::Start { program, args } => {
            assert_eq!(program.parts, vec!["C:\\U", "unlim.exe"]);
            assert_eq!(args, vec!["--connect", "key-12345", "--no-tui"]);
        }
        _ => panic!("expected Unlim to be started"),
    }
    let s = connect_step(s, ConnectEvent::Started(Ok(())));
    assert!(matches!(connect_action(&s), ConnectAction::Store));
    let s = connect_step(s, ConnectEvent::Stored(true));
    assert_eq!(finish(&s), Some(Ok(())));
    assert_eq!(connect_args("k"), vec!["--connect", "k", "--no-tui"]);
}

#[test]
fn connecting_failures() {
    let s = connect_begin("short");
    assert_eq!(finish(&s), Some(Err("接続キーの形式を確認してください。".to_string())));
    let s = connect_step(connect_begin("key-12345"), ConnectEvent::Connected(true));
    assert_eq!(finish(&s), Some(Err("すでにUnlimが接続中です。いったん切断してください。".to_string())));
    let s = connect_step(connect_begin("key-12345"), ConnectEvent::Connected(false));
    let s = connect_step(s, ConnectEvent::Found(None));
    assert_eq!(finish(&s), Some(Err("Unlimの準備が完了していません。".to_string())));
    let s = connect_step(at_saving(), ConnectEvent::Saved(Err("x".to_string())));
    assert_eq!(finish(&s), Some(Err("x".to_string())));
    let s = connect_step(at_saving(), ConnectEvent::Saved(Ok(())));
    let s = connect_step(s, ConnectEvent::Started(Err("not found".to_string())));
    assert_eq!(finish(&s), Some(Err("接続を開始できません: not found".to_string())));
    let s = connect_step(at_saving(), ConnectEvent::Saved(Ok(())));
    let s = connect_step(s, ConnectEvent::Started(Ok(())));
    let s = connect_step(s, ConnectEvent::Stored(false));
    assert_eq!(finish(&s), Some(Err("内部状態を取得できません。".to_string())));
    // an answer to another action leaves the session as it is
    let s = connect_step(connect_begin("key-12345"), ConnectEvent::Stored(true));
    assert!(matches!(connect_action(&s), ConnectAction::CheckConnected));
}

#[test]
fn status_commands() {
    assert_eq!(status_query_args(), vec!["status", "--json"]);
    assert_eq!(instance_status_args(15780), vec!["status", "--instance", "15780", "--json"]);
    let out = CliOutput { success: false, stdout: vec![], stderr: b"  pid 1 a\n  pid 2 b\n".to_vec() };
    match status_plan(&out, None) {
        StatusPlan::PerInstance(p) => assert_eq!(p, vec![1, 2]),
        _ => panic!("expected one query per instance"),
    }
    let v = StatusValue { mode: Some("client".to_string()), port_mappings: None };
    match status_plan(&out, Some(v)) {
        StatusPlan::Single(v) => assert_eq!(v.mode, Some("client".to_string())),
        _ => panic!("expected the single report"),
    }
}

#[test]
fn disconnect_plan() {
    assert_eq!(disconnect_commands(None), vec![vec!["stop"], vec!["quit"]]);
    let none = CliOutput { success: true, stdout: b"{}".to_vec(), stderr: vec![] };
    assert_eq!(disconnect_commands(Some(&none)), vec![vec!["stop"], vec!["quit"]]);
    let two = CliOutput { success: false, stdout: b"pid 15780 x\npid 22028 y".to_vec(), stderr: vec![] };
    assert_eq!(
        disconnect_commands(Some(&two)),
        vec![vec!["quit", "--instance", "15780"], vec!["quit", "--instance", "22028"]]
    );
}
