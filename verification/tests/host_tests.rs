use unlim_connector::host::{
    host_attempt, host_reply_outcome, host_reply_text, is_allowed_action, reply_from_texts,
    ssh_args, ssh_failed_message, HostAttempt, HostReply,
};
use unlim_connector::instances::CliOutput;

#[test]
fn allowed_actions() {
    for a in ["status", "start", "stop", "restart", "backup", "logs", "players", "unlim-start", "unlim-stop", "unlim-share"] {
        assert!(is_allowed_action(a));
    }
    assert!(!is_allowed_action("rm"));
    assert!(!is_allowed_action("Status"));
}

#[test]
fn ssh_invocation() {
    assert_eq!(
        ssh_args("wls-server.local", "logs"),
        vec!["-o", "BatchMode=yes", "-o", "ConnectTimeout=8", "woollest@wls-server.local", "/home/woollest/minecraft/wsm-agent", "logs"]
    );
}

#[test]
fn reply_text() {
    let out = |o: &[u8], e: &[u8]| CliOutput { success: true, stdout: o.to_vec(), stderr: e.to_vec() };
    assert_eq!(host_reply_text(&out(b" {\"ok\":true}\n", b"warn")), Ok("{\"ok\":true}".to_string()));
    assert_eq!(host_reply_text(&out(b"  ", b" denied \n")), Err("denied".to_string()));
    assert_eq!(host_reply_text(&out(b"", b"")), Err("ノートPCから応答がありません。".to_string()));
}

#[test]
fn reply_outcome() {
    assert_eq!(host_reply_outcome(true, "x", None), Err("応答を読み取れませんでした: x".to_string()));
    assert_eq!(host_reply_outcome(true, "x", Some(HostReply { ok: true, error: None })), Ok(()));
    assert_eq!(
        host_reply_outcome(false, "x", Some(HostReply { ok: true, error: Some("boom".to_string()) })),
        Err("boom".to_string())
    );
    assert_eq!(host_reply_outcome(true, "x", Some(HostReply { ok: false, error: None })), Err("操作に失敗しました。".to_string()));
}

#[test]
fn host_fallback() {
    match host_attempt("rm", &vec![]) {
        HostAttempt::GiveUp(m) => assert_eq!(m, "許可されていない操作です。"),
        _ => panic!("must refuse"),
    }
    match host_attempt("status", &vec![]) {
        HostAttempt::Try(h) => assert_eq!(h, "wls-server.local"),
        _ => panic!("must try"),
    }
    match host_attempt("status", &vec!["a".to_string()]) {
        HostAttempt::Try(h) => assert_eq!(h, "192.168.1.75"),
        _ => panic!("must try"),
    }
    match host_attempt("status", &vec!["a".to_string(), "b".to_string()]) {
        HostAttempt::GiveUp(m) => assert_eq!(m, "接続できませんでした。\na\nb"),
        _ => panic!("must give up"),
    }
}

#[test]
fn reply_from_stream_texts() {
    assert_eq!(reply_from_texts(" a ", "b"), Ok("a".to_string()));
    assert_eq!(reply_from_texts("\n", " b "), Err("b".to_string()));
    assert_eq!(reply_from_texts("", "\t"), Err("ノートPCから応答がありません。".to_string()));
    assert_eq!(ssh_failed_message("no ssh"), "SSHを起動できません: no ssh");
}
