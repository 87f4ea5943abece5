use unlim_connector::install::{
    eq_ignore_ascii_case, install_plan, install_step, io_failure_message, pending_action,
    DownloadCheck, DownloadInfo, DownloadOutcome, InstallAction, InstallEvent, InstallPlan,
    InstallStage, IoStep, UnlimMap,
};

const HELLO_SHA256: &str = "2cf24dba5fb0a30e26e83b2ac5b9e29e1b161e5c1fa7425e73043362938b9824";

fn map() -> UnlimMap {
    UnlimMap {
        version: "1.5.82".to_string(),
        downloads: vec![
            ("windows_arm64".to_string(), "https://example.invalid/arm".to_string()),
            ("windows_amd64".to_string(), "https://example.invalid/amd".to_string()),
        ],
        hashes: vec![(
            "windows_amd64".to_string(),
            DownloadInfo { sha256: HELLO_SHA256.to_string(), size: 5 },
        )],
    }
}

fn plan() -> InstallPlan {
    install_plan(&map(), "x86_64", Some("R".to_string())).unwrap()
}

#[test]
fn plan_for_platform() {
    let p = plan();
    assert_eq!(p.version, "1.5.82");
    assert_eq!(p.url, "https://example.invalid/amd");
    assert_eq!(p.sha256, HELLO_SHA256);
    assert_eq!(p.size, 5);
    assert_eq!(p.target.parts, vec!["R", "Woollest SMP Connector", "unlim", "unlim.exe"]);
    assert_eq!(p.temporary.parts[3], "unlim.exe.download");
    assert_eq!(p.backup.parts[3], "unlim.exe.previous");
    assert_eq!(p.version_file.parts[3], "version.txt");
    assert_eq!(p.directory.parts.len(), 3);
}

#[test]
fn plan_errors_in_order() {
    let err = |m: &UnlimMap, arch: &str, a: Option<&str>| {
        install_plan(m, arch, a.map(|s| s.to_string())).err().unwrap()
    };
    assert_eq!(err(&map(), "mips", None), "未対応のCPUです: mips");
    assert_eq!(err(&map(), "aarch64", None), "Unlimの検証情報がありません。");
    let mut m = map();
    m.downloads.clear();
    assert_eq!(err(&m, "x86_64", None), "このWindows用のUnlim配布URLがありません。");
    assert_eq!(err(&map(), "x86_64", None), "AppDataフォルダを取得できません。");
}

#[test]
fn download_check_accepts_published_build() {
    let mut c = DownloadCheck::new(5);
    assert!(c.accept(b"he"));
    assert!(c.accept(b"llo"));
    assert!(c.verify(&HELLO_SHA256.to_uppercase()));
}

#[test]
fn download_check_rejects() {
    let mut c = DownloadCheck::new(5);
    assert!(!c.accept(b"hello!"));
    let mut c = DownloadCheck::new(5);
    assert!(c.accept(b"hell"));
    assert!(!c.verify(HELLO_SHA256));
    let mut c = DownloadCheck::new(5);
    assert!(c.accept(b"hellO"));
    assert!(!c.verify(HELLO_SHA256));
}

#[test]
fn ascii_case_comparison() {
    assert!(eq_ignore_ascii_case("AbC-ü", "aBc-ü"));
    assert!(!eq_ignore_ascii_case("Ü", "ü"));
    assert!(!eq_ignore_ascii_case("ab", "abc"));
}

#[test]
fn failure_messages() {
    assert_eq!(io_failure_message(&IoStep::Request, "timeout"), "Unlimをダウンロードできません: timeout");
    assert_eq!(io_failure_message(&IoStep::Sync, "x"), "Unlimの保存を確定できません: x");
}

fn finish(s: &InstallStage) -> Option<Result<String, String>> {
    match pending_action(&plan(), s) {
        InstallAction::Finish(r) => Some(r),
        _ => None,
    }
}

#[test]
fn up_to_date_installation() {
    let p = plan();
    let s = install_step(&p, InstallStage::Inspecting, InstallEvent::Inspected { exists: true, recorded: Some("1.5.82\n".to_string()) });
    assert!(matches!(pending_action(&p, &s), InstallAction::ProbeTarget));
    let s = install_step(&p, s, InstallEvent::Probed(true));
    assert_eq!(finish(&s), Some(Ok("Unlim 1.5.82 は最新です。".to_string())));
}

#[test]
fn full_installation() {
    let p = plan();
    let mut s = InstallStage::Inspecting;
    let events = vec![
        InstallEvent::Inspected { exists: true, recorded: Some("1.5.81".to_string()) },
        InstallEvent::Connected(false),
        InstallEvent::Downloaded(DownloadOutcome::Complete { verified: true }),
        InstallEvent::Removed,
        InstallEvent::Exists(true),
        InstallEvent::Renamed(Ok(())),
        InstallEvent::Renamed(Ok(())),
        InstallEvent::Probed(true),
    ];
    let expected = [
        "CheckConnected", "Download", "RemoveBackup", "CheckTarget", "RenameTargetToBackup",
        "RenameTemporaryToTarget", "ProbeTarget", "WriteVersionFile",
    ];
    for (e, want) in events.into_iter().zip(expected) {
        s = install_step(&p, s, e);
        let a = pending_action(&p, &s);
        let name = match &a {
            InstallAction::CheckConnected => "CheckConnected",
            InstallAction::Download => "Download",
            InstallAction::RemoveBackup => "RemoveBackup",
            InstallAction::CheckTarget => "CheckTarget",
            InstallAction::RenameTargetToBackup => "RenameTargetToBackup",
            InstallAction::RenameTemporaryToTarget => "RenameTemporaryToTarget",
            InstallAction::ProbeTarget => "ProbeTarget",
            InstallAction::WriteVersionFile(c) => {
                assert_eq!(c, "1.5.82\n");
                "WriteVersionFile"
            },
            _ => "other",
        };
        assert_eq!(name, want);
    }
    s = install_step(&p, s, InstallEvent::Written(Ok(())));
    assert!(matches!(pending_action(&p, &s), InstallAction::RemoveBackup));
    s = install_step(&p, s, InstallEvent::Removed);
    assert_eq!(finish(&s), Some(Ok("Unlim 1.5.82 を安全に導入しました。".to_string())));
    let s = install_step(&p, s, InstallEvent::Removed);
    assert_eq!(finish(&s), Some(Ok("Unlim 1.5.82 を安全に導入しました。".to_string())));
}

#[test]
fn installation_failures() {
    let p = plan();
    let s = install_step(&p, InstallStage::CheckingConnection, InstallEvent::Connected(true));
    assert_eq!(finish(&s), Some(Ok("接続中のためUnlim更新は次回起動時に行います。".to_string())));

    let s = install_step(&p, InstallStage::Downloading, InstallEvent::Downloaded(DownloadOutcome::TooLarge));
    assert!(matches!(pending_action(&p, &s), InstallAction::RemoveTemporary));
    let s = install_step(&p, s, InstallEvent::Removed);
    assert_eq!(finish(&s), Some(Err("Unlimのファイルサイズが検証値を超えました。".to_string())));

    let s = install_step(&p, InstallStage::Downloading, InstallEvent::Downloaded(DownloadOutcome::Complete { verified: false }));
    let s = install_step(&p, s, InstallEvent::Removed);
    assert_eq!(finish(&s), Some(Err("UnlimのSHA-256検証に失敗しました。ファイルは使用しません。".to_string())));

    let s = install_step(&p, InstallStage::Downloading, InstallEvent::Downloaded(DownloadOutcome::Failed { step: IoStep::Write, detail: "disk full".to_string() }));
    assert_eq!(finish(&s), Some(Err("Unlimを保存できません: disk full".to_string())));

    let s = install_step(&p, InstallStage::BackingUp, InstallEvent::Renamed(Err("denied".to_string())));
    assert_eq!(finish(&s), Some(Err("旧Unlimを退避できません: denied".to_string())));

    let s = install_step(&p, InstallStage::Swapping, InstallEvent::Renamed(Err("busy".to_string())));
    assert!(matches!(pending_action(&p, &s), InstallAction::CheckBackup));
    let s = install_step(&p, s, InstallEvent::Exists(true));
    assert!(matches!(pending_action(&p, &s), InstallAction::RenameBackupToTarget));
    let s = install_step(&p, s, InstallEvent::Renamed(Ok(())));
    assert_eq!(finish(&s), Some(Err("新しいUnlimへ切り替えられません: busy".to_string())));

    let s = install_step(&p, InstallStage::ProbingNew, InstallEvent::Probed(false));
    assert!(matches!(pending_action(&p, &s), InstallAction::RemoveTarget));
    let s = install_step(&p, s, InstallEvent::Removed);
    let s = install_step(&p, s, InstallEvent::Exists(false));
    assert_eq!(finish(&s), Some(Err("更新後のUnlimを実行できないため、旧版へ戻しました。".to_string())));

    let s = install_step(&p, InstallStage::Recording, InstallEvent::Written(Err("ro".to_string())));
    assert_eq!(finish(&s), Some(Err("Unlimのバージョンを記録できません: ro".to_string())));

    // an answer to another action leaves the stage as it is
    let s = install_step(&p, InstallStage::Downloading, InstallEvent::Removed);
    assert!(matches!(pending_action(&p, &s), InstallAction::Download));
}

#[test]
fn missing_version_file_counts_as_blank() {
    let p = plan();
    let s = install_step(&p, InstallStage::Inspecting, InstallEvent::Inspected { exists: true, recorded: None });
    assert!(matches!(pending_action(&p, &s), InstallAction::CheckConnected));
    let s = install_step(&p, InstallStage::Inspecting, InstallEvent::Inspected { exists: false, recorded: Some("1.5.82".to_string()) });
    assert!(matches!(pending_action(&p, &s), InstallAction::CheckConnected));
}
