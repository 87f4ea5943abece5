use unlim_connector::instances::CliOutput;
use unlim_connector::paths::{
    candidate_paths, find_unlim, managed_dir, managed_unlim, platform_key, run_failure_message,
    unlim_missing_error, unlim_version, version_in_text, FindStep, UnlimPath,
};

fn parts(p: &UnlimPath) -> Vec<&str> {
    p.parts.iter().map(|s| s.as_str()).collect()
}

#[test]
fn managed_locations() {
    let d = managed_dir(Some("C:\\Users\\a\\AppData\\Roaming".to_string())).unwrap();
    assert_eq!(parts(&d), vec!["C:\\Users\\a\\AppData\\Roaming", "Woollest SMP Connector", "unlim"]);
    let u = managed_unlim(Some("R".to_string())).unwrap();
    assert_eq!(parts(&u), vec!["R", "Woollest SMP Connector", "unlim", "unlim.exe"]);
    assert_eq!(managed_unlim(None).err().unwrap(), "AppDataフォルダを取得できません。");
}

#[test]
fn candidates_in_order() {
    let c = candidate_paths(Some("A".to_string()), Some("L".to_string()), Some("R".to_string()));
    let got: Vec<Vec<&str>> = c.iter().map(parts).collect();
    assert_eq!(got, vec![
        vec!["A", "Woollest SMP Connector", "unlim", "unlim.exe"],
        vec!["unlim.exe"],
        vec!["L", "Unlim", "unlim.exe"],
        vec!["L", "Unlim", "bin", "unlim.exe"],
        vec!["R", "unlim", "bin", "unlim.exe"],
    ]);
    let c = candidate_paths(None, None, None);
    assert_eq!(c.len(), 1);
    assert_eq!(parts(&c[0]), vec!["unlim.exe"]);
}

#[test]
fn search_for_unlim() {
    let c = candidate_paths(None, Some("L".to_string()), None);
    assert!(matches!(find_unlim(&c, &vec![]), FindStep::Probe(0)));
    assert!(matches!(find_unlim(&c, &vec![false]), FindStep::Probe(1)));
    assert!(matches!(find_unlim(&c, &vec![false, true]), FindStep::Found(1)));
    assert!(matches!(find_unlim(&c, &vec![false, false, false]), FindStep::Missing));
    assert!(matches!(find_unlim(&vec![], &vec![]), FindStep::Missing));
}

#[test]
fn version_probe() {
    let ok = CliOutput { success: true, stdout: b" unlim 1.5.82\r\n".to_vec(), stderr: vec![] };
    assert_eq!(unlim_version(Some(&ok)), Some("unlim 1.5.82".to_string()));
    let failed = CliOutput { success: false, stdout: b"1.5.82".to_vec(), stderr: vec![] };
    assert_eq!(unlim_version(Some(&failed)), None);
    let blank = CliOutput { success: true, stdout: b" \n".to_vec(), stderr: vec![] };
    assert_eq!(unlim_version(Some(&blank)), None);
    assert_eq!(unlim_version(None), None);
    let bad = CliOutput { success: true, stdout: b"v\xff".to_vec(), stderr: vec![] };
    assert_eq!(unlim_version(Some(&bad)), Some("v\u{FFFD}".to_string()));
}

#[test]
fn platform_names() {
    assert_eq!(platform_key("x86_64"), Ok("windows_amd64"));
    assert_eq!(platform_key("aarch64"), Ok("windows_arm64"));
    assert_eq!(platform_key("riscv64"), Err("未対応のCPUです: riscv64".to_string()));
}

#[test]
fn version_text_and_run_errors() {
    assert_eq!(version_in_text("\t1.5.82 \n"), Some("1.5.82".to_string()));
    assert_eq!(version_in_text(" \r\n"), None);
    assert_eq!(unlim_missing_error(), "Unlimが見つかりません。自動セットアップを実行してください。");
    assert_eq!(run_failure_message("denied"), "Unlimを実行できません: denied");
}
