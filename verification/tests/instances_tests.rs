use unlim_connector::instances::{
    instance_pids_from, instance_pids_from_text, output_text, CliOutput,
};
use unlim_connector::text::{decimal_string, trim_str};

#[test]
fn parses_multiple_unlim_instances() {
    let text = "unlim: 2 instances are running — pick one:\n  pid 15780  client  :9800   1.5.82\n  pid 22028  client  :64232  1.5.82";
    assert_eq!(instance_pids_from_text(text), vec![15780, 22028]);
}

#[test]
fn pid_lines_with_crlf_and_noise() {
    let text = "header\r\npid 7\r\n  pid\t8\r\npid 9 x\r\npid +10\r\npid -11\r\npidx 12\r\n\r\npid 4294967295\npid 4294967296\n";
    assert_eq!(instance_pids_from_text(text), vec![7, 9, 10, 4294967295]);
}

#[test]
fn pid_lines_edge_cases() {
    assert_eq!(instance_pids_from_text(""), Vec::<u32>::new());
    assert_eq!(instance_pids_from_text("pid "), Vec::<u32>::new());
    assert_eq!(instance_pids_from_text("pid  0042  "), vec![42]);
    assert_eq!(instance_pids_from_text("pid +"), Vec::<u32>::new());
    assert_eq!(instance_pids_from_text("\u{3000}pid 5\u{3000}"), vec![5]);
    assert_eq!(instance_pids_from_text("PID 5"), Vec::<u32>::new());
}

#[test]
fn listed_pids_read_back() {
    let pids: Vec<u32> = vec![1, 65535, 0, 4000000000];
    let mut text = String::new();
    for p in &pids {
        text.push_str("  pid ");
        text.push_str(&decimal_string(*p as u64));
        text.push_str("  client\n");
    }
    assert_eq!(instance_pids_from_text(&text), pids);
}

#[test]
fn output_text_joins_streams() {
    assert_eq!(output_text(b"out", b"err"), "out\nerr");
    assert_eq!(output_text(b"a\xffb", b""), "a\u{FFFD}b\n");
}

#[test]
fn pids_from_both_streams() {
    let output = CliOutput { success: false, stdout: b"pid 3".to_vec(), stderr: b"pid 4\n".to_vec() };
    assert_eq!(instance_pids_from(&output), vec![3, 4]);
}

#[test]
fn decimal_and_trim() {
    assert_eq!(decimal_string(0), "0");
    assert_eq!(decimal_string(25565), "25565");
    assert_eq!(decimal_string(u64::MAX), "18446744073709551615");
    assert_eq!(trim_str("  a b \t\r\n"), "a b");
    assert_eq!(trim_str("\u{A0}x\u{2028}"), "x");
    assert_eq!(trim_str("   "), "");
}
