use dsh_multiver::actions::{build_forward_script, interpret_remote_listing, remote_versions, versions_from_listing};
use dsh_multiver::window::{build_topbar_script, parse_launch_version, window_label};
use dsh_multiver::launcher::{build_shortcut_script, escape_ps, shortcut_file_name};

const TAIL: &str = "set \"BIN=%ROOT%\\versions\\%VER%\\node_modules\\.bin\\dsh.cmd\"\r\nif not exist \"%BIN%\" (\r\n  echo [dsh] version %VER% not found at %BIN%\r\n  exit /b 1\r\n)\r\nif exist \"%DSH_HOME_CANDIDATE%\" (\r\n  set \"DSH_HOME=%DSH_HOME_CANDIDATE%\"\r\n) else (\r\n  echo [dsh] 数据目录不存在，回退到 dsh 默认位置: %DSH_HOME_CANDIDATE%\r\n)\r\ncall \"%BIN%\" %*\r\n";

#[test]
fn forward_script_shared_home() {
    let s = build_forward_script("0.1.5", "D:/dsh", false);
    let expected = format!(
        "@echo off\r\nsetlocal\r\nset \"VER=0.1.5\"\r\nset \"ROOT=D:/dsh\"\r\nset \"DSH_HOME_CANDIDATE=D:\\dsh\\home\"\r\n{}",
        TAIL
    );
    assert_eq!(s, expected);
}

#[test]
fn forward_script_isolated_home() {
    let s = build_forward_script("0.2.0", "C:\\data\\", true);
    let expected = format!(
        "@echo off\r\nsetlocal\r\nset \"VER=0.2.0\"\r\nset \"ROOT=C:\\data\\\"\r\nset \"DSH_HOME_CANDIDATE=C:\\data\\versions\\0.2.0\\home\"\r\n{}",
        TAIL
    );
    assert_eq!(s, expected);
}

#[test]
fn forward_script_empty_root() {
    let s = build_forward_script("1", "", false);
    assert!(s.contains("set \"DSH_HOME_CANDIDATE=\\home\"\r\n"));
    assert!(s.contains("set \"ROOT=\"\r\n"));
}

#[test]
fn remote_json_array_is_reversed() {
    let v = remote_versions("  [\"0.1.0\", \"0.1.1\", \"0.2.0\"]\n");
    assert_eq!(v, vec!["0.2.0".to_string(), "0.1.1".to_string(), "0.1.0".to_string()]);
}

#[test]
fn remote_nested_json_takes_first_list() {
    let v = remote_versions("[[\"1.0\", \"1.1\"], [\"9\"]]");
    assert_eq!(v, vec!["1.1".to_string(), "1.0".to_string()]);
    let empty = remote_versions("[]");
    assert!(empty.is_empty());
}

#[test]
fn remote_line_listing_is_cleaned() {
    // quotes are stripped before commas, so a quote before a trailing comma stays
    let v = remote_versions("[\n  \"0.1.0\",\n  \"0.1.1\"\n");
    assert_eq!(v, vec!["0.1.1".to_string(), "0.1.0\"".to_string()]);
    let plain = remote_versions("0.3.0\r\n\r\n0.4.0");
    assert_eq!(plain, vec!["0.4.0".to_string(), "0.3.0".to_string()]);
}

#[test]
fn remote_from_given_readings() {
    let v = versions_from_listing("ignored", Some(vec!["a".to_string(), "b".to_string()]), None);
    assert_eq!(v, vec!["b".to_string(), "a".to_string()]);
    let w = versions_from_listing("x\ny", None, Some(vec![]));
    assert!(w.is_empty());
    let z = versions_from_listing("x\n\"y\",", None, None);
    assert_eq!(z, vec!["y\"".to_string(), "x".to_string()]);
}

#[test]
fn remote_listing_failure_uses_error_output() {
    let (ok, list, msg) = interpret_remote_listing(false, "out", "ERR boom");
    assert!(!ok);
    assert!(list.is_empty());
    assert_eq!(msg, "ERR boom");
    let (ok2, _, msg2) = interpret_remote_listing(false, "only stdout", " \n ");
    assert!(!ok2);
    assert_eq!(msg2, "only stdout");
    let (ok3, list3, msg3) = interpret_remote_listing(true, "[\"1\"]", "warn");
    assert!(ok3);
    assert_eq!(list3, vec!["1".to_string()]);
    assert_eq!(msg3, "");
}

#[test]
fn window_label_sanitizes() {
    assert_eq!(window_label("0.1.5"), "dsh-0_1_5");
    assert_eq!(window_label("a-b/c:d_e f"), "dsh-a-b/c:d_e_f");
    assert_eq!(window_label(""), "dsh-");
    assert_eq!(window_label("版本"), "dsh-__");
}

#[test]
fn launch_version_from_arguments() {
    let args = vec!["app.exe".to_string(), "--launch-version".to_string(), "0.1.5".to_string()];
    assert_eq!(parse_launch_version(&args), Some("0.1.5".to_string()));
    let last = vec!["app.exe".to_string(), "--launch-version".to_string()];
    assert_eq!(parse_launch_version(&last), None);
    let none = vec!["app.exe".to_string()];
    assert_eq!(parse_launch_version(&none), None);
    let twice = vec![
        "--launch-version".to_string(),
        "1".to_string(),
        "--launch-version".to_string(),
        "2".to_string(),
    ];
    assert_eq!(parse_launch_version(&twice), Some("1".to_string()));
}

#[test]
fn topbar_script_escapes_version_and_url() {
    let s = build_topbar_script("0.1'5", "http://127.0.0.1:3/?token=a\\b");
    assert!(s.starts_with("(function() {\n  if (window.__dshBarInjected) return;\n  window.__dshBarInjected = true;\n  var VER = '0.1\\'5';\n  var URL = 'http://127.0.0.1:3/?token=a\\\\b';\n  function inject() {\n"));
    assert!(s.ends_with("  if (document.readyState === 'loading') document.addEventListener('DOMContentLoaded', inject);\n  else inject();\n})();\n"));
}

#[test]
fn powershell_escape_doubles_quotes() {
    assert_eq!(escape_ps("it's"), "it''s");
    assert_eq!(escape_ps("''"), "''''");
    assert_eq!(escape_ps("plain"), "plain");
}

#[test]
fn shortcut_script_text() {
    assert_eq!(shortcut_file_name("0.1.5"), "DSH 0.1.5.lnk");
    let s = build_shortcut_script("/home/u/Desktop/DSH 1.lnk", "/opt/app/dsh's.exe", "1");
    assert_eq!(
        s,
        "$ws = New-Object -ComObject WScript.Shell; $lnk = $ws.CreateShortcut('/home/u/Desktop/DSH 1.lnk'); $lnk.TargetPath = '/opt/app/dsh''s.exe'; $lnk.Arguments = '--launch-version 1'; $lnk.WorkingDirectory = '/opt/app'; $lnk.Save()"
    );
    let bare = build_shortcut_script("x.lnk", "/", "2");
    assert!(bare.contains("$lnk.WorkingDirectory = '.'"));
}
