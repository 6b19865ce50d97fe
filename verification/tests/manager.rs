use dsh_multiver::config::{Config, Dirs};
use dsh_multiver::envcheck::{
    df_args, fields_exec, free_space_script, parse_df_free, parse_free_bytes,
    check_disk, check_node, check_pnpm, check_registry, check_writable, first_version_line,
    major_version, run_all,
};
use dsh_multiver::text::{chars_of, decimal_exec, trimmed};

fn cfg(root: Option<&str>, default: Option<&str>, isolated: &[&str]) -> Config {
    Config {
        root_dir: root.map(|s| s.to_string()),
        default_version: default.map(|s| s.to_string()),
        isolated_versions: isolated.iter().map(|s| s.to_string()).collect(),
    }
}

#[test]
fn default_config_is_empty() {
    let c = Config::default();
    assert!(c.root_dir.is_none());
    assert!(c.default_version.is_none());
    assert!(c.isolated_versions.is_empty());
    assert_eq!(Config::FILE_NAME, "config.json");
}

#[test]
fn resolve_root_prefers_configured_root() {
    assert_eq!(cfg(Some("/data"), None, &[]).resolve_root("/mgr"), "/data");
    assert_eq!(cfg(Some("  \t"), None, &[]).resolve_root("/mgr"), "/mgr");
    assert_eq!(cfg(None, None, &[]).resolve_root("/mgr"), "/mgr");
    // a configured root is used as written, not trimmed
    assert_eq!(cfg(Some(" /d "), None, &[]).resolve_root("/mgr"), " /d ");
}

#[test]
fn dirs_under_root() {
    let d = Dirs::new("/data".to_string());
    assert_eq!(d.root, "/data");
    assert_eq!(d.versions, "/data/versions");
    assert_eq!(d.home, "/data/home");
    assert_eq!(d.store, "/data/store");
    let e = Dirs::new("/data/".to_string());
    assert_eq!(e.versions, "/data/versions");
}

#[test]
fn forget_version_clears_default_and_isolation() {
    let mut c = cfg(None, Some("0.1"), &["0.1", "0.2", "0.1"]);
    assert!(c.forget_version("0.1"));
    assert!(c.default_version.is_none());
    assert_eq!(c.isolated_versions, vec!["0.2".to_string()]);
    assert!(!c.forget_version("0.1"));
    let mut d = cfg(None, Some("0.3"), &["0.2"]);
    assert!(!d.forget_version("0.9"));
    assert_eq!(d.default_version, Some("0.3".to_string()));
    assert_eq!(d.isolated_versions, vec!["0.2".to_string()]);
}

#[test]
fn isolation_on_off_and_twice() {
    let mut c = cfg(None, None, &["0.1", "0.2"]);
    c.set_isolation("0.1", true);
    assert_eq!(c.isolated_versions, vec!["0.2".to_string(), "0.1".to_string()]);
    assert!(c.is_isolated("0.1"));
    c.set_isolation("0.1", true);
    assert_eq!(c.isolated_versions, vec!["0.2".to_string(), "0.1".to_string()]);
    c.set_isolation("0.1", false);
    assert_eq!(c.isolated_versions, vec!["0.2".to_string()]);
    assert!(!c.is_isolated("0.1"));
    assert!(c.is_isolated("0.2"));
}

#[test]
fn forward_script_follows_configuration() {
    let none = cfg(None, None, &[]);
    assert!(none.forward_script("/mgr").is_none());
    let c = cfg(Some("/data"), Some("0.2"), &["0.2"]);
    let s = c.forward_script("/mgr").unwrap();
    assert!(s.contains("set \"ROOT=/data\"\r\n"));
    assert!(s.contains("set \"DSH_HOME_CANDIDATE=\\data\\versions\\0.2\\home\"\r\n"));
    let shared = cfg(None, Some("0.2"), &[]);
    let t = shared.forward_script("/mgr").unwrap();
    assert!(t.contains("set \"DSH_HOME_CANDIDATE=\\mgr\\home\"\r\n"));
}

#[test]
fn home_for_isolated_and_shared() {
    let d = Dirs::new("/r".to_string());
    let c = cfg(None, None, &["0.2"]);
    assert_eq!(c.home_for(&d, "0.2"), "/r/versions/0.2/home");
    assert_eq!(c.home_for(&d, "0.3"), "/r/home");
}

#[test]
fn major_version_reading() {
    assert_eq!(major_version("v22.19.0"), Some(22));
    assert_eq!(major_version("node 18"), Some(18));
    assert_eq!(major_version("abc"), None);
    assert_eq!(major_version(".5"), None);
    assert_eq!(major_version("99999999999.1"), None);
    assert_eq!(major_version("4294967295"), Some(4294967295));
}

#[test]
fn version_probe_first_line() {
    assert_eq!(first_version_line(true, "  v1\nsecond\n", ""), Some("v1".to_string()));
    assert_eq!(first_version_line(true, " \n", "  err line\r\nmore"), Some("err line".to_string()));
    assert_eq!(first_version_line(true, "", " "), None);
    assert_eq!(first_version_line(false, "v1", ""), None);
}

#[test]
fn node_check_threshold() {
    let ok = check_node(Some("v22.19.0".to_string()));
    assert!(ok.ok && ok.critical);
    assert_eq!(ok.name, "Node.js");
    assert_eq!(ok.detail, "v22.19.0（满足 >= 22）");
    let old = check_node(Some("v18.0.0".to_string()));
    assert!(!old.ok);
    assert_eq!(old.detail, "v18.0.0（需要 22 或更高）");
    let weird = check_node(Some("weird".to_string()));
    assert!(!weird.ok);
    let missing = check_node(None);
    assert!(!missing.ok);
    assert_eq!(missing.detail, "未找到 node 命令，请先安装 Node.js 22+");
}

#[test]
fn pnpm_writable_disk_checks() {
    let p = check_pnpm(Some("9.1.0".to_string()));
    assert!(p.ok && p.critical);
    assert_eq!(p.detail, "9.1.0");
    let q = check_pnpm(None);
    assert!(!q.ok);
    assert_eq!(q.detail, "未找到 pnpm 命令，请先安装 pnpm");
    let w = check_writable("/r", Ok(()));
    assert!(w.ok);
    assert_eq!(w.detail, "/r");
    assert_eq!(w.name, "根目录可写");
    let f = check_writable("/r", Err("denied".to_string()));
    assert!(!f.ok);
    assert_eq!(f.detail, "无法写入 /r: denied");
    let d = check_disk("/r", Some(2048));
    assert!(d.ok && !d.critical);
    assert_eq!(d.name, "磁盘空间");
    assert_eq!(d.detail, "目标：/r，剩余空间 2048 MB");
    let full = check_disk("/r", Some(0));
    assert!(full.ok && !full.critical);
    assert_eq!(full.detail, "目标：/r，剩余空间 0 MB");
    let unknown = check_disk("/r", None);
    assert!(unknown.ok && !unknown.critical);
    assert_eq!(unknown.detail, "目标：/r，无法获取剩余空间");
}

#[test]
fn registry_check_outcomes() {
    let a = check_registry(Ok((true, " 0.1.5\n".to_string(), String::new())));
    assert!(a.ok && !a.critical);
    assert_eq!(a.detail, "0.1.5");
    let b = check_registry(Ok((false, String::new(), "  ".to_string())));
    assert!(!b.ok);
    assert_eq!(b.detail, "无法访问 npm 源");
    let c = check_registry(Ok((false, String::new(), "ERR 1\nmore".to_string())));
    assert_eq!(c.detail, "ERR 1");
    let d = check_registry(Err("no pnpm".to_string()));
    assert!(!d.ok);
    assert_eq!(d.detail, "检查失败：no pnpm");
}

#[test]
fn all_checks_in_order() {
    let all = run_all(None, Some("9".to_string()), "/r", Ok(()), Some(10), Err("x".to_string()));
    let names: Vec<&str> = all.iter().map(|c| c.name.as_str()).collect();
    assert_eq!(names, vec!["Node.js", "pnpm", "根目录可写", "磁盘空间", "npm 源连通"]);
    assert!(!all[0].ok);
    assert!(all[1].ok);
    assert!(all[2].ok);
    assert!(all[3].ok);
    assert!(!all[4].ok);
}

#[test]
fn text_helpers() {
    assert_eq!(trimmed("\u{3000} a b \u{a0}\n"), "a b");
    assert_eq!(decimal_exec(0), "0");
    assert_eq!(decimal_exec(1234), "1234");
    assert_eq!(decimal_exec(u64::MAX), "18446744073709551615");
}

#[test]
fn isolation_removes_repeats_of_the_version() {
    let mut c = cfg(None, None, &["0.1", "0.2", "0.1"]);
    c.set_isolation("0.1", true);
    assert_eq!(c.isolated_versions, vec!["0.2".to_string(), "0.1".to_string()]);
}

#[test]
fn script_follows_isolation_of_default() {
    let mut c = cfg(Some("/data"), Some("0.2"), &[]);
    c.set_isolation("0.2", true);
    assert!(c.forward_script("/m").unwrap().contains("DSH_HOME_CANDIDATE=\\data\\versions\\0.2\\home\""));
    c.set_isolation("0.2", false);
    assert!(c.forward_script("/m").unwrap().contains("DSH_HOME_CANDIDATE=\\data\\home\""));
}

#[test]
fn free_space_readings() {
    let df = "Filesystem     1024-blocks      Used Available Capacity Mounted on\n/dev/sda1       102400000  51200000  20480000      72% /\n";
    assert_eq!(parse_df_free(df), Some(20000));
    assert_eq!(parse_df_free("Filesystem\n"), None);
    assert_eq!(parse_df_free("h\n/dev/x 1 2\n"), None);
    assert_eq!(parse_df_free("h\n/dev/x 1 2 -3 4% /\n"), None);
    assert_eq!(parse_free_bytes(" 1073741824\r\n"), Some(1024));
    assert_eq!(parse_free_bytes("1048575"), Some(0));
    assert_eq!(parse_free_bytes("n/a"), None);
    assert_eq!(parse_free_bytes(""), None);
    assert_eq!(parse_free_bytes("99999999999999999999"), None);
    assert_eq!(df_args("/r"), vec!["-Pk".to_string(), "/r".to_string()]);
    assert_eq!(
        free_space_script("C:\\it's"),
        "([System.IO.DriveInfo]::new([System.IO.Path]::GetPathRoot([System.IO.Path]::GetFullPath('C:\\it''s')))).AvailableFreeSpace"
    );
}

#[test]
fn fields_match_split_whitespace() {
    for s in ["", "  ", "a", " a  b\tc ", "x\u{3000}y", "one"] {
        let ours: Vec<String> = fields_exec(&chars_of(s)).iter().map(|f| f.iter().collect()).collect();
        let theirs: Vec<String> = s.split_whitespace().map(|f| f.to_string()).collect();
        assert_eq!(ours, theirs);
    }
}

#[test]
fn named_directories() {
    let d = Dirs::new("/r".to_string());
    assert_eq!(d.cache(), "/r/cache");
    assert_eq!(d.state(), "/r/state");
    assert_eq!(d.named("versions"), "/r/versions");
    assert_eq!(d.named("home"), "/r/home");
    assert_eq!(d.named("store"), "/r/store");
    assert_eq!(d.named("cache"), "/r/cache");
    assert_eq!(d.named("state"), "/r/state");
    assert_eq!(d.named("root"), "/r");
    assert_eq!(d.named("other"), "/r");
}
