use dsh_multiver::versions::{
    clear_isolated_report, copy_shared_to_isolated, friendly_error, install_failure_report,
    install_package_spec, install_report, installed_marker, isolated_home, list,
    missing_version_report, nothing_to_clear_report, npmrc_content, package_manifest, parse_stage,
    uninstall_report, version_cmp, version_dir, InstallFailure, IoFailure, StageTracker,
    completion_stage, install_args, starting_stage, InstallProgress,
};
use std::cmp::Ordering;

fn entry(name: &str) -> (String, String) {
    (name.to_string(), format!("/v/{}", name))
}

#[test]
fn version_order_is_numeric() {
    assert_eq!(version_cmp("0.10.0", "0.9.0"), Ordering::Greater);
    assert_eq!(version_cmp("v1", "1"), Ordering::Equal);
    assert_eq!(version_cmp("1.0", "1.0.0"), Ordering::Less);
    assert_eq!(version_cmp("1.99999999999999999999", "1"), Ordering::Equal);
    assert_eq!(version_cmp("2-beta.3", "2-beta.10"), Ordering::Less);
    assert_eq!(version_cmp("", "0"), Ordering::Less);
}

#[test]
fn list_sorts_and_marks() {
    let entries = vec![entry("0.10.0"), entry("0.2.0"), entry("0.9.1"), entry("v0.2")];
    let isolated = vec!["0.9.1".to_string()];
    let infos = list(entries, Some("0.2.0"), &isolated);
    let names: Vec<&str> = infos.iter().map(|i| i.version.as_str()).collect();
    // "0.2.0" and "v0.2" have keys [0,2,0] and [0,2]; the shorter comes first
    assert_eq!(names, vec!["v0.2", "0.2.0", "0.9.1", "0.10.0"]);
    assert!(infos[1].is_default);
    assert!(!infos[0].is_default);
    assert!(infos[2].isolated);
    assert!(!infos[3].isolated);
    assert_eq!(infos[3].path, "/v/0.10.0");
}

#[test]
fn list_keeps_order_of_equal_keys() {
    let entries = vec![entry("b1"), entry("a1"), entry("0")];
    let infos = list(entries, None, &[]);
    let names: Vec<&str> = infos.iter().map(|i| i.version.as_str()).collect();
    assert_eq!(names, vec!["0", "b1", "a1"]);
}

#[test]
fn stages_of_pnpm_output() {
    assert_eq!(parse_stage("Progress: resolved 10, reused 3, downloaded 0, added 0"), Some("正在解析依赖..."));
    assert_eq!(parse_stage("Packages: +120"), Some("正在计算依赖树..."));
    assert_eq!(parse_stage("Progress: resolved 10, downloaded 4"), Some("正在下载依赖包..."));
    assert_eq!(parse_stage("Progress: resolved 10, added 4"), Some("正在写入文件..."));
    assert_eq!(parse_stage("node_modules/esbuild postinstall$ node install.js"), Some("正在构建原生模块..."));
    assert_eq!(parse_stage("dependencies:"), Some("正在完成安装..."));
    assert_eq!(parse_stage("+ @deepseek-ai/dsh 0.1.5"), Some("正在完成安装..."));
    assert_eq!(parse_stage("Done in 3.2s"), Some("安装完成"));
    assert_eq!(parse_stage("WARN something"), None);
}

#[test]
fn tracker_announces_each_stage_once() {
    let mut t = StageTracker::new();
    assert_eq!(t.observe("Packages: +1"), Some("正在计算依赖树..."));
    assert_eq!(t.observe("Packages: +2"), None);
    assert_eq!(t.observe("noise"), None);
    assert_eq!(t.observe("Done in 1s"), Some("安装完成"));
    assert_eq!(t.observe("Packages: +3"), Some("正在计算依赖树..."));
}

#[test]
fn friendly_errors() {
    assert_eq!(
        friendly_error("ERR_PNPM_NO_MATCHING_VERSION x"),
        "该版本在官方源上发布不完整（依赖子包缺失），无法安装。\n建议换一个版本重试。\n\n原始信息：\nERR_PNPM_NO_MATCHING_VERSION x"
    );
    assert_eq!(friendly_error("ETIMEDOUT"), "网络连接失败，请检查网络或稍后重试。\n\n原始信息：\nETIMEDOUT");
    assert_eq!(friendly_error("boom"), "安装失败：\nboom");
}

#[test]
fn install_texts() {
    assert_eq!(
        package_manifest("0.1.5"),
        "{\n  \"name\": \"dsh-0.1.5\",\n  \"private\": true,\n  \"version\": \"0.0.0\"\n}\n"
    );
    assert_eq!(npmrc_content(), "node-linker=hoisted\n");
    assert_eq!(install_package_spec("0.1.5"), "@deepseek-ai/dsh@0.1.5");
    assert_eq!(install_report(true, "0.1.5", "x"), (true, "已安装 0.1.5".to_string()));
    assert_eq!(
        install_report(false, "0.1.5", "  ERR_PNPM_FETCH x \n"),
        (false, "网络连接失败，请检查网络或稍后重试。\n\n原始信息：\nERR_PNPM_FETCH x".to_string())
    );
}

#[test]
fn install_failures() {
    assert_eq!(install_failure_report("1", &InstallFailure::AlreadyInstalled), (false, "版本 1 已安装".to_string()));
    assert_eq!(install_failure_report("1", &InstallFailure::CreateDir("e".to_string())).1, "创建目录失败: e");
    assert_eq!(install_failure_report("1", &InstallFailure::WriteManifest("e".to_string())).1, "写入 package.json 失败: e");
    assert_eq!(install_failure_report("1", &InstallFailure::WriteNpmrc("e".to_string())).1, "写入 .npmrc 失败: e");
    assert_eq!(install_failure_report("1", &InstallFailure::Spawn("e".to_string())).1, "启动 pnpm 失败: e");
}

#[test]
fn uninstall_and_clear_reports() {
    assert_eq!(missing_version_report("1"), (false, "版本 1 不存在".to_string()));
    assert_eq!(uninstall_report("1", &Ok(())), (true, "已卸载 1".to_string()));
    let busy = IoFailure { message: "denied".to_string(), os_code: Some(32) };
    assert_eq!(
        uninstall_report("1", &Err(busy)).1,
        "卸载失败: denied\n\n可能该版本的 dsh 进程正在运行，持有文件。\n请先关闭对应的 dsh 窗口/终端，再重试。"
    );
    let other = IoFailure { message: "gone".to_string(), os_code: Some(2) };
    assert_eq!(uninstall_report("1", &Err(other)), (false, "卸载失败: gone".to_string()));
    assert_eq!(nothing_to_clear_report(), (true, "隔离目录不存在，无需清理".to_string()));
    assert_eq!(clear_isolated_report("1", &Ok(())), (true, "已清理 1 的隔离数据".to_string()));
    let busy2 = IoFailure { message: "denied".to_string(), os_code: Some(32) };
    assert_eq!(
        clear_isolated_report("1", &Err(busy2)).1,
        "清理失败: denied\n\n可能该版本的 dsh 进程正在运行，持有数据文件。\n请先关闭对应的 dsh 窗口/终端，再重试。"
    );
    let plain = IoFailure { message: "x".to_string(), os_code: None };
    assert_eq!(clear_isolated_report("1", &Err(plain)), (false, "清理失败: x".to_string()));
}

#[test]
fn copy_reports() {
    assert_eq!(copy_shared_to_isolated(0, None), (true, "已复制 0 个文件".to_string(), 0));
    assert_eq!(copy_shared_to_isolated(1234, None), (true, "已复制 1234 个文件".to_string(), 1234));
    assert_eq!(copy_shared_to_isolated(3, Some("full".to_string())), (false, "复制失败: full".to_string(), 3));
}

#[test]
fn version_paths() {
    assert_eq!(version_dir("/r/versions", "0.1"), "/r/versions/0.1");
    assert_eq!(installed_marker("/r/versions", "0.1"), "/r/versions/0.1/node_modules");
    assert_eq!(isolated_home("/r/versions", "0.1"), "/r/versions/0.1/home");
}

#[test]
fn version_order_is_a_total_preorder() {
    let samples = ["0.1", "0.10", "0.9.9", "v0.1", "1", "1.0", "", "x2y3"];
    for a in samples.iter() {
        assert_eq!(version_cmp(a, a), Ordering::Equal);
        for b in samples.iter() {
            assert_eq!(version_cmp(a, b), version_cmp(b, a).reverse());
            for c in samples.iter() {
                if version_cmp(a, b) != Ordering::Greater && version_cmp(b, c) != Ordering::Greater {
                    assert_ne!(version_cmp(a, c), Ordering::Greater);
                }
            }
        }
    }
}

#[test]
fn install_progress_collects_and_reports() {
    assert_eq!(starting_stage(), "正在启动 pnpm...");
    assert_eq!(completion_stage(true), Some("安装完成"));
    assert_eq!(completion_stage(false), None);
    let mut p = InstallProgress::new();
    assert_eq!(p.read_line("Packages: +1"), Some("正在计算依赖树..."));
    assert_eq!(p.read_line("Packages: +2"), None);
    assert_eq!(p.read_line(" ERR_PNPM_FETCH boom"), None);
    assert_eq!(p.report(true, "1"), (true, "已安装 1".to_string()));
    assert_eq!(
        p.report(false, "1"),
        (false, "网络连接失败，请检查网络或稍后重试。\n\n原始信息：\nPackages: +1\nPackages: +2\n ERR_PNPM_FETCH boom".to_string())
    );
    let expected: Vec<String> = vec![
        "add", "@deepseek-ai/dsh@0.1", "--store-dir", "/s", "--cache-dir", "/c", "--state-dir", "/t",
        "--config.confirmModulesPurge=false", "--config.dangerouslyAllowAllBuilds=true",
    ]
    .into_iter()
    .map(|x| x.to_string())
    .collect();
    assert_eq!(install_args("0.1", "/s", "/c", "/t"), expected);
}
