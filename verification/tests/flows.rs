use dsh_multiver::install::{InstallAction, InstallEvent, InstallFlow};
use dsh_multiver::launch::{LaunchAction, LaunchEvent, LaunchFlow, LaunchMode};
use dsh_multiver::window::ProcTable;

fn fail_message<T>(a: LaunchAction<T>) -> (Option<T>, String) {
    match a {
        LaunchAction::Fail { stop, message } => (stop, message),
        _ => panic!("expected a failure"),
    }
}

#[test]
fn open_replaces_the_old_window_and_registers_the_new_process() {
    let mut table: ProcTable<u32> = ProcTable::new();
    table.insert("dsh-0_1_5".to_string(), 7, 100);
    let mut flow: LaunchFlow<u32> = LaunchFlow::new(LaunchMode::Open, "0.1.5");

    assert!(matches!(flow.advance(&mut table, LaunchEvent::Begin), LaunchAction::CheckInstalled));
    assert!(matches!(flow.advance(&mut table, LaunchEvent::Installed(true)), LaunchAction::StartWeb));
    // the old process stays registered while the new one starts
    assert!(table.contains("dsh-0_1_5"));
    let started = LaunchEvent::Started(Ok((200, "http://localhost:3080/?token=ab".to_string())));
    match flow.advance(&mut table, started) {
        LaunchAction::StopOld { process, close_window } => {
            assert_eq!(process, Some(100));
            assert!(close_window);
        }
        _ => panic!("expected the old process to be stopped"),
    }
    assert!(!table.contains("dsh-0_1_5"));
    let generation = match flow.advance(&mut table, LaunchEvent::OldStopped) {
        LaunchAction::BuildWindow { label, title, url, script } => {
            assert_eq!(label, "dsh-0_1_5");
            assert_eq!(title, "DSH 0.1.5");
            assert_eq!(url, "http://localhost:3080/?token=ab");
            assert!(script.contains("var VER = '0.1.5';"));
            assert!(script.contains("var URL = 'http://localhost:3080/?token=ab';"));
            1
        }
        _ => panic!("expected the window to be built"),
    };
    match flow.advance(&mut table, LaunchEvent::WindowBuilt(Ok(()))) {
        LaunchAction::Opened { label, generation: g, message } => {
            assert_eq!(label, "dsh-0_1_5");
            assert_eq!(g, generation);
            assert_eq!(message, "已在窗口打开 DSH 0.1.5");
        }
        _ => panic!("expected the window to be open"),
    }
    // the replaced window's close callback, of generation 7, leaves the new process alone
    assert_eq!(table.take_if_current("dsh-0_1_5", 7), None);
    assert_eq!(table.take_if_current("dsh-0_1_5", generation), Some(200));
    // a finished flow ignores further events
    assert!(matches!(flow.advance(&mut table, LaunchEvent::OldStopped), LaunchAction::Ignored));
}

#[test]
fn open_of_a_version_not_installed_fails_at_once() {
    let mut table: ProcTable<u32> = ProcTable::new();
    let mut flow: LaunchFlow<u32> = LaunchFlow::new(LaunchMode::Open, "9.9.9");
    flow.advance(&mut table, LaunchEvent::Begin);
    let (stop, message) = fail_message(flow.advance(&mut table, LaunchEvent::Installed(false)));
    assert_eq!(stop, None);
    assert_eq!(message, "版本 9.9.9 未安装");
}

#[test]
fn open_reports_start_failures() {
    let mut table: ProcTable<u32> = ProcTable::new();
    let mut flow: LaunchFlow<u32> = LaunchFlow::new(LaunchMode::Open, "1.0.0");
    flow.advance(&mut table, LaunchEvent::Begin);
    flow.advance(&mut table, LaunchEvent::Installed(true));
    let (_, message) = fail_message(flow.advance(&mut table, LaunchEvent::TaskFailed("panicked".to_string())));
    assert_eq!(message, "启动任务失败: panicked");

    let mut flow: LaunchFlow<u32> = LaunchFlow::new(LaunchMode::Open, "1.0.0");
    flow.advance(&mut table, LaunchEvent::Begin);
    flow.advance(&mut table, LaunchEvent::Installed(true));
    let (_, message) = fail_message(flow.advance(&mut table, LaunchEvent::Started(Err("dsh 启动超时".to_string()))));
    assert_eq!(message, "dsh 启动超时");
}

#[test]
fn open_stops_the_new_process_when_the_window_cannot_be_built() {
    let mut table: ProcTable<u32> = ProcTable::new();
    let mut flow: LaunchFlow<u32> = LaunchFlow::new(LaunchMode::Open, "1.0.0");
    flow.advance(&mut table, LaunchEvent::Begin);
    flow.advance(&mut table, LaunchEvent::Installed(true));
    flow.advance(&mut table, LaunchEvent::Started(Ok((5, "http://localhost:1/".to_string()))));
    flow.advance(&mut table, LaunchEvent::OldStopped);
    let (stop, message) = fail_message(flow.advance(&mut table, LaunchEvent::WindowBuilt(Err("no display".to_string()))));
    assert_eq!(stop, Some(5));
    assert_eq!(message, "创建窗口失败: no display");
    assert!(!table.contains("dsh-1_0_0"));
}

#[test]
fn open_with_an_unparsable_address_fails() {
    let mut table: ProcTable<u32> = ProcTable::new();
    let mut flow: LaunchFlow<u32> = LaunchFlow::new(LaunchMode::Open, "1.0.0");
    flow.advance(&mut table, LaunchEvent::Begin);
    flow.advance(&mut table, LaunchEvent::Installed(true));
    flow.advance(&mut table, LaunchEvent::Started(Ok((5, "bad".to_string()))));
    flow.advance(&mut table, LaunchEvent::OldStopped);
    let (stop, message) = fail_message(flow.advance(&mut table, LaunchEvent::UrlRejected("relative URL".to_string())));
    assert_eq!(stop, None);
    assert_eq!(message, "URL 解析失败: relative URL");
}

#[test]
fn restart_stops_the_old_process_before_starting_and_registers_the_new_one() {
    let mut table: ProcTable<u32> = ProcTable::new();
    let g_old = table.next_generation();
    table.insert("dsh-2_0".to_string(), g_old, 11);
    let mut flow: LaunchFlow<u32> = LaunchFlow::new(LaunchMode::Restart, "2.0");
    flow.advance(&mut table, LaunchEvent::Begin);
    match flow.advance(&mut table, LaunchEvent::Installed(true)) {
        LaunchAction::FindWindow { label } => assert_eq!(label, "dsh-2_0"),
        _ => panic!("expected the window to be looked up"),
    }
    match flow.advance(&mut table, LaunchEvent::WindowFound(true)) {
        LaunchAction::StopOld { process, close_window } => {
            assert_eq!(process, Some(11));
            assert!(!close_window);
        }
        _ => panic!("expected the old process to be stopped"),
    }
    assert!(!table.contains("dsh-2_0"));
    assert!(matches!(flow.advance(&mut table, LaunchEvent::OldStopped), LaunchAction::StartWeb));
    match flow.advance(&mut table, LaunchEvent::Started(Ok((12, "http://localhost:4000/".to_string())))) {
        LaunchAction::Navigate { url } => assert_eq!(url, "http://localhost:4000/"),
        _ => panic!("expected navigation"),
    }
    // the new process is registered with a fresh generation
    assert_eq!(table.take_if_current("dsh-2_0", g_old), None);
    assert_eq!(table.take_if_current("dsh-2_0", g_old + 1), Some(12));
    assert!(matches!(flow.advance(&mut table, LaunchEvent::Navigated(Ok(()))), LaunchAction::Restarted));
}

#[test]
fn restart_failures() {
    let mut table: ProcTable<u32> = ProcTable::new();
    let mut flow: LaunchFlow<u32> = LaunchFlow::new(LaunchMode::Restart, "2.0");
    flow.advance(&mut table, LaunchEvent::Begin);
    flow.advance(&mut table, LaunchEvent::Installed(true));
    let (_, message) = fail_message(flow.advance(&mut table, LaunchEvent::WindowFound(false)));
    assert_eq!(message, "窗口 dsh-2_0 不存在");

    let mut flow: LaunchFlow<u32> = LaunchFlow::new(LaunchMode::Restart, "2.0");
    flow.advance(&mut table, LaunchEvent::Begin);
    flow.advance(&mut table, LaunchEvent::Installed(true));
    flow.advance(&mut table, LaunchEvent::WindowFound(true));
    flow.advance(&mut table, LaunchEvent::OldStopped);
    let (_, message) = fail_message(flow.advance(&mut table, LaunchEvent::TaskFailed("cancelled".to_string())));
    assert_eq!(message, "重启任务失败: cancelled");

    let mut flow: LaunchFlow<u32> = LaunchFlow::new(LaunchMode::Restart, "2.0");
    flow.advance(&mut table, LaunchEvent::Begin);
    flow.advance(&mut table, LaunchEvent::Installed(true));
    flow.advance(&mut table, LaunchEvent::WindowFound(true));
    flow.advance(&mut table, LaunchEvent::OldStopped);
    flow.advance(&mut table, LaunchEvent::Started(Ok((3, "http://localhost:1/".to_string()))));
    let (_, message) = fail_message(flow.advance(&mut table, LaunchEvent::Navigated(Err("gone".to_string()))));
    assert_eq!(message, "窗口导航失败: gone");
}

#[test]
fn launch_events_out_of_order_are_ignored() {
    let mut table: ProcTable<u32> = ProcTable::new();
    table.insert("dsh-1".to_string(), 1, 1);
    let mut flow: LaunchFlow<u32> = LaunchFlow::new(LaunchMode::Open, "1");
    assert!(matches!(flow.advance(&mut table, LaunchEvent::OldStopped), LaunchAction::Ignored));
    assert!(matches!(flow.advance(&mut table, LaunchEvent::WindowFound(true)), LaunchAction::Ignored));
    assert!(table.contains("dsh-1"));
    assert!(matches!(flow.advance(&mut table, LaunchEvent::Begin), LaunchAction::CheckInstalled));
}

fn finish(a: InstallAction) -> (Option<&'static str>, bool, bool, String) {
    match a {
        InstallAction::Finish { stage, remove_dir, succeeded, message } => (stage, remove_dir, succeeded, message),
        _ => panic!("expected the install to end"),
    }
}

fn start_install(flow: &mut InstallFlow) {
    assert!(matches!(flow.advance(InstallEvent::Begin), InstallAction::CheckInstalled));
    assert!(matches!(flow.advance(InstallEvent::Installed(false)), InstallAction::CreateDir));
    match flow.advance(InstallEvent::Done(Ok(()))) {
        InstallAction::WriteFile { name, content } => {
            assert_eq!(name, "package.json");
            assert_eq!(content, "{\n  \"name\": \"dsh-0.2.0\",\n  \"private\": true,\n  \"version\": \"0.0.0\"\n}\n");
        }
        _ => panic!("expected package.json"),
    }
    match flow.advance(InstallEvent::Done(Ok(()))) {
        InstallAction::WriteFile { name, content } => {
            assert_eq!(name, ".npmrc");
            assert_eq!(content, "node-linker=hoisted\n");
        }
        _ => panic!("expected .npmrc"),
    }
    match flow.advance(InstallEvent::Done(Ok(()))) {
        InstallAction::StartPnpm { stage, args } => {
            assert_eq!(stage, "正在启动 pnpm...");
            assert_eq!(
                args,
                vec![
                    "add", "@deepseek-ai/dsh@0.2.0", "--store-dir", "/s", "--cache-dir", "/c",
                    "--state-dir", "/t", "--config.confirmModulesPurge=false",
                    "--config.dangerouslyAllowAllBuilds=true",
                ]
            );
        }
        _ => panic!("expected pnpm to be started"),
    }
}

#[test]
fn install_announces_each_stage_once_and_succeeds() {
    let mut flow = InstallFlow::new("0.2.0", "/s", "/c", "/t");
    start_install(&mut flow);
    assert!(matches!(flow.advance(InstallEvent::Done(Ok(()))), InstallAction::ReadOutput { stage: None }));
    let mut announced = Vec::new();
    for line in [
        "Progress: resolved 1, reused 0, downloaded 0, added 0",
        "Progress: resolved 2, reused 1, downloaded 0, added 0",
        "Packages: +12",
        "Done in 3.1s",
    ] {
        match flow.advance(InstallEvent::Line(line.to_string())) {
            InstallAction::ReadOutput { stage } => announced.extend(stage),
            _ => panic!("expected more output to be read"),
        }
    }
    assert_eq!(announced, vec!["正在解析依赖...", "正在计算依赖树...", "安装完成"]);
    assert!(matches!(flow.advance(InstallEvent::OutputEnded), InstallAction::WaitExit));
    let (stage, remove_dir, succeeded, message) = finish(flow.advance(InstallEvent::Exited(true)));
    assert_eq!(stage, Some("安装完成"));
    assert!(!remove_dir && succeeded);
    assert_eq!(message, "已安装 0.2.0");
    assert!(matches!(flow.advance(InstallEvent::Exited(true)), InstallAction::Ignored));
}

#[test]
fn failed_install_removes_the_directory_with_a_friendly_message() {
    let mut flow = InstallFlow::new("0.2.0", "/s", "/c", "/t");
    start_install(&mut flow);
    flow.advance(InstallEvent::Done(Ok(())));
    flow.advance(InstallEvent::Line(" ERR_PNPM_FETCH_404 not found".to_string()));
    flow.advance(InstallEvent::OutputEnded);
    let (stage, remove_dir, succeeded, message) = finish(flow.advance(InstallEvent::Exited(false)));
    assert_eq!(stage, None);
    assert!(remove_dir && !succeeded);
    assert_eq!(message, "网络连接失败，请检查网络或稍后重试。\n\n原始信息：\nERR_PNPM_FETCH_404 not found");
}

#[test]
fn install_stops_early_on_each_preparation_failure() {
    let mut flow = InstallFlow::new("0.2.0", "/s", "/c", "/t");
    flow.advance(InstallEvent::Begin);
    let (_, remove_dir, succeeded, message) = finish(flow.advance(InstallEvent::Installed(true)));
    assert!(!remove_dir && !succeeded);
    assert_eq!(message, "版本 0.2.0 已安装");

    let mut flow = InstallFlow::new("0.2.0", "/s", "/c", "/t");
    flow.advance(InstallEvent::Begin);
    flow.advance(InstallEvent::Installed(false));
    let (_, remove_dir, _, message) = finish(flow.advance(InstallEvent::Done(Err("denied".to_string()))));
    assert!(!remove_dir);
    assert_eq!(message, "创建目录失败: denied");

    let mut flow = InstallFlow::new("0.2.0", "/s", "/c", "/t");
    flow.advance(InstallEvent::Begin);
    flow.advance(InstallEvent::Installed(false));
    flow.advance(InstallEvent::Done(Ok(())));
    let (_, _, _, message) = finish(flow.advance(InstallEvent::Done(Err("full".to_string()))));
    assert_eq!(message, "写入 package.json 失败: full");

    let mut flow = InstallFlow::new("0.2.0", "/s", "/c", "/t");
    flow.advance(InstallEvent::Begin);
    flow.advance(InstallEvent::Installed(false));
    flow.advance(InstallEvent::Done(Ok(())));
    flow.advance(InstallEvent::Done(Ok(())));
    let (_, _, _, message) = finish(flow.advance(InstallEvent::Done(Err("full".to_string()))));
    assert_eq!(message, "写入 .npmrc 失败: full");

    let mut flow = InstallFlow::new("0.2.0", "/s", "/c", "/t");
    start_install(&mut flow);
    let (stage, remove_dir, succeeded, message) = finish(flow.advance(InstallEvent::Done(Err("pnpm not found".to_string()))));
    assert_eq!(stage, None);
    assert!(remove_dir && !succeeded);
    assert_eq!(message, "启动 pnpm 失败: pnpm not found");
}
