use dsh_multiver::commands::{
    already_open_question, browser_opened_message, browser_port, cancelled_message,
    default_changed_message, isolation_changed_message, not_installed_message, shortcut_outcome,
    window_missing_message,
};
use dsh_multiver::launcher::{
    console_launch_report, escape_ps, missing_entry_message, parse_url, web_args, web_entry,
    web_wait_step,
    WebWaitAction, WebWaitEvent,
};
use dsh_multiver::actions::{registry_probe_args, remote_listing_args};
use dsh_multiver::window::ProcTable;

#[test]
fn url_from_dsh_output() {
    assert_eq!(
        parse_url("dsh web: http://127.0.0.1:5173/?token=abc  extra"),
        Some("http://127.0.0.1:5173/?token=abc".to_string())
    );
    assert_eq!(parse_url("listening at http://localhost:3080/ now"), Some("http://localhost:3080/".to_string()));
    assert_eq!(parse_url("dsh web: http://example.com:80/"), None);
    assert_eq!(parse_url("nothing here"), None);
    assert_eq!(parse_url("dsh web:"), None);
}

#[test]
fn entry_point_path() {
    assert_eq!(web_entry("/v/0.1", false), "/v/0.1/node_modules/.bin/dsh");
    assert_eq!(web_entry("/v/0.1", true), "/v/0.1/node_modules/.bin/dsh.cmd");
    assert_eq!(missing_entry_message("/x"), "找不到启动入口: /x");
}

#[test]
fn waiting_for_the_address() {
    match web_wait_step(WebWaitEvent::Url("http://127.0.0.1:1/".to_string())) {
        WebWaitAction::Ready(u) => assert_eq!(u, "http://127.0.0.1:1/"),
        _ => panic!("expected ready"),
    }
    assert!(matches!(
        web_wait_step(WebWaitEvent::Tick { past_deadline: false, exit_status: None }),
        WebWaitAction::KeepWaiting
    ));
    match web_wait_step(WebWaitEvent::Tick { past_deadline: true, exit_status: None }) {
        WebWaitAction::Stop { kill, message } => {
            assert!(kill);
            assert_eq!(message, "启动超时：30 秒内未解析到 dsh web 地址");
        }
        _ => panic!("expected stop"),
    }
    match web_wait_step(WebWaitEvent::Tick { past_deadline: false, exit_status: Some("exit status: 1".to_string()) }) {
        WebWaitAction::Stop { kill, message } => {
            assert!(!kill);
            assert_eq!(message, "dsh web 进程提前退出（状态: exit status: 1）");
        }
        _ => panic!("expected stop"),
    }
    match web_wait_step(WebWaitEvent::Closed) {
        WebWaitAction::Stop { kill, message } => {
            assert!(kill);
            assert_eq!(message, "未能从 dsh web 输出中解析到访问地址（输出格式可能已变化）");
        }
        _ => panic!("expected stop"),
    }
}

#[test]
fn console_launch() {
    assert_eq!(console_launch_report(Ok(())), (true, "已在新终端启动 dsh web，稍候会自动打开浏览器".to_string()));
    assert_eq!(console_launch_report(Err("nope".to_string())), (false, "启动失败: nope".to_string()));
}

#[test]
fn process_table_generations() {
    let mut t: ProcTable<u32> = ProcTable::new();
    let g1 = t.next_generation();
    let g2 = t.next_generation();
    assert_eq!((g1, g2), (1, 2));
    assert_eq!(t.insert("dsh-0_1".to_string(), g1, 100), None);
    assert!(t.contains("dsh-0_1"));
    // the window is replaced: the old process is taken out, the new one registered
    assert_eq!(t.take("dsh-0_1"), Some(100));
    assert_eq!(t.insert("dsh-0_1".to_string(), g2, 200), None);
    // the old window's close callback changes nothing
    assert_eq!(t.take_if_current("dsh-0_1", g1), None);
    assert!(t.contains("dsh-0_1"));
    assert_eq!(t.take_if_current("dsh-0_1", g2), Some(200));
    assert!(!t.contains("dsh-0_1"));
}

#[test]
fn process_table_insert_replaces_and_drains() {
    let mut t: ProcTable<u32> = ProcTable::new();
    assert_eq!(t.insert("a".to_string(), 1, 10), None);
    assert_eq!(t.insert("a".to_string(), 2, 20), Some(10));
    assert_eq!(t.insert("b".to_string(), 3, 30), None);
    let mut all = t.drain();
    all.sort();
    assert_eq!(all, vec![20, 30]);
    assert!(!t.contains("a"));
    assert_eq!(t.take("b"), None);
}

#[test]
fn command_replies() {
    assert_eq!(not_installed_message("0.1"), "版本 0.1 未安装");
    assert_eq!(default_changed_message(Some("0.1")), "默认版本已设为 0.1，dsh 命令已就绪");
    assert_eq!(default_changed_message(None), "已清除默认版本");
    assert_eq!(isolation_changed_message("0.1", true), "0.1 已开启数据隔离");
    assert_eq!(isolation_changed_message("0.1", false), "0.1 已关闭数据隔离");
    assert_eq!(already_open_question("0.1"), "版本 0.1 已在窗口打开，确定还要在浏览器再开一个吗？");
    assert_eq!(cancelled_message(), "已取消");
    assert_eq!(browser_opened_message("ok", "/h"), "ok；数据目录：/h");
}

#[test]
fn browser_port_choice() {
    assert_eq!(browser_port(false, false), Some(3080));
    assert_eq!(browser_port(true, true), Some(0));
    assert_eq!(browser_port(true, false), None);
}

#[test]
fn shortcut_outcomes() {
    assert_eq!(shortcut_outcome("/d/DSH 1.lnk", Ok((true, String::new()))), Ok("/d/DSH 1.lnk".to_string()));
    assert_eq!(
        shortcut_outcome("/d/x.lnk", Ok((false, " denied \n".to_string()))),
        Err("创建快捷方式失败: denied".to_string())
    );
    assert_eq!(shortcut_outcome("/d/x.lnk", Err("no ps".to_string())), Err("调用 PowerShell 失败: no ps".to_string()));
}

#[test]
fn powershell_escape_round_trip() {
    for s in ["it's", "''", "'", "plain", "a''b'''c", ""] {
        assert_eq!(escape_ps(s), s.replace('\'', "''"));
        assert_eq!(escape_ps(s).replace("''", "'"), s);
    }
    assert_eq!(escape_ps("it's"), "it''s");
}

#[test]
fn command_arguments() {
    assert_eq!(web_args(true, 0), vec!["web", "--port", "0", "--no-open"]);
    assert_eq!(web_args(false, 3080), vec!["web", "--port", "3080"]);
    assert_eq!(web_args(false, 0), vec!["web", "--port", "0"]);
    assert_eq!(registry_probe_args(), vec!["view", "@deepseek-ai/dsh", "version"]);
    assert_eq!(
        remote_listing_args("/s", "/c", "/t"),
        vec!["view", "@deepseek-ai/dsh", "versions", "--json", "--store-dir", "/s", "--cache-dir", "/c", "--state-dir", "/t"]
    );
    assert_eq!(window_missing_message("dsh-1"), "窗口 dsh-1 不存在");
}
