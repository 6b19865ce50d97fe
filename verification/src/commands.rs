//! The decisions and replies of the manager's commands, apart from the work they do on
//! the file system, on processes and in windows.

use vstd::prelude::*;
use vstd::string::StringExecFns;
use crate::text::{trim, trimmed};

verus! {

/// The reply when a command names a version that is not installed.
pub fn not_installed_message(version: &str) -> (r: String)
    ensures
        r@ == "版本 "@ + version@ + " 未安装"@,
{
    let mut m = String::from_str("版本 ");
    m.append(version);
    m.append(" 未安装");
    m
}

/// The reply to setting or clearing the default version.
pub fn default_changed_message(version: Option<&str>) -> (r: String)
    ensures
        version matches Some(v) ==> r@ == "默认版本已设为 "@ + v@ + "，dsh 命令已就绪"@,
        version is None ==> r@ == "已清除默认版本"@,
{
    match version {
        Some(v) => {
            let mut m = String::from_str("默认版本已设为 ");
            m.append(v);
            m.append("，dsh 命令已就绪");
            m
        },
        None => String::from_str("已清除默认版本"),
    }
}

/// The reply to turning data isolation of a version on or off.
pub fn isolation_changed_message(version: &str, on: bool) -> (r: String)
    ensures
        r@ == version@ + (if on {
            " 已开启数据隔离"@
        } else {
            " 已关闭数据隔离"@
        }),
{
    let mut m = String::from_str(version);
    if on {
        m.append(" 已开启数据隔离");
    } else {
        m.append(" 已关闭数据隔离");
    }
    m
}

/// The reply when copying into the isolated home of a version that is not isolated.
pub fn not_isolated_message(version: &str) -> (r: String)
    ensures
        r@ == version@ + " 未开启隔离"@,
{
    String::from_str(version).concat(" 未开启隔离")
}

/// The reply to setting the data root.
pub fn root_set_message(root: &str) -> (r: String)
    ensures
        r@ == "根目录已设为 "@ + root@,
{
    String::from_str("根目录已设为 ").concat(root)
}

/// The title of a version's window.
pub fn window_title(version: &str) -> (r: String)
    ensures
        r@ == "DSH "@ + version@,
{
    String::from_str("DSH ").concat(version)
}

/// The reply when a version's window is not open.
pub fn window_missing_message(label: &str) -> (r: String)
    ensures
        r@ == "窗口 "@ + label@ + " 不存在"@,
{
    let mut m = String::from_str("窗口 ");
    m.append(label);
    m.append(" 不存在");
    m
}

/// The reply once a version's window is open.
pub fn window_opened_message(version: &str) -> (r: String)
    ensures
        r@ == "已在窗口打开 DSH "@ + version@,
{
    String::from_str("已在窗口打开 DSH ").concat(version)
}

/// The reply once a desktop shortcut is written at `lnk`.
pub fn shortcut_created_message(lnk: &str) -> (r: String)
    ensures
        r@ == "已创建桌面快捷方式："@ + lnk@,
{
    String::from_str("已创建桌面快捷方式：").concat(lnk)
}

/// The reply when the desktop directory cannot be found.
pub fn desktop_missing_message() -> (r: String)
    ensures
        r@ == "无法定位桌面目录"@,
{
    String::from_str("无法定位桌面目录")
}

/// The outcome of writing a desktop shortcut at `lnk` with PowerShell: PowerShell's
/// success flag and error output, or the error that kept it from running.
pub fn shortcut_outcome(lnk: &str, run: Result<(bool, String), String>) -> (r: Result<String, String>)
    ensures
        run matches Ok(o) ==> (o.0 ==> (r matches Ok(p) && p@ == lnk@)),
        run matches Ok(o) ==> (!o.0 ==> (r matches Err(e) && e@ == "创建快捷方式失败: "@ + trim(o.1@))),
        run matches Err(x) ==> r matches Err(e) && e@ == "调用 PowerShell 失败: "@ + x@,
{
    match run {
        Ok((success, stderr)) => {
            if success {
                Ok(String::from_str(lnk))
            } else {
                let t = trimmed(stderr.as_str());
                Err(String::from_str("创建快捷方式失败: ").concat(t.as_str()))
            }
        },
        Err(x) => Err(String::from_str("调用 PowerShell 失败: ").concat(x.as_str())),
    }
}

/// The port a browser launch uses: 3080, or 0 (any free port) when 3080 is taken and the
/// user accepts another; none when the user cancels.
pub fn browser_port(default_in_use: bool, accept_random: bool) -> (r: Option<u16>)
    ensures
        !default_in_use ==> r == Some(3080u16),
        default_in_use && accept_random ==> r == Some(0u16),
        default_in_use && !accept_random ==> r is None,
{
    if !default_in_use {
        Some(3080)
    } else if accept_random {
        Some(0)
    } else {
        None
    }
}

/// The question asked before opening a browser for a version already open in a window.
pub fn already_open_question(version: &str) -> (r: String)
    ensures
        r@ == "版本 "@ + version@ + " 已在窗口打开，确定还要在浏览器再开一个吗？"@,
{
    let mut m = String::from_str("版本 ");
    m.append(version);
    m.append(" 已在窗口打开，确定还要在浏览器再开一个吗？");
    m
}

/// The question asked when the port 3080 is taken.
pub fn port_taken_question() -> (r: String)
    ensures
        r@ == "端口 3080 已被占用。\n\n点「用随机端口」将换一个空闲端口打开；点「取消」放弃本次操作。"@,
{
    String::from_str("端口 3080 已被占用。\n\n点「用随机端口」将换一个空闲端口打开；点「取消」放弃本次操作。")
}

/// The reply when the user cancels.
pub fn cancelled_message() -> (r: String)
    ensures
        r@ == "已取消"@,
{
    String::from_str("已取消")
}

/// The reply once a browser launch started: the launcher's message and the data directory.
pub fn browser_opened_message(launch_message: &str, home: &str) -> (r: String)
    ensures
        r@ == launch_message@ + "；数据目录："@ + home@,
{
    let mut m = String::from_str(launch_message);
    m.append("；数据目录：");
    m.append(home);
    m
}

/// The line logged when a quick launch fails.
pub fn launch_failure_log(version: &str, error: &str) -> (r: String)
    ensures
        r@ == "版本 "@ + version@ + " 启动失败: "@ + error@,
{
    let mut m = String::from_str("版本 ");
    m.append(version);
    m.append(" 启动失败: ");
    m.append(error);
    m
}

} // verus!
