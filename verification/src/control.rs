//! The state of the application as it is shown, what is answered to requests that stop
//! a task or clear data, and to the outcome of switching the start at login.

use crate::calendar::CivilTime;
use crate::number::{decimal, decimal_of};
use crate::store::{opt_log, LogEntry};
use crate::text::{chars_of, contains_str, contains_text, lowered, to_lower};
use vstd::prelude::*;

verus! {

/// The state of the application.
#[derive(Debug, Clone)]
pub struct AppStatus {
    pub cdp_connected: bool,
    pub chrome_installed: bool,
    pub active_cdp_port: Option<u16>,
    pub next_run: Option<CivilTime>,
    pub last_result: Option<LogEntry>,
    pub is_running: bool,
    pub cancel_requested: bool,
}

/// The state of the application: it is connected where a port answers, and its last
/// result is the last entry of the log.
pub fn app_status(
    active_cdp_port: Option<u16>,
    chrome_installed: bool,
    next_run: Option<CivilTime>,
    logs: &Vec<LogEntry>,
    is_running: bool,
    cancel_requested: bool,
) -> (r: AppStatus)
    ensures
        r.cdp_connected == (active_cdp_port is Some),
        r.chrome_installed == chrome_installed,
        r.active_cdp_port == active_cdp_port,
        r.next_run == next_run,
        opt_log(r.last_result) == if logs@.len() == 0 {
            None
        } else {
            Some(logs@.last()@)
        },
        r.is_running == is_running,
        r.cancel_requested == cancel_requested,
{
    let last_result: Option<LogEntry> = if logs.len() == 0 {
        None
    } else {
        let e: &LogEntry = &logs[logs.len() - 1];
        Some(
            LogEntry {
                timestamp: e.timestamp,
                level: e.level.clone(),
                message: e.message.clone(),
            },
        )
    };
    AppStatus {
        cdp_connected: active_cdp_port.is_some(),
        chrome_installed,
        active_cdp_port,
        next_run,
        last_result,
        is_running,
        cancel_requested,
    }
}

/// What is told when a task is asked to stop.
pub fn stop_message(is_running: bool) -> (r: &'static str)
    ensures
        r@ == if is_running {
            "已请求终止保活任务，正在等待当前步骤收尾"@
        } else {
            "已请求终止测试/保活任务"@
        },
{
    if is_running {
        "已请求终止保活任务，正在等待当前步骤收尾"
    } else {
        "已请求终止测试/保活任务"
    }
}

/// Why the data of the browser cannot be cleared now.
pub fn clear_refusal(is_running: bool) -> (r: Option<&'static str>)
    ensures
        crate::text::opt_str(r) == if is_running {
            Some("保活任务执行中，请等待结束后再清除浏览器数据"@)
        } else {
            None
        },
{
    if is_running {
        Some("保活任务执行中，请等待结束后再清除浏览器数据")
    } else {
        None
    }
}

/// What the clearing of a profile on disk comes to.
pub open spec fn offline_clearing(in_use: bool, exists: bool) -> Result<usize, Seq<char>> {
    if in_use {
        Err("专用 Chrome 正在运行，请关闭专用 Chrome 后再清除离线浏览器数据"@)
    } else if exists {
        Ok(1)
    } else {
        Ok(0)
    }
}

/// How many profiles on disk are to be cleared, or why none can be.
pub fn profiles_to_clear(in_use: bool, exists: bool) -> (r: Result<usize, String>)
    ensures
        match r {
            Ok(n) => offline_clearing(in_use, exists) == Ok::<usize, Seq<char>>(n),
            Err(e) => offline_clearing(in_use, exists) == Err::<usize, Seq<char>>(e@),
        },
{
    if in_use {
        Err("专用 Chrome 正在运行，请关闭专用 Chrome 后再清除离线浏览器数据".to_string())
    } else if exists {
        Ok(1)
    } else {
        Ok(0)
    }
}

/// How the data of the browser were cleared.
#[derive(Debug, Clone, Copy, PartialEq, Eq, Structural)]
pub enum Cleared {
    /// By the running browser behind a port.
    Live { port: u16 },
    /// On disk, with the number of profiles that there were.
    Offline { profiles: usize },
}

/// What is told of data that were cleared.
pub fn cleared_message(cleared: Cleared) -> (r: String)
    ensures
        r@ == match cleared {
            Cleared::Live { port } => "已通过 CDP 清除专用 Chrome 浏览器数据：localhost:"@
                + decimal(port as nat),
            Cleared::Offline { profiles } => if profiles == 0 {
                "专用 Chrome 浏览器数据为空，无需清除"@
            } else {
                "已清除专用 Chrome Profile，Cookie、Local Storage 和缓存将在下次启动时重新生成"@
            },
        },
{
    match cleared {
        Cleared::Live { port } => "已通过 CDP 清除专用 Chrome 浏览器数据：localhost:".to_string().concat(
        decimal_of(port as u64).as_str()),
        Cleared::Offline { profiles } => if profiles == 0 {
            "专用 Chrome 浏览器数据为空，无需清除".to_string()
        } else {
            "已清除专用 Chrome Profile，Cookie、Local Storage 和缓存将在下次启动时重新生成".to_string()
        },
    }
}

/// Whether a message says that the program was not set to start at login anyway.
pub open spec fn says_entry_missing(message: Seq<char>) -> bool {
    contains_text(lowered(message), "os error 2"@) || contains_text(
        lowered(message),
        "not found"@,
    ) || contains_text(message, "找不到指定的文件"@)
}

/// Whether a message says that the program was not set to start at login anyway.
pub fn is_auto_launch_entry_missing(message: &str) -> (r: bool)
    ensures
        r == says_entry_missing(message@),
{
    let chars: Vec<char> = chars_of(message);
    let lower: Vec<char> = to_lower(chars.as_slice());
    contains_str(lower.as_slice(), "os error 2") || contains_str(lower.as_slice(), "not found")
        || contains_str(chars.as_slice(), "找不到指定的文件")
}

/// What to do about the start at login.
#[derive(Debug, Clone, Copy, PartialEq, Eq, Structural)]
pub enum AutoLaunchStep {
    Nothing,
    Enable,
    Disable,
}

/// What to do about the start at login; `current` is what is set, where that is known.
pub fn auto_launch_step(current: Option<bool>, enabled: bool) -> (r: AutoLaunchStep)
    ensures
        r == if current == Some(enabled) {
            AutoLaunchStep::Nothing
        } else if enabled {
            AutoLaunchStep::Enable
        } else {
            AutoLaunchStep::Disable
        },
{
    let same: bool = match current {
        Some(b) => b == enabled,
        None => false,
    };
    if same {
        AutoLaunchStep::Nothing
    } else if enabled {
        AutoLaunchStep::Enable
    } else {
        AutoLaunchStep::Disable
    }
}

/// What switching off the start at login comes to: it is no failure that it was off.
pub fn disabled_auto_launch(result: Result<(), String>) -> (r: Result<(), String>)
    ensures
        r is Ok <==> result is Ok || says_entry_missing(result->Err_0@),
        r matches Err(e) ==> e@ == result->Err_0@,
{
    match result {
        Ok(_) => Ok(()),
        Err(message) => if is_auto_launch_entry_missing(message.as_str()) {
            Ok(())
        } else {
            Err(message)
        },
    }
}

/// The entry for starting with the system is changed exactly where it is not as asked for, and
/// then to what is asked for.
pub proof fn auto_launch_becomes_what_is_asked(
    current: Option<bool>,
    enabled: bool,
    r: AutoLaunchStep,
)
    requires
        call_ensures(auto_launch_step, (current, enabled), r),
    ensures
        r is Nothing <==> current == Some(enabled),
        r is Enable ==> enabled,
        r is Disable ==> !enabled,
{
}

/// The data on disk are cleared exactly where no browser uses them.
pub proof fn profile_in_use_is_not_cleared(in_use: bool, exists: bool)
    ensures
        offline_clearing(in_use, exists) is Err <==> in_use,
        offline_clearing(in_use, exists) matches Ok(n) ==> (n == 1 <==> exists) && n <= 1,
{
}

} // verus!
