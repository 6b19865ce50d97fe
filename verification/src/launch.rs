//! The order of the steps that open a version's window or restart the dsh behind it, as a
//! state machine: each step takes what the last action came to and gives the next action.
//! The work itself (checking the disk, starting processes, building windows) is the
//! caller's; the table of running processes is changed here.

use vstd::prelude::*;
use vstd::string::StringExecFns;
use crate::commands::{not_installed_message, window_missing_message, window_opened_message, window_title};
use crate::window::{build_topbar_script, label_of, topbar_script, window_label, ProcTable};

verus! {

/// Which command a flow carries out.
#[derive(Clone, Copy, PartialEq, Eq, Structural)]
pub enum LaunchMode {
    /// Start the version's dsh and open its window, replacing one open under its label.
    Open,
    /// Start the dsh behind the version's open window anew and point the window at it.
    Restart,
}

/// Where a flow stands.
#[derive(Clone, Copy, PartialEq, Eq, Structural)]
pub enum LaunchStep {
    /// Not begun.
    Idle,
    /// Waiting to hear whether the version is installed.
    CheckingInstalled,
    /// Waiting to hear whether the version's window is open (restart only).
    FindingWindow,
    /// Waiting for the old process to be stopped.
    StoppingOld,
    /// Waiting for `dsh web` to start and print its address.
    Starting,
    /// Waiting for the window to be built (open only).
    Building,
    /// Waiting for the window to be pointed at the new address (restart only).
    Navigating,
    /// Done; every further event is ignored.
    Finished,
}

/// What the last action came to.
pub enum LaunchEvent<T> {
    /// The command was given.
    Begin,
    /// Whether the version is installed.
    Installed(bool),
    /// Whether the version's window is open.
    WindowFound(bool),
    /// The old process was stopped (and the old window closed, where asked).
    OldStopped,
    /// The background task that starts dsh failed, with its error.
    TaskFailed(String),
    /// `dsh web` started, with its process and address, or failed with a message.
    Started(Result<(T, String), String>),
    /// The address could not be parsed, with the parser's error.
    UrlRejected(String),
    /// The window was built, or failed to be.
    WindowBuilt(Result<(), String>),
    /// The window was pointed at the address, or failed to be.
    Navigated(Result<(), String>),
}

/// What the caller does next.
pub enum LaunchAction<T> {
    /// Check whether the version is installed; answer with `Installed`.
    CheckInstalled,
    /// Look for the window under `label`; answer with `WindowFound`.
    FindWindow { label: String },
    /// Stop `process` if there is one and, if `close_window`, close the window under the
    /// version's label; answer with `OldStopped`.
    StopOld { process: Option<T>, close_window: bool },
    /// Start the version's `dsh web` in the background; answer with `Started` or
    /// `TaskFailed`.
    StartWeb,
    /// Parse `url` and build the window; answer with `UrlRejected` or `WindowBuilt`.
    BuildWindow { label: String, title: String, url: String, script: String },
    /// Parse `url` and point the window at it; answer with `UrlRejected` or `Navigated`.
    Navigate { url: String },
    /// The window is open and its process registered with `generation`: when the window
    /// is destroyed, stop the process registered under `label` with that generation.
    /// The command succeeds with `message`.
    Opened { label: String, generation: u64, message: String },
    /// The restart is done; the command succeeds.
    Restarted,
    /// Stop `stop` if there is one; the command fails with `message`.
    Fail { stop: Option<T>, message: String },
    /// The event does not belong to this step; nothing changed.
    Ignored,
}

/// A run of the open or the restart command for one version.
pub struct LaunchFlow<T> {
    mode: LaunchMode,
    step: LaunchStep,
    version: String,
    url: String,
    pending: Option<T>,
    generation: u64,
}

/// The failure of the background task that starts dsh, as each command reports it.
pub open spec fn task_failure_text(mode: LaunchMode, e: Seq<char>) -> Seq<char> {
    match mode {
        LaunchMode::Open => "启动任务失败: "@ + e,
        LaunchMode::Restart => "重启任务失败: "@ + e,
    }
}

/// Whether `event` answers the action of `step`.
pub open spec fn expects<T>(step: LaunchStep, event: LaunchEvent<T>) -> bool {
    match event {
        LaunchEvent::Begin => step == LaunchStep::Idle,
        LaunchEvent::Installed(_) => step == LaunchStep::CheckingInstalled,
        LaunchEvent::WindowFound(_) => step == LaunchStep::FindingWindow,
        LaunchEvent::OldStopped => step == LaunchStep::StoppingOld,
        LaunchEvent::TaskFailed(_) => step == LaunchStep::Starting,
        LaunchEvent::Started(_) => step == LaunchStep::Starting,
        LaunchEvent::UrlRejected(_) => step == LaunchStep::Building || step == LaunchStep::Navigating,
        LaunchEvent::WindowBuilt(_) => step == LaunchStep::Building,
        LaunchEvent::Navigated(_) => step == LaunchStep::Navigating,
    }
}

/// The table is as it was.
pub open spec fn table_kept<T>(before: ProcTable<T>, after: ProcTable<T>) -> bool {
    after.map() == before.map() && after.upcoming() == before.upcoming()
}

/// The generation handed out after `g`.
pub open spec fn generation_after(g: u64) -> u64 {
    if g == u64::MAX {
        0
    } else {
        (g + 1) as u64
    }
}

/// `a` ends the command with `message` and stops nothing.
pub open spec fn fails_with<T>(a: LaunchAction<T>, message: Seq<char>) -> bool {
    a matches LaunchAction::Fail { stop, message: m } && stop is None && m@ == message
}

impl<T> LaunchFlow<T> {
    #[verifier::type_invariant]
    closed spec fn well_formed(self) -> bool {
        &&& self.step == LaunchStep::FindingWindow ==> self.mode == LaunchMode::Restart
        &&& self.step == LaunchStep::Navigating ==> self.mode == LaunchMode::Restart
        &&& self.step == LaunchStep::Building ==> self.mode == LaunchMode::Open && self.pending is Some
        &&& (self.step == LaunchStep::StoppingOld && self.mode == LaunchMode::Open) ==> self.pending is Some
    }

    /// The command carried out.
    pub closed spec fn mode(&self) -> LaunchMode {
        self.mode
    }

    /// Where the flow stands.
    pub closed spec fn step(&self) -> LaunchStep {
        self.step
    }

    /// The version whose window is opened or restarted.
    pub closed spec fn version(&self) -> Seq<char> {
        self.version@
    }

    /// The address printed by the started dsh, once it has started.
    pub closed spec fn url(&self) -> Seq<char> {
        self.url@
    }

    /// The started process, while it is neither registered nor handed back.
    pub closed spec fn pending(&self) -> Option<T> {
        self.pending
    }

    /// The generation handed out for the new window.
    pub closed spec fn generation(&self) -> u64 {
        self.generation
    }

    /// A flow of `mode` for `version`, not begun.
    pub fn new(mode: LaunchMode, version: &str) -> (f: Self)
        ensures
            f.mode() == mode,
            f.step() == LaunchStep::Idle,
            f.version() == version@,
            f.pending() is None,
    {
        LaunchFlow {
            mode,
            step: LaunchStep::Idle,
            version: String::from_str(version),
            url: String::new(),
            pending: None,
            generation: 0,
        }
    }

    /// Takes what the last action came to and gives the next action, changing `table`
    /// where the command registers or removes a process.
    ///
    /// Opening: installed? → start `dsh web` → take the label's old process out of the
    /// table, stop it and close the old window → hand out a generation → build the
    /// window → register the new process under the label with that generation.
    /// Restarting: installed? → window open? → take the old process out and stop it →
    /// start `dsh web` → register the new process with a new generation → point the
    /// window at the new address.
    pub fn advance(&mut self, table: &mut ProcTable<T>, event: LaunchEvent<T>) -> (a: LaunchAction<T>)
        ensures
            final(self).mode() == old(self).mode(),
            final(self).version() == old(self).version(),
            !expects(old(self).step(), event) ==> {
                &&& a is Ignored
                &&& *final(self) == *old(self)
                &&& table_kept(*old(table), *final(table))
            },
            expects(old(self).step(), event) ==> match event {
                LaunchEvent::Begin => {
                    &&& a is CheckInstalled
                    &&& final(self).step() == LaunchStep::CheckingInstalled
                    &&& table_kept(*old(table), *final(table))
                },
                LaunchEvent::Installed(installed) => {
                    &&& table_kept(*old(table), *final(table))
                    &&& !installed ==> {
                        &&& final(self).step() == LaunchStep::Finished
                        &&& fails_with(a, "版本 "@ + old(self).version() + " 未安装"@)
                    }
                    &&& (installed && old(self).mode() == LaunchMode::Open) ==> {
                        &&& final(self).step() == LaunchStep::Starting
                        &&& a is StartWeb
                    }
                    &&& (installed && old(self).mode() == LaunchMode::Restart) ==> {
                        &&& final(self).step() == LaunchStep::FindingWindow
                        &&& a matches LaunchAction::FindWindow { label } && label@ == label_of(old(self).version())
                    }
                },
                LaunchEvent::WindowFound(found) => {
                    &&& old(self).mode() == LaunchMode::Restart
                    &&& !found ==> {
                        &&& final(self).step() == LaunchStep::Finished
                        &&& fails_with(a, "窗口 "@ + label_of(old(self).version()) + " 不存在"@)
                        &&& table_kept(*old(table), *final(table))
                    }
                    &&& found ==> {
                        &&& final(self).step() == LaunchStep::StoppingOld
                        &&& final(table).map() == old(table).map().remove(label_of(old(self).version()))
                        &&& final(table).upcoming() == old(table).upcoming()
                        &&& a matches LaunchAction::StopOld { process, close_window }
                        &&& !close_window
                        &&& process == (if old(table).map().contains_key(label_of(old(self).version())) {
                            Some(old(table).map()[label_of(old(self).version())].1)
                        } else {
                            None
                        })
                    }
                },
                LaunchEvent::OldStopped => {
                    &&& old(self).mode() == LaunchMode::Restart ==> {
                        &&& final(self).step() == LaunchStep::Starting
                        &&& a is StartWeb
                        &&& table_kept(*old(table), *final(table))
                    }
                    &&& old(self).mode() == LaunchMode::Open ==> {
                        &&& final(self).step() == LaunchStep::Building
                        &&& final(self).generation() == old(table).upcoming()
                        &&& final(self).pending() == old(self).pending()
                        &&& final(self).url() == old(self).url()
                        &&& final(table).map() == old(table).map()
                        &&& final(table).upcoming() == generation_after(old(table).upcoming())
                        &&& a matches LaunchAction::BuildWindow { label, title, url, script }
                        &&& label@ == label_of(old(self).version())
                        &&& title@ == "DSH "@ + old(self).version()
                        &&& url@ == old(self).url()
                        &&& script@ == topbar_script(old(self).version(), old(self).url())
                    }
                },
                LaunchEvent::TaskFailed(e) => {
                    &&& final(self).step() == LaunchStep::Finished
                    &&& fails_with(a, task_failure_text(old(self).mode(), e@))
                    &&& table_kept(*old(table), *final(table))
                },
                LaunchEvent::Started(outcome) => match outcome {
                    Err(m) => {
                        &&& final(self).step() == LaunchStep::Finished
                        &&& fails_with(a, m@)
                        &&& table_kept(*old(table), *final(table))
                    },
                    Ok((process, url)) => {
                        &&& old(self).mode() == LaunchMode::Open ==> {
                            &&& final(self).step() == LaunchStep::StoppingOld
                            &&& final(self).pending() == Some(process)
                            &&& final(self).url() == url@
                            &&& final(table).map() == old(table).map().remove(label_of(old(self).version()))
                            &&& final(table).upcoming() == old(table).upcoming()
                            &&& a matches LaunchAction::StopOld { process: old_process, close_window }
                            &&& close_window
                            &&& old_process == (if old(table).map().contains_key(label_of(old(self).version())) {
                                Some(old(table).map()[label_of(old(self).version())].1)
                            } else {
                                None
                            })
                        }
                        &&& old(self).mode() == LaunchMode::Restart ==> {
                            &&& final(self).step() == LaunchStep::Navigating
                            &&& final(table).map() == old(table).map().insert(
                                label_of(old(self).version()),
                                (old(table).upcoming(), process),
                            )
                            &&& final(table).upcoming() == generation_after(old(table).upcoming())
                            &&& a matches LaunchAction::Navigate { url: to } && to@ == url@
                        }
                    },
                },
                LaunchEvent::UrlRejected(e) => {
                    &&& final(self).step() == LaunchStep::Finished
                    &&& final(self).pending() is None
                    &&& fails_with(a, "URL 解析失败: "@ + e@)
                    &&& table_kept(*old(table), *final(table))
                },
                LaunchEvent::WindowBuilt(built) => {
                    &&& old(self).mode() == LaunchMode::Open
                    &&& old(self).pending() is Some
                    &&& final(self).step() == LaunchStep::Finished
                    &&& final(self).pending() is None
                    &&& final(table).upcoming() == old(table).upcoming()
                    &&& match built {
                        Err(e) => {
                            &&& final(table).map() == old(table).map()
                            &&& a matches LaunchAction::Fail { stop, message }
                            &&& stop == old(self).pending()
                            &&& message@ == "创建窗口失败: "@ + e@
                        },
                        Ok(()) => {
                            &&& final(table).map() == old(table).map().insert(
                                label_of(old(self).version()),
                                (old(self).generation(), old(self).pending().unwrap()),
                            )
                            &&& a matches LaunchAction::Opened { label, generation, message }
                            &&& label@ == label_of(old(self).version())
                            &&& generation == old(self).generation()
                            &&& message@ == "已在窗口打开 DSH "@ + old(self).version()
                        },
                    }
                },
                LaunchEvent::Navigated(done) => {
                    &&& final(self).step() == LaunchStep::Finished
                    &&& table_kept(*old(table), *final(table))
                    &&& match done {
                        Err(e) => fails_with(a, "窗口导航失败: "@ + e@),
                        Ok(()) => a is Restarted,
                    }
                },
            },
    {
        proof {
            use_type_invariant(&*self);
        }
        match event {
            LaunchEvent::Begin => {
                if self.step != LaunchStep::Idle {
                    return LaunchAction::Ignored;
                }
                self.step = LaunchStep::CheckingInstalled;
                LaunchAction::CheckInstalled
            },
            LaunchEvent::Installed(installed) => {
                if self.step != LaunchStep::CheckingInstalled {
                    return LaunchAction::Ignored;
                }
                if !installed {
                    self.step = LaunchStep::Finished;
                    return LaunchAction::Fail {
                        stop: None,
                        message: not_installed_message(self.version.as_str()),
                    };
                }
                match self.mode {
                    LaunchMode::Open => {
                        self.step = LaunchStep::Starting;
                        LaunchAction::StartWeb
                    },
                    LaunchMode::Restart => {
                        self.step = LaunchStep::FindingWindow;
                        LaunchAction::FindWindow { label: window_label(self.version.as_str()) }
                    },
                }
            },
            LaunchEvent::WindowFound(found) => {
                if self.step != LaunchStep::FindingWindow {
                    return LaunchAction::Ignored;
                }
                let label = window_label(self.version.as_str());
                if !found {
                    self.step = LaunchStep::Finished;
                    return LaunchAction::Fail {
                        stop: None,
                        message: window_missing_message(label.as_str()),
                    };
                }
                let old_process = table.take(label.as_str());
                self.step = LaunchStep::StoppingOld;
                LaunchAction::StopOld { process: old_process, close_window: false }
            },
            LaunchEvent::OldStopped => {
                if self.step != LaunchStep::StoppingOld {
                    return LaunchAction::Ignored;
                }
                match self.mode {
                    LaunchMode::Restart => {
                        self.step = LaunchStep::Starting;
                        LaunchAction::StartWeb
                    },
                    LaunchMode::Open => {
                        let g = table.next_generation();
                        self.generation = g;
                        self.step = LaunchStep::Building;
                        LaunchAction::BuildWindow {
                            label: window_label(self.version.as_str()),
                            title: window_title(self.version.as_str()),
                            url: self.url.clone(),
                            script: build_topbar_script(self.version.as_str(), self.url.as_str()),
                        }
                    },
                }
            },
            LaunchEvent::TaskFailed(e) => {
                if self.step != LaunchStep::Starting {
                    return LaunchAction::Ignored;
                }
                self.step = LaunchStep::Finished;
                let prefix = match self.mode {
                    LaunchMode::Open => "启动任务失败: ",
                    LaunchMode::Restart => "重启任务失败: ",
                };
                LaunchAction::Fail { stop: None, message: String::from_str(prefix).concat(e.as_str()) }
            },
            LaunchEvent::Started(outcome) => {
                if self.step != LaunchStep::Starting {
                    return LaunchAction::Ignored;
                }
                match outcome {
                    Err(m) => {
                        self.step = LaunchStep::Finished;
                        LaunchAction::Fail { stop: None, message: m }
                    },
                    Ok((process, url)) => {
                        let label = window_label(self.version.as_str());
                        match self.mode {
                            LaunchMode::Open => {
                                let old_process = table.take(label.as_str());
                                self.url = url;
                                self.pending = Some(process);
                                self.step = LaunchStep::StoppingOld;
                                LaunchAction::StopOld { process: old_process, close_window: true }
                            },
                            LaunchMode::Restart => {
                                let g = table.next_generation();
                                let _displaced = table.insert(label, g, process);
                                self.url = url;
                                self.step = LaunchStep::Navigating;
                                LaunchAction::Navigate { url: self.url.clone() }
                            },
                        }
                    },
                }
            },
            LaunchEvent::UrlRejected(e) => {
                if self.step != LaunchStep::Building && self.step != LaunchStep::Navigating {
                    return LaunchAction::Ignored;
                }
                self.step = LaunchStep::Finished;
                self.pending = None;
                LaunchAction::Fail { stop: None, message: String::from_str("URL 解析失败: ").concat(e.as_str()) }
            },
            LaunchEvent::WindowBuilt(built) => {
                if self.step != LaunchStep::Building {
                    return LaunchAction::Ignored;
                }
                let mut before = LaunchFlow {
                    mode: self.mode,
                    step: LaunchStep::Finished,
                    version: self.version.clone(),
                    url: self.url.clone(),
                    pending: None,
                    generation: self.generation,
                };
                std::mem::swap(self, &mut before);
                let LaunchFlow { pending: started, .. } = before;
                match built {
                    Err(e) => LaunchAction::Fail {
                        stop: started,
                        message: String::from_str("创建窗口失败: ").concat(e.as_str()),
                    },
                    Ok(()) => match started {
                        Some(process) => {
                            let label = window_label(self.version.as_str());
                            let _displaced = table.insert(label.clone(), self.generation, process);
                            LaunchAction::Opened {
                                label,
                                generation: self.generation,
                                message: window_opened_message(self.version.as_str()),
                            }
                        },
                        None => LaunchAction::Ignored,
                    },
                }
            },
            LaunchEvent::Navigated(done) => {
                if self.step != LaunchStep::Navigating {
                    return LaunchAction::Ignored;
                }
                self.step = LaunchStep::Finished;
                match done {
                    Err(e) => LaunchAction::Fail {
                        stop: None,
                        message: String::from_str("窗口导航失败: ").concat(e.as_str()),
                    },
                    Ok(()) => LaunchAction::Restarted,
                }
            },
        }
    }
}

} // verus!
