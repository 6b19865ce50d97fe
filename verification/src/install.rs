//! The order of the steps that install a version with pnpm, as a state machine: each step
//! takes what the last action came to and gives the next action. The caller does the
//! file-system and process work.

use vstd::prelude::*;
use vstd::string::StringExecFns;
use crate::text::{strs, trim};
use crate::versions::{
    completion_stage, friendly_error_text, install_args, install_failure_report,
    install_failure_text, npmrc_content, package_manifest, stage_step, starting_stage,
    InstallFailure, InstallProgress,
};

verus! {

/// Where an install stands.
#[derive(Clone, Copy, PartialEq, Eq, Structural)]
pub enum InstallStep {
    /// Not begun.
    Idle,
    /// Waiting to hear whether the version is already installed.
    CheckingInstalled,
    /// Waiting for the version directory to be created.
    CreatingDir,
    /// Waiting for `package.json` to be written.
    WritingManifest,
    /// Waiting for `.npmrc` to be written.
    WritingNpmrc,
    /// Waiting for pnpm to be started.
    StartingPnpm,
    /// Reading pnpm's progress output, line by line.
    Reading,
    /// Waiting for pnpm to exit.
    Waiting,
    /// Done; every further event is ignored.
    Finished,
}

/// What the last action came to.
pub enum InstallEvent {
    /// The install was asked for.
    Begin,
    /// Whether the version's `node_modules` already exists.
    Installed(bool),
    /// The directory was created, the file written or pnpm started; or the error.
    Done(Result<(), String>),
    /// One line of pnpm's error output, without its line end.
    Line(String),
    /// pnpm's error output has ended, or was not available.
    OutputEnded,
    /// pnpm exited, successfully or not.
    Exited(bool),
}

/// What the caller does next.
pub enum InstallAction {
    /// Check whether the version's `node_modules` exists; answer with `Installed`.
    CheckInstalled,
    /// Create the version directory; answer with `Done`.
    CreateDir,
    /// Write `content` to the file `name` in the version directory; answer with `Done`.
    WriteFile { name: String, content: String },
    /// Announce `stage`, then start pnpm with `args` in the version directory, its
    /// output piped; answer with `Done`.
    StartPnpm { stage: &'static str, args: Vec<String> },
    /// Announce `stage` if there is one, then read the next line of pnpm's error
    /// output; answer with `Line` or `OutputEnded`.
    ReadOutput { stage: Option<&'static str> },
    /// Wait for pnpm to exit; answer with `Exited`.
    WaitExit,
    /// Announce `stage` if there is one and remove the version directory if
    /// `remove_dir`; the install ends with `succeeded` and `message`.
    Finish { stage: Option<&'static str>, remove_dir: bool, succeeded: bool, message: String },
    /// The event does not belong to this step; nothing changed.
    Ignored,
}

/// Whether `event` answers the action of `step`.
pub open spec fn install_expects(step: InstallStep, event: InstallEvent) -> bool {
    match event {
        InstallEvent::Begin => step == InstallStep::Idle,
        InstallEvent::Installed(_) => step == InstallStep::CheckingInstalled,
        InstallEvent::Done(_) => {
            ||| step == InstallStep::CreatingDir
            ||| step == InstallStep::WritingManifest
            ||| step == InstallStep::WritingNpmrc
            ||| step == InstallStep::StartingPnpm
        },
        InstallEvent::Line(_) => step == InstallStep::Reading,
        InstallEvent::OutputEnded => step == InstallStep::Reading,
        InstallEvent::Exited(_) => step == InstallStep::Waiting,
    }
}

/// `a` ends the install as a failure with `message`, announcing nothing; the version
/// directory is removed only if `remove_dir`.
pub open spec fn ends_failed(a: InstallAction, remove_dir: bool, message: Seq<char>) -> bool {
    &&& a matches InstallAction::Finish { stage, remove_dir: r, succeeded, message: m }
    &&& stage is None
    &&& r == remove_dir
    &&& !succeeded
    &&& m@ == message
}

/// An install of one version with pnpm.
pub struct InstallFlow {
    step: InstallStep,
    version: String,
    store: String,
    cache: String,
    state: String,
    progress: InstallProgress,
}

impl InstallFlow {
    /// Where the install stands.
    pub closed spec fn step(&self) -> InstallStep {
        self.step
    }

    /// The version installed.
    pub closed spec fn version(&self) -> Seq<char> {
        self.version@
    }

    /// The pnpm store, cache and state directories.
    pub closed spec fn dirs(&self) -> (Seq<char>, Seq<char>, Seq<char>) {
        (self.store@, self.cache@, self.state@)
    }

    /// The last progress stage announced from pnpm's output.
    pub closed spec fn last_stage(&self) -> Seq<char> {
        self.progress.last_stage()
    }

    /// pnpm's error output read so far, each line followed by a line feed.
    pub closed spec fn output(&self) -> Seq<char> {
        self.progress.output()
    }

    /// An install of `version`, with pnpm's store, cache and state kept in `store`,
    /// `cache` and `state`; not begun.
    pub fn new(version: &str, store: &str, cache: &str, state: &str) -> (f: Self)
        ensures
            f.step() == InstallStep::Idle,
            f.version() == version@,
            f.dirs() == (store@, cache@, state@),
            f.last_stage() == Seq::<char>::empty(),
            f.output() == Seq::<char>::empty(),
    {
        InstallFlow {
            step: InstallStep::Idle,
            version: String::from_str(version),
            store: String::from_str(store),
            cache: String::from_str(cache),
            state: String::from_str(state),
            progress: InstallProgress::new(),
        }
    }

    /// Takes what the last action came to and gives the next action.
    ///
    /// Already installed? → create the directory → write `package.json` → write
    /// `.npmrc` → announce "正在启动 pnpm..." and start pnpm → read its error output,
    /// announcing each new stage → wait for it to exit → announce "安装完成" on success,
    /// or remove the directory on failure. A failure before pnpm starts ends the install
    /// at once and leaves the directory; one in starting pnpm removes it.
    pub fn advance(&mut self, event: InstallEvent) -> (a: InstallAction)
        ensures
            final(self).version() == old(self).version(),
            final(self).dirs() == old(self).dirs(),
            !install_expects(old(self).step(), event) ==> a is Ignored && *final(self) == *old(self),
            install_expects(old(self).step(), event) ==> match event {
                InstallEvent::Begin => {
                    &&& final(self).step() == InstallStep::CheckingInstalled
                    &&& a is CheckInstalled
                },
                InstallEvent::Installed(installed) => {
                    &&& installed ==> {
                        &&& final(self).step() == InstallStep::Finished
                        &&& ends_failed(a, false, "版本 "@ + old(self).version() + " 已安装"@)
                    }
                    &&& !installed ==> final(self).step() == InstallStep::CreatingDir && a is CreateDir
                },
                InstallEvent::Done(outcome) => match outcome {
                    Err(e) => {
                        &&& final(self).step() == InstallStep::Finished
                        &&& old(self).step() == InstallStep::CreatingDir ==> ends_failed(a, false, "创建目录失败: "@ + e@)
                        &&& old(self).step() == InstallStep::WritingManifest ==> ends_failed(
                            a,
                            false,
                            "写入 package.json 失败: "@ + e@,
                        )
                        &&& old(self).step() == InstallStep::WritingNpmrc ==> ends_failed(a, false, "写入 .npmrc 失败: "@ + e@)
                        &&& old(self).step() == InstallStep::StartingPnpm ==> ends_failed(a, true, "启动 pnpm 失败: "@ + e@)
                    },
                    Ok(()) => {
                        &&& old(self).step() == InstallStep::CreatingDir ==> {
                            &&& final(self).step() == InstallStep::WritingManifest
                            &&& a matches InstallAction::WriteFile { name, content }
                            &&& name@ == "package.json"@
                            &&& content@ == "{\n  \"name\": \"dsh-"@ + old(self).version()
                                + "\",\n  \"private\": true,\n  \"version\": \"0.0.0\"\n}\n"@
                        }
                        &&& old(self).step() == InstallStep::WritingManifest ==> {
                            &&& final(self).step() == InstallStep::WritingNpmrc
                            &&& a matches InstallAction::WriteFile { name, content }
                            &&& name@ == ".npmrc"@
                            &&& content@ == "node-linker=hoisted\n"@
                        }
                        &&& old(self).step() == InstallStep::WritingNpmrc ==> {
                            &&& final(self).step() == InstallStep::StartingPnpm
                            &&& a matches InstallAction::StartPnpm { stage, args }
                            &&& stage@ == "正在启动 pnpm..."@
                            &&& strs(args@) == seq![
                                "add"@,
                                "@deepseek-ai/dsh@"@ + old(self).version(),
                                "--store-dir"@,
                                old(self).dirs().0,
                                "--cache-dir"@,
                                old(self).dirs().1,
                                "--state-dir"@,
                                old(self).dirs().2,
                                "--config.confirmModulesPurge=false"@,
                                "--config.dangerouslyAllowAllBuilds=true"@,
                            ]
                        }
                        &&& old(self).step() == InstallStep::StartingPnpm ==> {
                            &&& final(self).step() == InstallStep::Reading
                            &&& a matches InstallAction::ReadOutput { stage } && stage is None
                        }
                        &&& final(self).output() == old(self).output()
                        &&& final(self).last_stage() == old(self).last_stage()
                    },
                },
                InstallEvent::Line(line) => {
                    &&& final(self).step() == InstallStep::Reading
                    &&& final(self).output() == old(self).output() + line@ + "\n"@
                    &&& final(self).last_stage() == stage_step(old(self).last_stage(), line@).1
                    &&& a matches InstallAction::ReadOutput { stage }
                    &&& (match stage {
                        Some(x) => Some(x@),
                        None => None,
                    }) == stage_step(old(self).last_stage(), line@).0
                },
                InstallEvent::OutputEnded => {
                    &&& final(self).step() == InstallStep::Waiting
                    &&& final(self).output() == old(self).output()
                    &&& a is WaitExit
                },
                InstallEvent::Exited(succeeded) => {
                    &&& final(self).step() == InstallStep::Finished
                    &&& a matches InstallAction::Finish { stage, remove_dir, succeeded: s, message }
                    &&& s == succeeded
                    &&& remove_dir == !succeeded
                    &&& succeeded ==> (stage matches Some(x) && x@ == "安装完成"@)
                    &&& succeeded ==> message@ == "已安装 "@ + old(self).version()
                    &&& !succeeded ==> stage is None
                    &&& !succeeded ==> message@ == friendly_error_text(trim(old(self).output()))
                },
            },
    {
        match event {
            InstallEvent::Begin => {
                if self.step != InstallStep::Idle {
                    return InstallAction::Ignored;
                }
                self.step = InstallStep::CheckingInstalled;
                InstallAction::CheckInstalled
            },
            InstallEvent::Installed(installed) => {
                if self.step != InstallStep::CheckingInstalled {
                    return InstallAction::Ignored;
                }
                if installed {
                    self.step = InstallStep::Finished;
                    self.fail(InstallFailure::AlreadyInstalled, false)
                } else {
                    self.step = InstallStep::CreatingDir;
                    InstallAction::CreateDir
                }
            },
            InstallEvent::Done(outcome) => {
                let at = self.step;
                if at != InstallStep::CreatingDir && at != InstallStep::WritingManifest && at
                    != InstallStep::WritingNpmrc && at != InstallStep::StartingPnpm {
                    return InstallAction::Ignored;
                }
                match outcome {
                    Err(e) => {
                        self.step = InstallStep::Finished;
                        match at {
                            InstallStep::CreatingDir => self.fail(InstallFailure::CreateDir(e), false),
                            InstallStep::WritingManifest => self.fail(InstallFailure::WriteManifest(e), false),
                            InstallStep::WritingNpmrc => self.fail(InstallFailure::WriteNpmrc(e), false),
                            _ => self.fail(InstallFailure::Spawn(e), true),
                        }
                    },
                    Ok(()) => match at {
                        InstallStep::CreatingDir => {
                            self.step = InstallStep::WritingManifest;
                            InstallAction::WriteFile {
                                name: String::from_str("package.json"),
                                content: package_manifest(self.version.as_str()),
                            }
                        },
                        InstallStep::WritingManifest => {
                            self.step = InstallStep::WritingNpmrc;
                            InstallAction::WriteFile {
                                name: String::from_str(".npmrc"),
                                content: String::from_str(npmrc_content()),
                            }
                        },
                        InstallStep::WritingNpmrc => {
                            self.step = InstallStep::StartingPnpm;
                            InstallAction::StartPnpm {
                                stage: starting_stage(),
                                args: install_args(
                                    self.version.as_str(),
                                    self.store.as_str(),
                                    self.cache.as_str(),
                                    self.state.as_str(),
                                ),
                            }
                        },
                        _ => {
                            self.step = InstallStep::Reading;
                            InstallAction::ReadOutput { stage: None }
                        },
                    },
                }
            },
            InstallEvent::Line(line) => {
                if self.step != InstallStep::Reading {
                    return InstallAction::Ignored;
                }
                let stage = self.progress.read_line(line.as_str());
                InstallAction::ReadOutput { stage }
            },
            InstallEvent::OutputEnded => {
                if self.step != InstallStep::Reading {
                    return InstallAction::Ignored;
                }
                self.step = InstallStep::Waiting;
                InstallAction::WaitExit
            },
            InstallEvent::Exited(succeeded) => {
                if self.step != InstallStep::Waiting {
                    return InstallAction::Ignored;
                }
                self.step = InstallStep::Finished;
                let (ok, message) = self.progress.report(succeeded, self.version.as_str());
                InstallAction::Finish {
                    stage: completion_stage(succeeded),
                    remove_dir: !succeeded,
                    succeeded: ok,
                    message,
                }
            },
        }
    }

    /// The end of an install stopped by `f`.
    fn fail(&self, f: InstallFailure, remove_dir: bool) -> (a: InstallAction)
        ensures
            ends_failed(a, remove_dir, install_failure_text(self.version(), f)),
    {
        let (_, message) = install_failure_report(self.version.as_str(), &f);
        InstallAction::Finish { stage: None, remove_dir, succeeded: false, message }
    }
}

} // verus!
