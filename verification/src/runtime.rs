//! Decisions of the application's background loops and tray: the disk
//! space monitor, the tray menu, and which managed servers start with the
//! app.

use crate::commands::command_set;
use crate::config::{AppConfig, LlmBackend};
use crate::text::{chars_of, eq_chars, trim_chars};
use vstd::prelude::*;

verus! {

/// What the disk monitor remembers between checks: the published warning
/// and stopped flags, and whether the low-space warning was already shown.
#[derive(Clone, Copy, Debug, PartialEq, Eq)]
pub struct DiskMonitor {
    pub warning: bool,
    pub stopped: bool,
    pub warned: bool,
}

/// What a disk check leads to.
#[derive(Clone, Copy, Debug, PartialEq, Eq)]
pub enum DiskAction {
    /// Nothing to tell.
    Nothing,
    /// Space is critically low: pause recording and tell the UI.
    PauseRecording,
    /// Space is low: warn the UI.
    WarnLow,
}

impl DiskMonitor {
    /// The monitor before any check.
    pub fn new() -> (m: Self)
        ensures
            !m.warning && !m.stopped && !m.warned,
    {
        DiskMonitor { warning: false, stopped: false, warned: false }
    }
}

/// The action of a check that found the disk `warning` (low) and `stopped`
/// (critically low), given the monitor before it.
pub open spec fn disk_action_spec(m: DiskMonitor, warning: bool, stopped: bool) -> DiskAction {
    if stopped && !m.stopped {
        DiskAction::PauseRecording
    } else if warning && !m.warning && !stopped && !m.warned {
        DiskAction::WarnLow
    } else {
        DiskAction::Nothing
    }
}

/// Whether the low-space warning counts as shown after the check.
pub open spec fn warned_after(m: DiskMonitor, warning: bool, stopped: bool) -> bool {
    if stopped && !m.stopped {
        m.warned
    } else if warning && !m.warning && !stopped {
        true
    } else if !warning && !stopped {
        false
    } else {
        m.warned
    }
}

/// One disk check: publishes the new levels and decides what to do.
/// Recording is paused when the disk becomes critically low; the low-space
/// warning is shown once until space recovers.
pub fn disk_check(m: &mut DiskMonitor, warning: bool, stopped: bool) -> (a: DiskAction)
    ensures
        a == disk_action_spec(*old(m), warning, stopped),
        final(m).warning == warning,
        final(m).stopped == stopped,
        final(m).warned == warned_after(*old(m), warning, stopped),
{
    let was_stopped = m.stopped;
    let was_warning = m.warning;
    m.warning = warning;
    m.stopped = stopped;
    if stopped && !was_stopped {
        DiskAction::PauseRecording
    } else if warning && !was_warning && !stopped {
        if !m.warned {
            m.warned = true;
            DiskAction::WarnLow
        } else {
            DiskAction::Nothing
        }
    } else {
        if !warning && !stopped {
            m.warned = false;
        }
        DiskAction::Nothing
    }
}

/// Recording is paused only on the check that finds the disk newly
/// critically low: repeating that check pauses nothing more, and the
/// low-space warning is not shown twice before space recovers.
pub proof fn lemma_disk_actions_once(m: DiskMonitor, warning: bool, stopped: bool)
    ensures
        ({
            let m2 = DiskMonitor {
                warning,
                stopped,
                warned: warned_after(m, warning, stopped),
            };
            &&& disk_action_spec(m2, warning, stopped) == DiskAction::Nothing
            &&& disk_action_spec(m, warning, stopped) == DiskAction::WarnLow ==> m2.warned
        }),
{
}

/// A tray menu command.
#[derive(Clone, Copy, Debug, PartialEq, Eq)]
pub enum TrayAction {
    PauseRecording,
    ResumeRecording,
    OpenWindow,
    Quit,
    Ignore,
}

/// The command of a tray menu item id.
pub open spec fn tray_action_spec(id: Seq<char>) -> TrayAction {
    if id == "pause"@ {
        TrayAction::PauseRecording
    } else if id == "resume"@ {
        TrayAction::ResumeRecording
    } else if id == "open"@ {
        TrayAction::OpenWindow
    } else if id == "quit"@ {
        TrayAction::Quit
    } else {
        TrayAction::Ignore
    }
}

/// The command of a tray menu event.
pub fn tray_action(id: &str) -> (a: TrayAction)
    ensures
        a == tray_action_spec(id@),
{
    let c = chars_of(id);
    if eq_chars(&c, &chars_of("pause")) {
        TrayAction::PauseRecording
    } else if eq_chars(&c, &chars_of("resume")) {
        TrayAction::ResumeRecording
    } else if eq_chars(&c, &chars_of("open")) {
        TrayAction::OpenWindow
    } else if eq_chars(&c, &chars_of("quit")) {
        TrayAction::Quit
    } else {
        TrayAction::Ignore
    }
}

/// The server launched at start-up for one kind, if any.
pub open spec fn autostart_entry(kind: Seq<char>, command: Option<Seq<char>>, autostart: bool) -> Seq<
    (Seq<char>, Seq<char>),
> {
    if autostart && command_set(command) {
        seq![(kind, command->0)]
    } else {
        Seq::empty()
    }
}

/// Views of (String, String) pairs.
pub open spec fn kind_command_views(v: Seq<(String, String)>) -> Seq<(Seq<char>, Seq<char>)> {
    v.map_values(|p: (String, String)| (p.0@, p.1@))
}

/// Optional string view.
pub open spec fn opt_view(o: Option<String>) -> Option<Seq<char>> {
    match o {
        Some(s) => Some(s@),
        None => None,
    }
}

/// The managed servers started with the app, as (kind, command), chat
/// first: only with an OpenAI-compatible backend, and only those marked
/// for auto-start with a command that is not blank.
pub open spec fn autostart_plan_spec(cfg: AppConfig) -> Seq<(Seq<char>, Seq<char>)> {
    if cfg.llm_backend == LlmBackend::Openai {
        autostart_entry(
            "chat"@,
            opt_view(cfg.managed_chat_server_command),
            cfg.managed_chat_server_autostart,
        ) + autostart_entry(
            "embed"@,
            opt_view(cfg.managed_embed_server_command),
            cfg.managed_embed_server_autostart,
        )
    } else {
        Seq::empty()
    }
}

fn configured(command: &Option<String>) -> (r: Option<String>)
    ensures
        match r {
            Some(c) => command_set(opt_view(*command)) && c@ == command->0@,
            None => !command_set(opt_view(*command)),
        },
{
    match command {
        Some(c) => {
            if trim_chars(&chars_of(c.as_str())).len() > 0 {
                Some(c.clone())
            } else {
                None
            }
        },
        None => None,
    }
}

/// The managed servers to launch at start-up.
pub fn autostart_plan(cfg: &AppConfig) -> (r: Vec<(String, String)>)
    ensures
        kind_command_views(r@) == autostart_plan_spec(*cfg),
{
    let mut v: Vec<(String, String)> = Vec::new();
    match cfg.llm_backend {
        LlmBackend::Openai => {
            if cfg.managed_chat_server_autostart {
                match configured(&cfg.managed_chat_server_command) {
                    Some(c) => v.push(("chat".to_owned(), c)),
                    None => {},
                }
            }
            let ghost mid = kind_command_views(v@);
            if cfg.managed_embed_server_autostart {
                match configured(&cfg.managed_embed_server_command) {
                    Some(c) => v.push(("embed".to_owned(), c)),
                    None => {},
                }
            }
            proof {
                assert(kind_command_views(v@) =~= autostart_plan_spec(*cfg));
            }
        },
        LlmBackend::Ollama => {
            proof {
                assert(kind_command_views(v@) =~= autostart_plan_spec(*cfg));
            }
        },
    }
    v
}

} // verus!
