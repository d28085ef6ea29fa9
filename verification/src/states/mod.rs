//! The monitor's state machine.
//!
//! One round of the monitor belongs to the connection state it is in. A
//! round is a short series of pings, each of which is decided on the answer
//! to the one before; it ends with the state for the next round and with
//! what has to be done outside: waiting, saving a finished log and creating
//! or removing the marker files that tell which incident is going on.
//!
//! Each state has a step function that takes the stage reached within the
//! round and the reply to the last ping, and returns the next stage and a
//! command: the next ping, or the end of the round.
use vstd::prelude::*;
use vstd::string::StringExecFns;

use crate::config::Config;
use crate::log::{EventType, Logger, Moment, SavedLog};
use crate::probe::PingReply;

use self::complete_network_outage::{complete_network_outage_spec, complete_network_outage_stage};
use self::diagnosing::{diagnosing_spec, diagnosing_stage};
use self::isp_outage::{isp_outage_spec, isp_outage_stage};
use self::local_outage::{local_outage_spec, local_outage_stage};
use self::online::{online_spec, online_stage};

pub mod complete_network_outage;
pub mod diagnosing;
pub mod isp_outage;
pub mod laws;
pub mod local_outage;
pub mod online;

pub use complete_network_outage::complete_network_outage;
pub use diagnosing::diagnosing;
pub use isp_outage::isp_outage;
pub use local_outage::local_outage;
pub use online::online;

verus! {

/// What the monitor believes about the connection.
#[derive(PartialEq, Eq, Structural, Clone, Copy, Debug)]
pub enum ConnectionState {
    Online,
    Diagnosing,
    IspOutage,
    LocalOutage,
    CompleteNetworkOutage,
}

/// How far a round has got: not started, waiting for the reply to its
/// first, second or third ping, or (while diagnosing) waiting for the reply
/// of the outside target probed after the given number of silent ones.
#[derive(PartialEq, Eq, Structural, Clone, Copy, Debug)]
pub enum Stage {
    Begin,
    First,
    Second,
    Third,
    Target(usize),
}

/// The marker files that tell from outside which incident is going on.
#[derive(PartialEq, Eq, Structural, Clone, Copy, Debug)]
pub enum Marker {
    Diagnosing,
    IspOutage,
    LocalOutage,
    CompleteNetworkOutage,
}

/// Creating or removing one marker file.
#[derive(PartialEq, Eq, Structural, Clone, Copy, Debug)]
pub enum MarkerChange {
    Create(Marker),
    Remove(Marker),
}

/// One ping to run: the address, its timeout and how long to wait before it.
pub struct Probe {
    pub target: String,
    pub timeout_ms: u64,
    pub wait_ms: u64,
}

/// How a round ends: the state for the next round (`None`: unchanged), how
/// long to wait, the log to save (if an incident ended), the marker files
/// to create or remove, in this order, and whether a new log was started
/// (so that its clock has to be restarted).
pub struct Outcome {
    pub next_state: Option<ConnectionState>,
    pub wait_ms: u64,
    pub saved: Option<SavedLog>,
    pub markers: Vec<MarkerChange>,
    pub restart_log_clock: bool,
}

/// What the monitor asks for after a step.
pub enum Command {
    Ping(Probe),
    Finish(Outcome),
}

/// A command as a mathematical value.
pub enum CommandView {
    Ping { target: Seq<char>, timeout_ms: u64, wait_ms: u64 },
    Finish {
        next_state: Option<ConnectionState>,
        wait_ms: u64,
        saved: Option<(Seq<char>, Seq<char>)>,
        markers: Seq<MarkerChange>,
        restart_log_clock: bool,
    },
}

impl View for Command {
    type V = CommandView;

    open spec fn view(&self) -> CommandView {
        match self {
            Command::Ping(p) => CommandView::Ping {
                target: p.target@,
                timeout_ms: p.timeout_ms,
                wait_ms: p.wait_ms,
            },
            Command::Finish(o) => CommandView::Finish {
                next_state: o.next_state,
                wait_ms: o.wait_ms,
                saved: match o.saved {
                    Some(s) => Some((s.file_name@, s.text@)),
                    None => None,
                },
                markers: o.markers@,
                restart_log_clock: o.restart_log_clock,
            },
        }
    }
}

/// What one step does, as a mathematical value: the next stage, the
/// command, the log lines and incident kind afterwards, and the position of
/// the current target afterwards.
pub struct StepView {
    pub stage: Stage,
    pub command: CommandView,
    pub lines: Seq<Seq<char>>,
    pub event: EventType,
    pub index: int,
}

/// The step's results agree with `v`.
pub open spec fn follows(v: StepView, stage: Stage, command: Command, logger: Logger) -> bool {
    &&& stage == v.stage
    &&& command@ == v.command
    &&& logger.lines() == v.lines
    &&& logger.event() == v.event
}

/// A ping of `target` with the given timeout, after waiting `wait_ms`.
pub open spec fn ping_view(target: Seq<char>, timeout_ms: u64, wait_ms: u64) -> CommandView {
    CommandView::Ping { target, timeout_ms, wait_ms }
}

/// The end of a round that saves no log.
pub open spec fn finish_view(
    next_state: Option<ConnectionState>,
    wait_ms: u64,
    markers: Seq<MarkerChange>,
    restart_log_clock: bool,
) -> CommandView {
    CommandView::Finish { next_state, wait_ms, saved: None, markers, restart_log_clock }
}

/// The end of a round that saves a log.
pub open spec fn finish_saving_view(
    next_state: Option<ConnectionState>,
    file_name: Seq<char>,
    text: Seq<char>,
    markers: Seq<MarkerChange>,
) -> CommandView {
    CommandView::Finish {
        next_state,
        wait_ms: 0,
        saved: Some((file_name, text)),
        markers,
        restart_log_clock: false,
    }
}

/// How long a round that found the connection still down waits before the next one.
pub const OUTAGE_PAUSE_MS: u64 = 50;

/// The name of a marker file in the log directory.
pub open spec fn marker_suffix(marker: Marker) -> Seq<char> {
    match marker {
        Marker::Diagnosing => "/diagnosing"@,
        Marker::IspOutage => "/isp_outage_ongoing"@,
        Marker::LocalOutage => "/local_outage_ongoing"@,
        Marker::CompleteNetworkOutage => "/complete_network_outage_ongoing"@,
    }
}

/// The path of a marker file, for a log directory `dir`.
pub fn marker_path(dir: &str, marker: Marker) -> (path: String)
    ensures
        path@ == dir@ + marker_suffix(marker),
{
    let suffix = match marker {
        Marker::Diagnosing => "/diagnosing",
        Marker::IspOutage => "/isp_outage_ongoing",
        Marker::LocalOutage => "/local_outage_ongoing",
        Marker::CompleteNetworkOutage => "/complete_network_outage_ongoing",
    };
    String::from_str(dir).concat(suffix)
}

/// A command to ping `target`.
pub fn ping_command(target: String, timeout_ms: u64, wait_ms: u64) -> (command: Command)
    ensures
        command@ == ping_view(target@, timeout_ms, wait_ms),
{
    Command::Ping(Probe { target, timeout_ms, wait_ms })
}

/// A command that ends the round without saving a log.
pub fn finish_command(
    next_state: Option<ConnectionState>,
    wait_ms: u64,
    markers: Vec<MarkerChange>,
    restart_log_clock: bool,
) -> (command: Command)
    ensures
        command@ == finish_view(next_state, wait_ms, markers@, restart_log_clock),
{
    Command::Finish(Outcome { next_state, wait_ms, saved: None, markers, restart_log_clock })
}

/// A command that ends the round and saves a log.
pub fn finish_saving_command(
    next_state: Option<ConnectionState>,
    saved: SavedLog,
    markers: Vec<MarkerChange>,
) -> (command: Command)
    ensures
        command@ == finish_saving_view(next_state, saved.file_name@, saved.text@, markers@),
{
    Command::Finish(Outcome { next_state, wait_ms: 0, saved: Some(saved), markers, restart_log_clock: false })
}

/// The end of a round that found the connection still down: pause briefly.
pub fn sleep_outage() -> (command: Command)
    ensures
        command@ == finish_view(None, OUTAGE_PAUSE_MS, Seq::empty(), false),
{
    let markers: Vec<MarkerChange> = Vec::new();
    finish_command(None, OUTAGE_PAUSE_MS, markers, false)
}

/// Whether `stage` belongs to a round in `state`, for a ring of `len` targets.
pub open spec fn valid_stage(state: ConnectionState, stage: Stage, len: int) -> bool {
    match state {
        ConnectionState::Online => online_stage(stage),
        ConnectionState::Diagnosing => diagnosing_stage(stage, len),
        ConnectionState::IspOutage => isp_outage_stage(stage),
        ConnectionState::LocalOutage => local_outage_stage(stage),
        ConnectionState::CompleteNetworkOutage => complete_network_outage_stage(stage),
    }
}

/// One step of a round in `state`.
pub open spec fn state_step(
    state: ConnectionState,
    config: Config,
    lines: Seq<Seq<char>>,
    event: EventType,
    stage: Stage,
    reply: Option<PingReply>,
    moment: Moment,
) -> StepView {
    match state {
        ConnectionState::Online => online_spec(config, lines, event, stage, reply, moment),
        ConnectionState::Diagnosing => diagnosing_spec(config, lines, event, stage, reply, moment),
        ConnectionState::IspOutage => isp_outage_spec(config, lines, event, stage, reply, moment),
        ConnectionState::LocalOutage => local_outage_spec(config, lines, event, stage, reply, moment),
        ConnectionState::CompleteNetworkOutage => complete_network_outage_spec(
            config,
            lines,
            event,
            stage,
            reply,
            moment,
        ),
    }
}

/// The configuration with the cursor moved on to the next target.
pub open spec fn rotate(config: Config) -> Config {
    Config { index: ((config.index + 1) % (config.targets@.len() as int)) as usize, ..config }
}

/// The configuration that a step works on: a round starts by moving on to
/// the next target.
pub open spec fn step_config(config: Config, stage: Stage) -> Config {
    if stage is Begin {
        rotate(config)
    } else {
        config
    }
}

/// The state after a step: a round that ends may name the next state.
pub open spec fn state_after(state: ConnectionState, command: CommandView) -> ConnectionState {
    match command {
        CommandView::Finish { next_state: Some(next), .. } => next,
        _ => state,
    }
}

/// The stage after a step: a round that ends lets the next one begin.
pub open spec fn stage_after(stage: Stage, command: CommandView) -> Stage {
    match command {
        CommandView::Finish { .. } => Stage::Begin,
        _ => stage,
    }
}

/// The whole monitor: the state it is in and how far the current round has got.
pub struct Monitor {
    pub state: ConnectionState,
    pub stage: Stage,
}

impl Monitor {
    /// A monitor that starts online, before its first round.
    pub fn new() -> (monitor: Self)
        ensures
            monitor.state == ConnectionState::Online,
            monitor.stage == Stage::Begin,
    {
        Monitor { state: ConnectionState::Online, stage: Stage::Begin }
    }

    /// Takes one step: at the beginning of a round, moves on to the next
    /// target; then hands the reply to the last ping (none at the beginning
    /// of a round) to the state's step function, and keeps track of the
    /// stage and of the state when the round ends.
    pub fn step(
        &mut self,
        config: &mut Config,
        logger: &mut Logger,
        reply: Option<PingReply>,
        moment: &Moment,
    ) -> (command: Command)
        requires
            old(config).wf(),
            valid_stage(old(self).state, old(self).stage, old(config).targets@.len() as int),
            (old(self).stage is Begin) == (reply is None),
            old(self).state == ConnectionState::CompleteNetworkOutage ==> old(config).secondary_internal_target is Some,
        ensures
            ({
                let v = state_step(
                    old(self).state,
                    step_config(*old(config), old(self).stage),
                    old(logger).lines(),
                    old(logger).event(),
                    old(self).stage,
                    reply,
                    *moment,
                );
                &&& command@ == v.command
                &&& final(logger).lines() == v.lines
                &&& final(logger).event() == v.event
                &&& final(config).index == v.index
                &&& final(self).stage == stage_after(v.stage, v.command)
                &&& final(self).state == state_after(old(self).state, v.command)
            }),
            valid_stage(final(self).state, final(self).stage, final(config).targets@.len() as int),
            old(self).stage is Begin ==> final(config).index == (old(config).index + 1) % (old(config).targets@.len() as int),
            old(self).stage is Begin && (old(self).state == ConnectionState::Online || old(self).state
                == ConnectionState::IspOutage) ==> command@ is Ping && command@->Ping_target == old(config).targets@[(
            old(config).index + 1) % (old(config).targets@.len() as int)]@,
            !(old(self).stage is Begin) && old(self).state != ConnectionState::Diagnosing ==> final(config).index == old(
                config,
            ).index,
            final(config).wf(),
            final(config).targets == old(config).targets,
            final(config).router_ip == old(config).router_ip,
            final(config).secondary_internal_target == old(config).secondary_internal_target,
            final(config).interval_normal == old(config).interval_normal,
            final(config).interval_recovery == old(config).interval_recovery,
            final(config).log_dir_path == old(config).log_dir_path,
            final(logger).dir() == old(logger).dir(),
    {
        let target_count = config.targets.len();
        proof {
            assert(target_count == config.targets@.len());
            laws::lemma_stage_stays_valid(
                self.state,
                *config,
                logger.lines(),
                logger.event(),
                self.stage,
                reply,
                *moment,
            );
            if self.stage is Begin {
                laws::lemma_round_starts_at_next_target(self.state, *config, logger.lines(), logger.event(), *moment);
            }
        }
        if self.stage == Stage::Begin {
            config.iter_targets();
        }
        let (stage, command) = match self.state {
            ConnectionState::Online => online(config, logger, self.stage, reply, moment),
            ConnectionState::Diagnosing => diagnosing(config, logger, self.stage, reply, moment),
            ConnectionState::IspOutage => isp_outage(config, logger, self.stage, reply, moment),
            ConnectionState::LocalOutage => local_outage(config, logger, self.stage, reply, moment),
            ConnectionState::CompleteNetworkOutage => complete_network_outage(
                config,
                logger,
                self.stage,
                reply,
                moment,
            ),
        };
        match &command {
            Command::Finish(outcome) => {
                self.stage = Stage::Begin;
                if let Some(next) = outcome.next_state {
                    self.state = next;
                }
            },
            Command::Ping(_) => {
                self.stage = stage;
            },
        }
        command
    }
}

/// What is left to do when the monitor shuts down: if an incident is going
/// on and its log holds anything, the log is closed and handed back to be
/// saved.
pub fn shutdown(state: ConnectionState, logger: &mut Logger, moment: &Moment) -> (saved: Option<SavedLog>)
    ensures
        (saved is Some) == (old(logger).lines().len() > 0 && state != ConnectionState::Online),
        saved is Some ==> saved->0.text@ == crate::log::log_text(
            old(logger).lines() + crate::log::closing_lines("Shamash shutting down at "@ + moment.now@, moment.log_age@),
        ),
        saved is Some ==> saved->0.file_name@ == crate::log::log_file_name_spec(old(logger).event(), moment.now@),
        saved is Some ==> final(logger).lines() == Seq::<Seq<char>>::empty(),
        saved is None ==> final(logger).lines() == old(logger).lines(),
        final(logger).event() == old(logger).event(),
        final(logger).dir() == old(logger).dir(),
{
    if logger.has_unsaved_log() && state != ConnectionState::Online {
        Some(logger.end_log(String::from_str("Shamash shutting down at ").concat(moment.now.as_str()), moment))
    } else {
        None
    }
}

} // verus!
