//! Properties that hold of every step of the monitor.
use vstd::prelude::*;

use crate::config::Config;
use crate::log::{log_file_name_spec, EventType, Moment};
use crate::probe::{reply_lines, PingReply};

use super::diagnosing::{target_amount, targets_failed_lines};
use super::{
    state_after, stage_after, state_step, step_config, valid_stage, CommandView, ConnectionState, Marker,
    MarkerChange, Stage, StepView,
};

verus! {

/// The marker files that exist while the monitor is in `state`.
pub open spec fn markers_of(state: ConnectionState) -> Set<Marker> {
    match state {
        ConnectionState::Online => Set::empty(),
        ConnectionState::Diagnosing => set![Marker::Diagnosing],
        ConnectionState::IspOutage => set![Marker::IspOutage],
        ConnectionState::LocalOutage => set![Marker::LocalOutage],
        ConnectionState::CompleteNetworkOutage => set![Marker::CompleteNetworkOutage],
    }
}

/// The marker files after making `changes`, in order, to `markers`.
pub open spec fn apply_changes(markers: Set<Marker>, changes: Seq<MarkerChange>) -> Set<Marker>
    decreases changes.len(),
{
    if changes.len() == 0 {
        markers
    } else {
        let before = apply_changes(markers, changes.drop_last());
        match changes.last() {
            MarkerChange::Create(m) => before.insert(m),
            MarkerChange::Remove(m) => before.remove(m),
        }
    }
}

/// The incident kind that a log must record while the monitor is in an outage.
pub open spec fn consistent(state: ConnectionState, event: EventType) -> bool {
    &&& state == ConnectionState::IspOutage ==> event == EventType::IspOutage
    &&& state == ConnectionState::LocalOutage ==> event == EventType::LocalOutage
}

/// The file name of the log that a command saves.
pub open spec fn saved_file_name(command: CommandView) -> Seq<char> {
    match command {
        CommandView::Finish { saved: Some((file_name, _)), .. } => file_name,
        _ => Seq::empty(),
    }
}

/// The conditions under which a step can be taken.
pub open spec fn can_step(
    state: ConnectionState,
    config: Config,
    stage: Stage,
    reply: Option<PingReply>,
) -> bool {
    &&& config.wf()
    &&& config.targets@.len() <= usize::MAX
    &&& valid_stage(state, stage, config.targets@.len() as int)
    &&& (stage is Begin) == (reply is None)
    &&& state == ConnectionState::CompleteNetworkOutage ==> config.secondary_internal_target is Some
}

/// The step taken from the given situation.
pub open spec fn step_of(
    state: ConnectionState,
    config: Config,
    lines: Seq<Seq<char>>,
    event: EventType,
    stage: Stage,
    reply: Option<PingReply>,
    moment: Moment,
) -> StepView {
    state_step(state, step_config(config, stage), lines, event, stage, reply, moment)
}

proof fn lemma_rotation_keeps_wf(config: Config)
    requires
        config.wf(),
    ensures
        step_config(config, Stage::Begin).wf(),
        step_config(config, Stage::Begin).targets == config.targets,
{
}

/// The marker files always tell the state: when a round ends, the changes it
/// asks for turn the markers of the state it started in into those of the
/// state it ends in.
pub proof fn lemma_markers_follow_state(
    state: ConnectionState,
    config: Config,
    lines: Seq<Seq<char>>,
    event: EventType,
    stage: Stage,
    reply: Option<PingReply>,
    moment: Moment,
)
    requires
        can_step(state, config, stage, reply),
    ensures
        ({
            let v = step_of(state, config, lines, event, stage, reply, moment);
            v.command is Finish ==> apply_changes(markers_of(state), v.command->markers)
                == markers_of(state_after(state, v.command))
        }),
{
    lemma_rotation_keeps_wf(config);
    let v = step_of(state, config, lines, event, stage, reply, moment);
    reveal_with_fuel(apply_changes, 3);
    if v.command is Finish {
        let changes = v.command->markers;
        if changes.len() == 1 {
            assert(changes.drop_last() =~= Seq::<MarkerChange>::empty());
        } else if changes.len() == 2 {
            assert(changes.drop_last().drop_last() =~= Seq::<MarkerChange>::empty());
        }
        assert(apply_changes(markers_of(state), changes) =~= markers_of(state_after(state, v.command)));
    }
}

/// The incident kind recorded in the log always fits the outage going on.
pub proof fn lemma_incident_kind_kept(
    state: ConnectionState,
    config: Config,
    lines: Seq<Seq<char>>,
    event: EventType,
    stage: Stage,
    reply: Option<PingReply>,
    moment: Moment,
)
    requires
        can_step(state, config, stage, reply),
        consistent(state, event),
    ensures
        ({
            let v = step_of(state, config, lines, event, stage, reply, moment);
            consistent(state_after(state, v.command), v.event)
        }),
{
    lemma_rotation_keeps_wf(config);
}

/// A log is saved exactly when an outage (ISP, local or complete) ends with
/// the connection online again, and it goes where logs of that kind of
/// outage go (the log of a complete network outage goes straight into the
/// log directory).
pub proof fn lemma_log_saved_when_outage_ends(
    state: ConnectionState,
    config: Config,
    lines: Seq<Seq<char>>,
    event: EventType,
    stage: Stage,
    reply: Option<PingReply>,
    moment: Moment,
)
    requires
        can_step(state, config, stage, reply),
        consistent(state, event),
    ensures
        ({
            let v = step_of(state, config, lines, event, stage, reply, moment);
            &&& (v.command is Finish && v.command->saved is Some) <==> (
                (state == ConnectionState::IspOutage || state == ConnectionState::LocalOutage
                    || state == ConnectionState::CompleteNetworkOutage)
                && v.command is Finish && v.command->next_state == Some(ConnectionState::Online))
            &&& (v.command is Finish && v.command->saved is Some) ==> saved_file_name(v.command) == log_file_name_spec(
                    if state == ConnectionState::IspOutage {
                        EventType::IspOutage
                    } else if state == ConnectionState::LocalOutage {
                        EventType::LocalOutage
                    } else {
                        EventType::Online
                    },
                    moment.now@,
                )
        }),
{
    lemma_rotation_keeps_wf(config);
}

/// Every step leads to a stage that belongs to the state it leads to, and
/// keeps the cursor inside the ring of targets; in particular a diagnosis
/// never probes more than a third (rounded up) of the targets.
pub proof fn lemma_stage_stays_valid(
    state: ConnectionState,
    config: Config,
    lines: Seq<Seq<char>>,
    event: EventType,
    stage: Stage,
    reply: Option<PingReply>,
    moment: Moment,
)
    requires
        can_step(state, config, stage, reply),
    ensures
        ({
            let v = step_of(state, config, lines, event, stage, reply, moment);
            &&& valid_stage(state_after(state, v.command), stage_after(v.stage, v.command), config.targets@.len() as int)
            &&& 0 <= v.index < config.targets@.len()
            &&& (v.command is Ping) == !(stage_after(v.stage, v.command) is Begin)
        }),
{
    lemma_rotation_keeps_wf(config);
    let len = config.targets@.len() as int;
    assert(target_amount(len) >= 1);
}

/// While diagnosing, one answering outside target is enough: the connection
/// is back online and the diagnosis log is dropped.
pub proof fn lemma_one_answer_suffices(
    config: Config,
    lines: Seq<Seq<char>>,
    event: EventType,
    tried: usize,
    moment: Moment,
)
    requires
        can_step(ConnectionState::Diagnosing, config, Stage::Target(tried), Some(PingReply::Answered)),
    ensures
        ({
            let v = step_of(
                ConnectionState::Diagnosing,
                config,
                lines,
                event,
                Stage::Target(tried),
                Some(PingReply::Answered),
                moment,
            );
            &&& state_after(ConnectionState::Diagnosing, v.command) == ConnectionState::Online
            &&& v.lines == Seq::<Seq<char>>::empty()
        }),
{
}

/// The number of pings a round has asked for when it reaches `stage`.
pub open spec fn pings_made(stage: Stage) -> int {
    match stage {
        Stage::Begin => 0,
        Stage::First => 1,
        Stage::Second => 2,
        Stage::Third => 3,
        Stage::Target(tried) => tried + 2,
    }
}

/// The most pings a round in `state` asks for, for a ring of `len` targets.
pub open spec fn max_pings(state: ConnectionState, len: int) -> int {
    match state {
        ConnectionState::Online => 2,
        ConnectionState::Diagnosing => 1 + target_amount(len),
        ConnectionState::IspOutage => 2,
        ConnectionState::LocalOutage => 3,
        ConnectionState::CompleteNetworkOutage => 3,
    }
}

/// Every round ends: each step that asks for another ping counts one more
/// ping, and no round asks for more than `max_pings` of them.
pub proof fn lemma_round_ends(
    state: ConnectionState,
    config: Config,
    lines: Seq<Seq<char>>,
    event: EventType,
    stage: Stage,
    reply: Option<PingReply>,
    moment: Moment,
)
    requires
        can_step(state, config, stage, reply),
    ensures
        ({
            let v = step_of(state, config, lines, event, stage, reply, moment);
            v.command is Ping ==> {
                &&& state_after(state, v.command) == state
                &&& pings_made(v.stage) == pings_made(stage) + 1
                &&& pings_made(v.stage) <= max_pings(state, config.targets@.len() as int)
            }
        }),
{
    lemma_rotation_keeps_wf(config);
    assert(target_amount(config.targets@.len() as int) >= 1);
    assert(target_amount(config.targets@.len() as int) <= config.targets@.len());
    let v = step_of(state, config, lines, event, stage, reply, moment);
}

/// The pace of probing: while online every ping waits up to the normal
/// interval for an answer (and a round that finds the connection up waits
/// that long before the next one); in every other state pings wait up to
/// the recovery interval.
pub proof fn lemma_probe_pace(
    state: ConnectionState,
    config: Config,
    lines: Seq<Seq<char>>,
    event: EventType,
    stage: Stage,
    reply: Option<PingReply>,
    moment: Moment,
)
    requires
        can_step(state, config, stage, reply),
    ensures
        ({
            let v = step_of(state, config, lines, event, stage, reply, moment);
            &&& v.command is Ping ==> v.command->Ping_timeout_ms == if state == ConnectionState::Online {
                config.interval_normal
            } else {
                config.interval_recovery
            }
            &&& (state == ConnectionState::Online && v.command is Finish && v.command->next_state is None)
                ==> v.command->Finish_wait_ms == config.interval_normal
        }),
{
    lemma_rotation_keeps_wf(config);
}

/// Every round starts by moving on to the next target: the cursor goes from
/// `index` to `(index + 1) % len`, and a round while online or in an ISP
/// outage first pings that next target.
pub proof fn lemma_round_starts_at_next_target(
    state: ConnectionState,
    config: Config,
    lines: Seq<Seq<char>>,
    event: EventType,
    moment: Moment,
)
    requires
        can_step(state, config, Stage::Begin, None),
    ensures
        ({
            let v = step_of(state, config, lines, event, Stage::Begin, None, moment);
            let len = config.targets@.len() as int;
            &&& v.index == (config.index + 1) % len
            &&& (state == ConnectionState::Online || state == ConnectionState::IspOutage) ==> v.command is Ping
                && v.command->Ping_target == config.targets@[(config.index + 1) % len]@
        }),
{
    lemma_rotation_keeps_wf(config);
}

/// Within a round, only a diagnosis moves the cursor.
pub proof fn lemma_cursor_moves_only_when_diagnosing(
    state: ConnectionState,
    config: Config,
    lines: Seq<Seq<char>>,
    event: EventType,
    stage: Stage,
    reply: Option<PingReply>,
    moment: Moment,
)
    requires
        can_step(state, config, stage, reply),
        !(stage is Begin),
        state != ConnectionState::Diagnosing,
    ensures
        step_of(state, config, lines, event, stage, reply, moment).index == config.index,
{
}

/// During a local outage, a router that does not answer keeps the outage
/// going: the round ends with no new state, no saved log, no marker change
/// and the incident kind untouched.
pub proof fn lemma_local_outage_waits_for_router(
    config: Config,
    lines: Seq<Seq<char>>,
    event: EventType,
    reply: PingReply,
    moment: Moment,
)
    requires
        can_step(ConnectionState::LocalOutage, config, Stage::First, Some(reply)),
        !(reply is Answered),
    ensures
        ({
            let v = step_of(ConnectionState::LocalOutage, config, lines, event, Stage::First, Some(reply), moment);
            &&& v.command matches CommandView::Finish { next_state: None, saved: None, markers, .. }
                && markers.len() == 0
            &&& v.event == event
        }),
{
}

/// A local outage ends (the connection is declared online) only in a step
/// that handles an answer of the outside target, which is only asked for
/// once the router has answered in the same round.
pub proof fn lemma_local_outage_ends_only_after_router(
    config: Config,
    lines: Seq<Seq<char>>,
    event: EventType,
    stage: Stage,
    reply: Option<PingReply>,
    moment: Moment,
)
    requires
        can_step(ConnectionState::LocalOutage, config, stage, reply),
    ensures
        ({
            let v = step_of(ConnectionState::LocalOutage, config, lines, event, stage, reply, moment);
            &&& (v.command matches CommandView::Finish { next_state: Some(ConnectionState::Online), .. })
                ==> (stage is Second || stage is Third) && reply->0 is Answered
            &&& (v.command is Ping && v.stage is Second) ==> stage is First && reply->0 is Answered
            &&& (v.command is Ping && v.stage is Third) ==> stage is Second && !(reply->0 is Answered)
        }),
{
}

/// During a complete network outage, a secondary internal target that does
/// not answer keeps the outage going: no new state and no marker change.
pub proof fn lemma_complete_outage_waits_for_secondary(
    config: Config,
    lines: Seq<Seq<char>>,
    event: EventType,
    reply: PingReply,
    moment: Moment,
)
    requires
        can_step(ConnectionState::CompleteNetworkOutage, config, Stage::First, Some(reply)),
        !(reply is Answered),
    ensures
        ({
            let v = step_of(ConnectionState::CompleteNetworkOutage, config, lines, event, Stage::First, Some(reply), moment);
            &&& v.command matches CommandView::Finish { next_state: None, saved: None, markers, .. }
                && markers.len() == 0
            &&& v.event == event
        }),
{
}

/// A complete network outage turns into a local outage only when the router
/// stays silent after the secondary internal target answered, and into an
/// ISP outage only when the outside target stays silent after both the
/// secondary internal target and the router answered.
pub proof fn lemma_complete_outage_declares_after_answers(
    config: Config,
    lines: Seq<Seq<char>>,
    event: EventType,
    stage: Stage,
    reply: Option<PingReply>,
    moment: Moment,
)
    requires
        can_step(ConnectionState::CompleteNetworkOutage, config, stage, reply),
    ensures
        ({
            let v = step_of(ConnectionState::CompleteNetworkOutage, config, lines, event, stage, reply, moment);
            &&& (v.command matches CommandView::Finish { next_state: Some(ConnectionState::LocalOutage), .. })
                ==> stage is Second && !(reply->0 is Answered)
            &&& (v.command matches CommandView::Finish { next_state: Some(ConnectionState::IspOutage), .. })
                ==> stage is Third && !(reply->0 is Answered)
            &&& (v.command is Ping && v.stage is Second) ==> stage is First && reply->0 is Answered
            &&& (v.command is Ping && v.stage is Third) ==> stage is Second && reply->0 is Answered
        }),
{
}

/// A diagnosis whose outside targets stay silent pings exactly `len / 3`
/// rounded up of them, `(len + 2) / 3`: after the silent reply of the
/// target probed after `tried` silent ones, the next target is pinged while
/// `3 * (tried + 1) < len`; otherwise an ISP outage is declared, and the log
/// says how many targets failed.
pub proof fn lemma_diagnosis_tries_a_third(
    config: Config,
    lines: Seq<Seq<char>>,
    event: EventType,
    tried: usize,
    reply: PingReply,
    moment: Moment,
)
    requires
        config.wf(),
        3 * tried < config.targets@.len(),
        !(reply is Answered),
    ensures
        ({
            let len = config.targets@.len() as int;
            let v = step_of(ConnectionState::Diagnosing, config, lines, event, Stage::Target(tried), Some(reply), moment);
            &&& 3 * (tried + 1) < len ==> {
                &&& v.command is Ping
                &&& v.command->Ping_target == config.targets@[(config.index + 1) % len]@
                &&& v.stage == Stage::Target((tried + 1) as usize)
                &&& v.index == (config.index + 1) % len
            }
            &&& 3 * (tried + 1) >= len ==> {
                &&& v.command matches CommandView::Finish { next_state: Some(ConnectionState::IspOutage), .. }
                &&& v.event == EventType::IspOutage
                &&& v.lines == lines + reply_lines(
                    config.targets@[config.index as int]@,
                    ConnectionState::Diagnosing,
                    reply,
                ) + targets_failed_lines(((len + 2) / 3) as nat, moment.now@)
            }
        }),
{
    let len = config.targets@.len() as int;
    assert(target_amount(len) == (len + 2) / 3);
    assert((tried + 1 < target_amount(len)) == (3 * (tried + 1) < len));
}

/// While online, an answer from either probed target keeps the connection
/// online with no marker change; a diagnosis starts only after the current
/// target and then the next one both failed to answer, and it creates the
/// diagnosing marker.
pub proof fn lemma_online_diagnoses_only_after_two_failures(
    config: Config,
    lines: Seq<Seq<char>>,
    event: EventType,
    stage: Stage,
    reply: Option<PingReply>,
    moment: Moment,
)
    requires
        can_step(ConnectionState::Online, config, stage, reply),
    ensures
        ({
            let v = step_of(ConnectionState::Online, config, lines, event, stage, reply, moment);
            &&& (!(stage is Begin) && reply->0 is Answered) ==> (v.command is Finish && v.command->next_state is None
                && v.command->saved is None && v.command->markers.len() == 0)
            &&& (v.command is Finish && v.command->next_state is Some) ==> (v.command->next_state->0
                == ConnectionState::Diagnosing && stage is Second && !(reply->0 is Answered)
                && v.command->markers == seq![MarkerChange::Create(Marker::Diagnosing)])
            &&& (v.command is Ping && v.stage is Second) ==> stage is First && !(reply->0 is Answered)
        }),
{
}

/// An ISP outage goes on while the current target is silent, and ends only
/// when the current target and then the next one have both answered.
pub proof fn lemma_isp_outage_ends_only_after_two_answers(
    config: Config,
    lines: Seq<Seq<char>>,
    event: EventType,
    stage: Stage,
    reply: Option<PingReply>,
    moment: Moment,
)
    requires
        can_step(ConnectionState::IspOutage, config, stage, reply),
    ensures
        ({
            let v = step_of(ConnectionState::IspOutage, config, lines, event, stage, reply, moment);
            &&& (stage is First && !(reply->0 is Answered)) ==> (v.command is Finish && v.command->next_state is None
                && v.command->saved is None && v.command->markers.len() == 0)
            &&& (v.command is Finish && v.command->next_state is Some) ==> (v.command->next_state->0
                == ConnectionState::Online && stage is Second && reply->0 is Answered)
            &&& (v.command is Ping && v.stage is Second) ==> stage is First && reply->0 is Answered
        }),
{
}

/// A diagnosis first pings the router: a router that does not answer means
/// a local outage, one that answers leads to pinging the current outside
/// target.
pub proof fn lemma_diagnosis_checks_router_first(
    config: Config,
    lines: Seq<Seq<char>>,
    event: EventType,
    reply: Option<PingReply>,
    moment: Moment,
)
    requires
        config.wf(),
        reply is Some,
    ensures
        ({
            let begin = step_of(ConnectionState::Diagnosing, config, lines, event, Stage::Begin, None, moment);
            let v = step_of(ConnectionState::Diagnosing, config, lines, event, Stage::First, reply, moment);
            &&& begin.command is Ping && begin.command->Ping_target == config.router_ip@
            &&& !(reply->0 is Answered) ==> (v.command is Finish && v.command->next_state
                == Some(ConnectionState::LocalOutage) && v.event == EventType::LocalOutage)
            &&& reply->0 is Answered ==> (v.command is Ping && v.command->Ping_target
                == config.targets@[config.index as int]@ && v.stage == Stage::Target(0))
        }),
{
    lemma_rotation_keeps_wf(config);
}

} // verus!
