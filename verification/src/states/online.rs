//! The connection is up: probe the current target, and the next one if the
//! current one stays silent.
use vstd::prelude::*;
use vstd::string::StringExecFns;

use crate::config::Config;
use crate::log::{large_separator_lines, Logger, Moment};
use crate::probe::{answered, is_answering_ping, reply_lines, PingReply};

use super::{
    finish_command, finish_view, ping_command, ping_view, Command, ConnectionState,
    Marker, MarkerChange, Stage, StepView, follows,
};

verus! {

/// The stages of a round while online.
pub open spec fn online_stage(stage: Stage) -> bool {
    stage is Begin || stage is First || stage is Second
}

/// The log that is started when both targets stayed silent.
pub open spec fn diagnosis_opening(now: Seq<char>, current: Seq<char>, next: Seq<char>) -> Seq<Seq<char>> {
    large_separator_lines() + seq!["Start of log: "@ + now] + large_separator_lines() + seq![
        "🟡 Target '"@ + current + "' and secondary target '"@ + next + "' failed to answer"@,
    ] + large_separator_lines()
}

/// One step of a round while online.
pub open spec fn online_spec(
    config: Config,
    lines: Seq<Seq<char>>,
    event: crate::log::EventType,
    stage: Stage,
    reply: Option<PingReply>,
    moment: Moment,
) -> StepView {
    let current = config.current_spec();
    let next = config.next_spec();
    let normal = config.interval_normal;
    let stay = finish_view(None, normal, Seq::empty(), false);
    match stage {
        Stage::Begin => StepView {
            stage: Stage::First,
            command: ping_view(current, normal, 0),
            lines,
            event,
            index: config.index as int,
        },
        Stage::First => {
            let noted = lines + reply_lines(current, ConnectionState::Online, reply->0);
            if answered(reply->0) {
                StepView { stage: Stage::Begin, command: stay, lines: noted, event, index: config.index as int }
            } else {
                StepView {
                    stage: Stage::Second,
                    command: ping_view(next, normal, 0),
                    lines: noted,
                    event,
                    index: config.index as int,
                }
            }
        },
        _ => {
            let noted = lines + reply_lines(next, ConnectionState::Online, reply->0);
            if answered(reply->0) {
                StepView { stage: Stage::Begin, command: stay, lines: noted, event, index: config.index as int }
            } else {
                StepView {
                    stage: Stage::Begin,
                    command: finish_view(
                        Some(ConnectionState::Diagnosing),
                        0,
                        seq![MarkerChange::Create(Marker::Diagnosing)],
                        true,
                    ),
                    lines: diagnosis_opening(moment.now@, current, next),
                    event,
                    index: config.index as int,
                }
            }
        },
    }
}

/// One step of a round while the connection is up.
///
/// The round pings the current target; if it stays silent, the next one
/// (which belongs to another provider). If either answers, the round ends
/// with the normal pause. If both stay silent, a new log is started and the
/// monitor goes on to diagnosing.
pub fn online(
    config: &Config,
    logger: &mut Logger,
    stage: Stage,
    reply: Option<PingReply>,
    moment: &Moment,
) -> (res: (Stage, Command))
    requires
        config.wf(),
        online_stage(stage),
        (stage is Begin) == (reply is None),
    ensures
        follows(
            online_spec(*config, old(logger).lines(), old(logger).event(), stage, reply, *moment),
            res.0,
            res.1,
            *final(logger),
        ),
        final(logger).dir() == old(logger).dir(),
{
    match stage {
        Stage::Begin => (Stage::First, ping_command(config.current_target(), config.interval_normal, 0)),
        Stage::First => {
            let target = config.current_target();
            if is_answering_ping(target.as_str(), reply.unwrap(), logger, ConnectionState::Online) {
                (Stage::Begin, online_sleep(config.interval_normal))
            } else {
                (Stage::Second, ping_command(config.next_target(), config.interval_normal, 0))
            }
        },
        _ => {
            let target = config.next_target();
            if is_answering_ping(target.as_str(), reply.unwrap(), logger, ConnectionState::Online) {
                (Stage::Begin, online_sleep(config.interval_normal))
            } else {
                (Stage::Begin, move_to_diagnosing(config, logger, moment))
            }
        },
    }
}

/// Starts a new log about the silent targets and ends the round in diagnosing.
fn move_to_diagnosing(config: &Config, logger: &mut Logger, moment: &Moment) -> (command: Command)
    requires
        config.wf(),
    ensures
        command@ == finish_view(
            Some(ConnectionState::Diagnosing),
            0,
            seq![MarkerChange::Create(Marker::Diagnosing)],
            true,
        ),
        final(logger).lines() == diagnosis_opening(moment.now@, config.current_spec(), config.next_spec()),
        final(logger).dir() == old(logger).dir(),
        final(logger).event() == old(logger).event(),
{
    logger.reset();
    logger.add_large_separator();
    logger.add_log_line(String::from_str("Start of log: ").concat(moment.now.as_str()));
    logger.add_large_separator();
    let current = config.current_target();
    let next = config.next_target();
    logger.add_log_line(
        String::from_str("🟡 Target '").concat(current.as_str()).concat("' and secondary target '").concat(
            next.as_str(),
        ).concat("' failed to answer"),
    );
    logger.add_large_separator();
    assert(logger.lines() =~= diagnosis_opening(moment.now@, config.current_spec(), config.next_spec()));
    let mut markers: Vec<MarkerChange> = Vec::new();
    markers.push(MarkerChange::Create(Marker::Diagnosing));
    assert(markers@ =~= seq![MarkerChange::Create(Marker::Diagnosing)]);
    finish_command(Some(ConnectionState::Diagnosing), 0, markers, true)
}

/// Ends the round with the normal pause.
fn online_sleep(interval_ms: u64) -> (command: Command)
    ensures
        command@ == finish_view(None, interval_ms, Seq::empty(), false),
{
    let markers: Vec<MarkerChange> = Vec::new();
    finish_command(None, interval_ms, markers, false)
}

} // verus!
