//! An ISP outage is going on: wait until two outside targets answer.
use vstd::prelude::*;
use vstd::string::StringExecFns;

use crate::config::Config;
use crate::log::{closing_lines, log_file_name_spec, log_text, small_separator, EventType, Logger, Moment};
use crate::probe::{answered, is_answering_ping, reply_lines, PingReply};

use super::{
    finish_command, finish_saving_command, finish_saving_view, finish_view, follows, ping_command,
    ping_view, sleep_outage, Command, ConnectionState, Marker, MarkerChange, Stage, StepView,
    OUTAGE_PAUSE_MS,
};

verus! {

/// The stages of a round during an ISP outage.
pub open spec fn isp_outage_stage(stage: Stage) -> bool {
    stage is Begin || stage is First || stage is Second
}

/// The line that records an answer of the current target.
pub open spec fn established_line(target: Seq<char>, now: Seq<char>) -> Seq<char> {
    "🟢 Connection established with target '"@ + target + "' at "@ + now
}

/// The last line of the log of an ISP outage that ended.
pub open spec fn second_established_line(target: Seq<char>, now: Seq<char>) -> Seq<char> {
    "🟢 Connection established with second target '"@ + target + "' at "@ + now
}

/// The lines that record a silent second target.
pub open spec fn second_silent_lines(target: Seq<char>, now: Seq<char>) -> Seq<Seq<char>> {
    seq![
        "🟡 Connection not established with second target '"@ + target + "' at "@ + now,
        "🔴 Continuing ISP outage"@,
        small_separator(),
    ]
}

/// One step of a round during an ISP outage.
pub open spec fn isp_outage_spec(
    config: Config,
    lines: Seq<Seq<char>>,
    event: EventType,
    stage: Stage,
    reply: Option<PingReply>,
    moment: Moment,
) -> StepView {
    let current = config.current_spec();
    let next = config.next_spec();
    let recovery = config.interval_recovery;
    let index = config.index as int;
    match stage {
        Stage::Begin => StepView {
            stage: Stage::First,
            command: ping_view(current, recovery, 0),
            lines,
            event,
            index,
        },
        Stage::First => {
            let noted = lines + reply_lines(current, ConnectionState::IspOutage, reply->0);
            if answered(reply->0) {
                StepView {
                    stage: Stage::Second,
                    command: ping_view(next, recovery, 0),
                    lines: noted.push(established_line(current, moment.now@)),
                    event,
                    index,
                }
            } else {
                StepView {
                    stage: Stage::Begin,
                    command: finish_view(None, OUTAGE_PAUSE_MS, Seq::empty(), false),
                    lines: noted,
                    event,
                    index,
                }
            }
        },
        _ => {
            let noted = lines + reply_lines(next, ConnectionState::IspOutage, reply->0);
            if answered(reply->0) {
                StepView {
                    stage: Stage::Begin,
                    command: finish_saving_view(
                        Some(ConnectionState::Online),
                        log_file_name_spec(event, moment.now@),
                        log_text(noted + closing_lines(second_established_line(next, moment.now@), moment.log_age@)),
                        seq![MarkerChange::Remove(Marker::IspOutage)],
                    ),
                    lines: Seq::empty(),
                    event,
                    index,
                }
            } else {
                StepView {
                    stage: Stage::Begin,
                    command: finish_view(None, 0, Seq::empty(), false),
                    lines: noted + second_silent_lines(next, moment.now@),
                    event,
                    index,
                }
            }
        },
    }
}

/// One step of a round during an ISP outage.
///
/// The round pings the current target; while it stays silent the outage
/// goes on. Once it answers, the next target is pinged as well: if that one
/// answers too, the outage is over and its log is saved.
pub fn isp_outage(
    config: &Config,
    logger: &mut Logger,
    stage: Stage,
    reply: Option<PingReply>,
    moment: &Moment,
) -> (res: (Stage, Command))
    requires
        config.wf(),
        isp_outage_stage(stage),
        (stage is Begin) == (reply is None),
    ensures
        follows(
            isp_outage_spec(*config, old(logger).lines(), old(logger).event(), stage, reply, *moment),
            res.0,
            res.1,
            *final(logger),
        ),
        final(logger).dir() == old(logger).dir(),
{
    match stage {
        Stage::Begin => (Stage::First, ping_command(config.current_target(), config.interval_recovery, 0)),
        Stage::First => {
            let target = config.current_target();
            if is_answering_ping(target.as_str(), reply.unwrap(), logger, ConnectionState::IspOutage) {
                logger.add_log_line(
                    String::from_str("🟢 Connection established with target '").concat(target.as_str()).concat(
                        "' at ",
                    ).concat(moment.now.as_str()),
                );
                (Stage::Second, ping_command(config.next_target(), config.interval_recovery, 0))
            } else {
                (Stage::Begin, sleep_outage())
            }
        },
        _ => (Stage::Begin, secondary_connection_test(config, logger, reply.unwrap(), moment)),
    }
}

/// Handles the reply of the next target, once the current one answered.
fn secondary_connection_test(config: &Config, logger: &mut Logger, reply: PingReply, moment: &Moment) -> (command: Command)
    requires
        config.wf(),
    ensures
        command@ == isp_outage_spec(*config, old(logger).lines(), old(logger).event(), Stage::Second, Some(reply), *moment).command,
        final(logger).lines() == isp_outage_spec(*config, old(logger).lines(), old(logger).event(), Stage::Second, Some(reply), *moment).lines,
        final(logger).event() == old(logger).event(),
        final(logger).dir() == old(logger).dir(),
{
    let target = config.next_target();
    if is_answering_ping(target.as_str(), reply, logger, ConnectionState::IspOutage) {
        secondary_test_successful(target, logger, moment)
    } else {
        secondary_test_unsuccessful(target, logger, moment)
    }
}

/// Both targets answered: the outage is over; its log is closed and saved.
fn secondary_test_successful(target: String, logger: &mut Logger, moment: &Moment) -> (command: Command)
    ensures
        command@ == finish_saving_view(
            Some(ConnectionState::Online),
            log_file_name_spec(old(logger).event(), moment.now@),
            log_text(old(logger).lines() + closing_lines(second_established_line(target@, moment.now@), moment.log_age@)),
            seq![MarkerChange::Remove(Marker::IspOutage)],
        ),
        final(logger).lines() == Seq::<Seq<char>>::empty(),
        final(logger).event() == old(logger).event(),
        final(logger).dir() == old(logger).dir(),
{
    let last = String::from_str("🟢 Connection established with second target '").concat(target.as_str()).concat(
        "' at ",
    ).concat(moment.now.as_str());
    let saved = logger.end_log(last, moment);
    let mut markers: Vec<MarkerChange> = Vec::new();
    markers.push(MarkerChange::Remove(Marker::IspOutage));
    assert(markers@ =~= seq![MarkerChange::Remove(Marker::IspOutage)]);
    finish_saving_command(Some(ConnectionState::Online), saved, markers)
}

/// Only the first target answered: the outage goes on.
fn secondary_test_unsuccessful(target: String, logger: &mut Logger, moment: &Moment) -> (command: Command)
    ensures
        command@ == finish_view(None, 0, Seq::empty(), false),
        final(logger).lines() == old(logger).lines() + second_silent_lines(target@, moment.now@),
        final(logger).event() == old(logger).event(),
        final(logger).dir() == old(logger).dir(),
{
    logger.add_log_line(
        String::from_str("🟡 Connection not established with second target '").concat(target.as_str()).concat(
            "' at ",
        ).concat(moment.now.as_str()),
    );
    logger.add_log_line(String::from_str("🔴 Continuing ISP outage"));
    logger.add_small_separator();
    assert(logger.lines() =~= old(logger).lines() + second_silent_lines(target@, moment.now@));
    let markers: Vec<MarkerChange> = Vec::new();
    assert(markers@ =~= Seq::<MarkerChange>::empty());
    finish_command(None, 0, markers, false)
}

} // verus!
