//! A local outage is going on: wait for the router, then check beyond it.
use vstd::prelude::*;
use vstd::string::StringExecFns;

use crate::config::Config;
use crate::log::{
    closing_lines, large_separator_lines, log_file_name_spec, log_text, small_separator, EventType, Logger, Moment,
};
use crate::probe::{answered, is_answering_ping, reply_lines, PingReply};

use super::{
    finish_command, finish_saving_command, finish_saving_view, finish_view, follows, ping_command,
    ping_view, sleep_outage, Command, ConnectionState, Marker, MarkerChange, Stage, StepView,
    OUTAGE_PAUSE_MS,
};

verus! {

/// The stages of a round during a local outage.
pub open spec fn local_outage_stage(stage: Stage) -> bool {
    stage is Begin || stage is First || stage is Second || stage is Third
}

/// The lines that record that the router is back.
pub open spec fn router_back_lines(now: Seq<char>, log_age_precise: Seq<char>) -> Seq<Seq<char>> {
    seq![
        "🟢 Connection with Router established at "@ + now,
        small_separator(),
        "🟢 Local Outage end declared, duration: "@ + log_age_precise
            + " seconds - checking outside connection"@,
    ] + large_separator_lines()
}

/// The line that records an answering outside target.
pub open spec fn outside_success_line(target: Seq<char>, now: Seq<char>) -> Seq<char> {
    "🟢 Outside test connection successful with target '"@ + target + "' at "@ + now
}

/// The lines that record a silent outside target.
pub open spec fn outside_failure_lines(target: Seq<char>, now: Seq<char>) -> Seq<Seq<char>> {
    seq!["🟡 Outside test connection unsuccessful with target '"@ + target + "' at "@ + now, small_separator()]
}

/// The lines that declare an ISP outage after the local outage.
pub open spec fn local_to_isp_lines(now: Seq<char>) -> Seq<Seq<char>> {
    seq![
        "🔴 Outside test connection unsuccessful at "@ + now,
        "🔴 Declaring ISP outage at "@ + now + ", continuing the outage"@,
    ] + large_separator_lines()
}

/// One step of a round during a local outage.
pub open spec fn local_outage_spec(
    config: Config,
    lines: Seq<Seq<char>>,
    event: EventType,
    stage: Stage,
    reply: Option<PingReply>,
    moment: Moment,
) -> StepView {
    let current = config.current_spec();
    let router = config.router_ip@;
    let recovery = config.interval_recovery;
    let index = config.index as int;
    let now = moment.now@;
    match stage {
        Stage::Begin => StepView { stage: Stage::First, command: ping_view(router, recovery, 0), lines, event, index },
        Stage::First => {
            let noted = lines + reply_lines(router, ConnectionState::LocalOutage, reply->0);
            if answered(reply->0) {
                StepView {
                    stage: Stage::Second,
                    command: ping_view(current, recovery, 0),
                    lines: noted + router_back_lines(now, moment.log_age_precise@),
                    event,
                    index,
                }
            } else {
                StepView {
                    stage: Stage::Begin,
                    command: finish_view(None, OUTAGE_PAUSE_MS, Seq::empty(), false),
                    lines: noted,
                    event,
                    index,
                }
            }
        },
        Stage::Second => {
            let noted = lines + reply_lines(current, ConnectionState::LocalOutage, reply->0);
            if answered(reply->0) {
                let closed = noted.push(outside_success_line(current, now)) + large_separator_lines();
                StepView {
                    stage: Stage::Begin,
                    command: finish_saving_view(
                        Some(ConnectionState::Online),
                        log_file_name_spec(event, now),
                        log_text(closed + closing_lines("🟢 Local Outage end at "@ + now, moment.log_age@)),
                        seq![MarkerChange::Remove(Marker::LocalOutage)],
                    ),
                    lines: large_separator_lines(),
                    event,
                    index,
                }
            } else {
                StepView {
                    stage: Stage::Third,
                    command: ping_view(current, recovery, 0),
                    lines: noted + outside_failure_lines(current, now),
                    event,
                    index,
                }
            }
        },
        _ => {
            let noted = lines + reply_lines(current, ConnectionState::LocalOutage, reply->0);
            if answered(reply->0) {
                StepView {
                    stage: Stage::Begin,
                    command: finish_saving_view(
                        Some(ConnectionState::Online),
                        log_file_name_spec(event, now),
                        log_text(noted + closing_lines(outside_success_line(current, now), moment.log_age@)),
                        seq![MarkerChange::Remove(Marker::LocalOutage)],
                    ),
                    lines: Seq::empty(),
                    event,
                    index,
                }
            } else {
                StepView {
                    stage: Stage::Begin,
                    command: finish_view(
                        Some(ConnectionState::IspOutage),
                        0,
                        seq![MarkerChange::Remove(Marker::LocalOutage), MarkerChange::Create(Marker::IspOutage)],
                        false,
                    ),
                    lines: noted + local_to_isp_lines(now),
                    event: EventType::IspOutage,
                    index,
                }
            }
        },
    }
}

/// One step of a round during a local outage.
///
/// The round pings the router; while it stays silent the outage goes on.
/// Once it answers, the current outside target is pinged, and once more if
/// it stays silent: if it answers, the outage is over and its log is saved;
/// if not, the outage goes on as an ISP outage.
pub fn local_outage(
    config: &Config,
    logger: &mut Logger,
    stage: Stage,
    reply: Option<PingReply>,
    moment: &Moment,
) -> (res: (Stage, Command))
    requires
        config.wf(),
        local_outage_stage(stage),
        (stage is Begin) == (reply is None),
    ensures
        follows(
            local_outage_spec(*config, old(logger).lines(), old(logger).event(), stage, reply, *moment),
            res.0,
            res.1,
            *final(logger),
        ),
        final(logger).dir() == old(logger).dir(),
{
    match stage {
        Stage::Begin => (Stage::First, ping_command(config.router_ip.clone(), config.interval_recovery, 0)),
        Stage::First => {
            if is_answering_ping(config.router_ip.as_str(), reply.unwrap(), logger, ConnectionState::LocalOutage) {
                let ghost noted = logger.lines();
                logger.add_log_line(
                    String::from_str("🟢 Connection with Router established at ").concat(moment.now.as_str()),
                );
                logger.add_small_separator();
                logger.add_log_line(
                    String::from_str("🟢 Local Outage end declared, duration: ").concat(
                        moment.log_age_precise.as_str(),
                    ).concat(" seconds - checking outside connection"),
                );
                logger.add_large_separator();
                assert(logger.lines() =~= noted + router_back_lines(moment.now@, moment.log_age_precise@));
                (Stage::Second, ping_command(config.current_target(), config.interval_recovery, 0))
            } else {
                (Stage::Begin, sleep_outage())
            }
        },
        Stage::Second => test_outside_connection(config, logger, reply.unwrap(), moment),
        _ => (Stage::Begin, retest_outside_connection(config, logger, reply.unwrap(), moment)),
    }
}

/// Handles the first reply of the outside target after the router came back.
fn test_outside_connection(config: &Config, logger: &mut Logger, reply: PingReply, moment: &Moment) -> (res: (Stage, Command))
    requires
        config.wf(),
    ensures
        follows(
            local_outage_spec(*config, old(logger).lines(), old(logger).event(), Stage::Second, Some(reply), *moment),
            res.0,
            res.1,
            *final(logger),
        ),
        final(logger).dir() == old(logger).dir(),
{
    let target = config.current_target();
    if is_answering_ping(target.as_str(), reply, logger, ConnectionState::LocalOutage) {
        (Stage::Begin, test_outside_connection_successful(target, logger, moment))
    } else {
        test_outside_connection_unsuccessful(config, target, logger, moment)
    }
}

/// The outside target answered at once: the outage is over.
fn test_outside_connection_successful(target: String, logger: &mut Logger, moment: &Moment) -> (command: Command)
    ensures
        command@ == finish_saving_view(
            Some(ConnectionState::Online),
            log_file_name_spec(old(logger).event(), moment.now@),
            log_text(
                old(logger).lines().push(outside_success_line(target@, moment.now@)) + large_separator_lines()
                    + closing_lines("🟢 Local Outage end at "@ + moment.now@, moment.log_age@),
            ),
            seq![MarkerChange::Remove(Marker::LocalOutage)],
        ),
        final(logger).lines() == large_separator_lines(),
        final(logger).event() == old(logger).event(),
        final(logger).dir() == old(logger).dir(),
{
    logger.add_log_line(
        String::from_str("🟢 Outside test connection successful with target '").concat(target.as_str()).concat(
            "' at ",
        ).concat(moment.now.as_str()),
    );
    logger.add_large_separator();
    assert(logger.lines() =~= old(logger).lines().push(outside_success_line(target@, moment.now@))
        + large_separator_lines());
    let saved = logger.end_log(String::from_str("🟢 Local Outage end at ").concat(moment.now.as_str()), moment);
    logger.add_large_separator();
    assert(logger.lines() =~= large_separator_lines());
    let mut markers: Vec<MarkerChange> = Vec::new();
    markers.push(MarkerChange::Remove(Marker::LocalOutage));
    assert(markers@ =~= seq![MarkerChange::Remove(Marker::LocalOutage)]);
    finish_saving_command(Some(ConnectionState::Online), saved, markers)
}

/// The outside target stayed silent: record it and ping it once more.
fn test_outside_connection_unsuccessful(config: &Config, target: String, logger: &mut Logger, moment: &Moment) -> (res: (Stage, Command))
    requires
        config.wf(),
        target@ == config.current_spec(),
    ensures
        res.0 == Stage::Third,
        res.1@ == ping_view(config.current_spec(), config.interval_recovery, 0),
        final(logger).lines() == old(logger).lines() + outside_failure_lines(target@, moment.now@),
        final(logger).event() == old(logger).event(),
        final(logger).dir() == old(logger).dir(),
{
    logger.add_log_line(
        String::from_str("🟡 Outside test connection unsuccessful with target '").concat(target.as_str()).concat(
            "' at ",
        ).concat(moment.now.as_str()),
    );
    logger.add_small_separator();
    assert(logger.lines() =~= old(logger).lines() + outside_failure_lines(target@, moment.now@));
    (Stage::Third, ping_command(target, config.interval_recovery, 0))
}

/// Handles the second reply of the outside target.
fn retest_outside_connection(config: &Config, logger: &mut Logger, reply: PingReply, moment: &Moment) -> (command: Command)
    requires
        config.wf(),
    ensures
        command@ == local_outage_spec(*config, old(logger).lines(), old(logger).event(), Stage::Third, Some(reply), *moment).command,
        final(logger).lines() == local_outage_spec(*config, old(logger).lines(), old(logger).event(), Stage::Third, Some(reply), *moment).lines,
        final(logger).event() == local_outage_spec(*config, old(logger).lines(), old(logger).event(), Stage::Third, Some(reply), *moment).event,
        final(logger).dir() == old(logger).dir(),
{
    let target = config.current_target();
    if is_answering_ping(target.as_str(), reply, logger, ConnectionState::LocalOutage) {
        move_to_online(target, logger, moment)
    } else {
        move_to_isp_outage(logger, moment)
    }
}

/// The outside target answered the second time: the outage is over.
fn move_to_online(target: String, logger: &mut Logger, moment: &Moment) -> (command: Command)
    ensures
        command@ == finish_saving_view(
            Some(ConnectionState::Online),
            log_file_name_spec(old(logger).event(), moment.now@),
            log_text(old(logger).lines() + closing_lines(outside_success_line(target@, moment.now@), moment.log_age@)),
            seq![MarkerChange::Remove(Marker::LocalOutage)],
        ),
        final(logger).lines() == Seq::<Seq<char>>::empty(),
        final(logger).event() == old(logger).event(),
        final(logger).dir() == old(logger).dir(),
{
    let last = String::from_str("🟢 Outside test connection successful with target '").concat(target.as_str()).concat(
        "' at ",
    ).concat(moment.now.as_str());
    let saved = logger.end_log(last, moment);
    let mut markers: Vec<MarkerChange> = Vec::new();
    markers.push(MarkerChange::Remove(Marker::LocalOutage));
    assert(markers@ =~= seq![MarkerChange::Remove(Marker::LocalOutage)]);
    finish_saving_command(Some(ConnectionState::Online), saved, markers)
}

/// The router answers but the outside does not: the outage goes on as an ISP outage.
fn move_to_isp_outage(logger: &mut Logger, moment: &Moment) -> (command: Command)
    ensures
        command@ == finish_view(
            Some(ConnectionState::IspOutage),
            0,
            seq![MarkerChange::Remove(Marker::LocalOutage), MarkerChange::Create(Marker::IspOutage)],
            false,
        ),
        final(logger).lines() == old(logger).lines() + local_to_isp_lines(moment.now@),
        final(logger).event() == EventType::IspOutage,
        final(logger).dir() == old(logger).dir(),
{
    logger.add_log_line(String::from_str("🔴 Outside test connection unsuccessful at ").concat(moment.now.as_str()));
    logger.add_log_line(
        String::from_str("🔴 Declaring ISP outage at ").concat(moment.now.as_str()).concat(", continuing the outage"),
    );
    logger.add_large_separator();
    logger.set_event_type(EventType::IspOutage);
    assert(logger.lines() =~= old(logger).lines() + local_to_isp_lines(moment.now@));
    let mut markers: Vec<MarkerChange> = Vec::new();
    markers.push(MarkerChange::Remove(Marker::LocalOutage));
    markers.push(MarkerChange::Create(Marker::IspOutage));
    assert(markers@ =~= seq![MarkerChange::Remove(Marker::LocalOutage), MarkerChange::Create(Marker::IspOutage)]);
    finish_command(Some(ConnectionState::IspOutage), 0, markers, false)
}

} // verus!
