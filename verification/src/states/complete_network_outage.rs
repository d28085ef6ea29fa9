//! Even the secondary internal target is unreachable: wait for it, then
//! find out how far the connection reaches.
use vstd::prelude::*;
use vstd::string::StringExecFns;

use crate::config::Config;
use crate::log::{
    closing_lines, large_separator_lines, log_file_name_spec, log_text, small_separator, EventType, Logger, Moment,
};
use crate::probe::{answered, is_answering_ping, reply_lines, PingReply};

use super::{
    finish_command, finish_saving_command, finish_saving_view, finish_view, follows, ping_command, ping_view,
    sleep_outage, Command,
    ConnectionState, Marker, MarkerChange, Stage, StepView, OUTAGE_PAUSE_MS,
};

verus! {

/// The stages of a round during a complete network outage.
pub open spec fn complete_network_outage_stage(stage: Stage) -> bool {
    stage is Begin || stage is First || stage is Second || stage is Third
}

/// The lines that record that the secondary internal target is back.
pub open spec fn secondary_back_lines(now: Seq<char>, router: Seq<char>) -> Seq<Seq<char>> {
    seq![
        "🟢 Connection with secondary internal target established at "@ + now,
        small_separator(),
        "Checking router at "@ + router,
    ]
}

/// The lines that end a complete network outage with a declaration.
pub open spec fn declaration_lines(declaration: Seq<char>) -> Seq<Seq<char>> {
    seq![small_separator(), declaration] + large_separator_lines()
}

/// The last line of the log of a complete network outage that ended online.
pub open spec fn outage_end_line(now: Seq<char>) -> Seq<char> {
    "🟢 Complete network outage end at "@ + now
}

/// One step of a round during a complete network outage.
pub open spec fn complete_network_outage_spec(
    config: Config,
    lines: Seq<Seq<char>>,
    event: EventType,
    stage: Stage,
    reply: Option<PingReply>,
    moment: Moment,
) -> StepView {
    let secondary = config.secondary_internal_target->0@;
    let router = config.router_ip@;
    let current = config.current_spec();
    let recovery = config.interval_recovery;
    let index = config.index as int;
    let now = moment.now@;
    let state = ConnectionState::CompleteNetworkOutage;
    match stage {
        Stage::Begin => StepView { stage: Stage::First, command: ping_view(secondary, recovery, 0), lines, event, index },
        Stage::First => {
            let noted = lines + reply_lines(secondary, state, reply->0);
            if answered(reply->0) {
                StepView {
                    stage: Stage::Second,
                    command: ping_view(router, recovery, 0),
                    lines: noted + secondary_back_lines(now, router),
                    event,
                    index,
                }
            } else {
                StepView {
                    stage: Stage::Begin,
                    command: finish_view(None, OUTAGE_PAUSE_MS, Seq::empty(), false),
                    lines: noted,
                    event,
                    index,
                }
            }
        },
        Stage::Second => {
            let noted = lines + reply_lines(router, state, reply->0);
            if answered(reply->0) {
                StepView { stage: Stage::Third, command: ping_view(current, recovery, 0), lines: noted, event, index }
            } else {
                StepView {
                    stage: Stage::Begin,
                    command: finish_view(
                        Some(ConnectionState::LocalOutage),
                        0,
                        seq![
                            MarkerChange::Remove(Marker::CompleteNetworkOutage),
                            MarkerChange::Create(Marker::LocalOutage),
                        ],
                        false,
                    ),
                    lines: noted + declaration_lines("🔴 Declaring local outage at "@ + now),
                    event: EventType::LocalOutage,
                    index,
                }
            }
        },
        _ => {
            let noted = lines + reply_lines(current, state, reply->0);
            if answered(reply->0) {
                let declared = noted + declaration_lines("🟢 Declaring router online at "@ + now);
                StepView {
                    stage: Stage::Begin,
                    command: finish_saving_view(
                        Some(ConnectionState::Online),
                        log_file_name_spec(EventType::Online, now),
                        log_text(declared + closing_lines(outage_end_line(now), moment.log_age@)),
                        seq![MarkerChange::Remove(Marker::CompleteNetworkOutage)],
                    ),
                    lines: Seq::empty(),
                    event: EventType::Online,
                    index,
                }
            } else {
                StepView {
                    stage: Stage::Begin,
                    command: finish_view(
                        Some(ConnectionState::IspOutage),
                        0,
                        seq![
                            MarkerChange::Remove(Marker::CompleteNetworkOutage),
                            MarkerChange::Create(Marker::IspOutage),
                        ],
                        false,
                    ),
                    lines: noted + declaration_lines("🔴 Declaring ISP outage at "@ + now),
                    event: EventType::IspOutage,
                    index,
                }
            }
        },
    }
}

/// One step of a round during a complete network outage.
///
/// The round pings the secondary internal target; while it stays silent
/// the outage goes on. Once it answers, the router is pinged: if it stays
/// silent, a local outage is declared; if it answers, the current outside
/// target decides between the connection being back online (the outage is
/// over and its log is saved) and an ISP outage.
pub fn complete_network_outage(
    config: &Config,
    logger: &mut Logger,
    stage: Stage,
    reply: Option<PingReply>,
    moment: &Moment,
) -> (res: (Stage, Command))
    requires
        config.wf(),
        config.secondary_internal_target is Some,
        complete_network_outage_stage(stage),
        (stage is Begin) == (reply is None),
    ensures
        follows(
            complete_network_outage_spec(*config, old(logger).lines(), old(logger).event(), stage, reply, *moment),
            res.0,
            res.1,
            *final(logger),
        ),
        final(logger).dir() == old(logger).dir(),
{
    let state = ConnectionState::CompleteNetworkOutage;
    match stage {
        Stage::Begin => {
            let secondary = config.secondary_internal_target.as_ref().unwrap().clone();
            (Stage::First, ping_command(secondary, config.interval_recovery, 0))
        },
        Stage::First => {
            let secondary = config.secondary_internal_target.as_ref().unwrap();
            if is_answering_ping(secondary.as_str(), reply.unwrap(), logger, state) {
                (Stage::Second, end_complete_network_outage(config, logger, moment))
            } else {
                (Stage::Begin, sleep_outage())
            }
        },
        Stage::Second => {
            if is_answering_ping(config.router_ip.as_str(), reply.unwrap(), logger, state) {
                (Stage::Third, ping_command(config.current_target(), config.interval_recovery, 0))
            } else {
                (Stage::Begin, move_to_local_outage(logger, moment))
            }
        },
        _ => {
            let target = config.current_target();
            if is_answering_ping(target.as_str(), reply.unwrap(), logger, state) {
                (Stage::Begin, move_to_online(logger, moment))
            } else {
                (Stage::Begin, move_to_isp_outage(logger, moment))
            }
        },
    }
}

/// Records that the secondary internal target is back and asks for the router.
fn end_complete_network_outage(config: &Config, logger: &mut Logger, moment: &Moment) -> (command: Command)
    requires
        config.wf(),
    ensures
        command@ == ping_view(config.router_ip@, config.interval_recovery, 0),
        final(logger).lines() == old(logger).lines() + secondary_back_lines(moment.now@, config.router_ip@),
        final(logger).event() == old(logger).event(),
        final(logger).dir() == old(logger).dir(),
{
    logger.add_log_line(
        String::from_str("🟢 Connection with secondary internal target established at ").concat(
            moment.now.as_str(),
        ),
    );
    logger.add_small_separator();
    logger.add_log_line(String::from_str("Checking router at ").concat(config.router_ip.as_str()));
    assert(logger.lines() =~= old(logger).lines() + secondary_back_lines(moment.now@, config.router_ip@));
    ping_command(config.router_ip.clone(), config.interval_recovery, 0)
}

/// Appends a declaration between a small and a large separator and records the incident kind.
fn declare(logger: &mut Logger, declaration: String, event_type: EventType)
    ensures
        final(logger).lines() == old(logger).lines() + declaration_lines(declaration@),
        final(logger).event() == event_type,
        final(logger).dir() == old(logger).dir(),
{
    logger.add_small_separator();
    logger.add_log_line(declaration);
    logger.add_large_separator();
    logger.set_event_type(event_type);
    assert(logger.lines() =~= old(logger).lines() + declaration_lines(declaration@));
}

/// The router stayed silent: declare a local outage.
fn move_to_local_outage(logger: &mut Logger, moment: &Moment) -> (command: Command)
    ensures
        command@ == finish_view(
            Some(ConnectionState::LocalOutage),
            0,
            seq![MarkerChange::Remove(Marker::CompleteNetworkOutage), MarkerChange::Create(Marker::LocalOutage)],
            false,
        ),
        final(logger).lines() == old(logger).lines() + declaration_lines("🔴 Declaring local outage at "@ + moment.now@),
        final(logger).event() == EventType::LocalOutage,
        final(logger).dir() == old(logger).dir(),
{
    declare(logger, String::from_str("🔴 Declaring local outage at ").concat(moment.now.as_str()), EventType::LocalOutage);
    let mut markers: Vec<MarkerChange> = Vec::new();
    markers.push(MarkerChange::Remove(Marker::CompleteNetworkOutage));
    markers.push(MarkerChange::Create(Marker::LocalOutage));
    assert(markers@ =~= seq![MarkerChange::Remove(Marker::CompleteNetworkOutage), MarkerChange::Create(Marker::LocalOutage)]);
    finish_command(Some(ConnectionState::LocalOutage), 0, markers, false)
}

/// The outside answered too: the connection is back online, and the log of
/// the outage is closed and saved. The closing line "🟢 Complete network
/// outage end at ..." is this library's own wording: it marks where the log
/// of a complete network outage ends, as the other outages' logs end with a
/// line of their own.
fn move_to_online(logger: &mut Logger, moment: &Moment) -> (command: Command)
    ensures
        command@ == finish_saving_view(
            Some(ConnectionState::Online),
            log_file_name_spec(EventType::Online, moment.now@),
            log_text(
                old(logger).lines() + declaration_lines("🟢 Declaring router online at "@ + moment.now@)
                    + closing_lines(outage_end_line(moment.now@), moment.log_age@),
            ),
            seq![MarkerChange::Remove(Marker::CompleteNetworkOutage)],
        ),
        final(logger).lines() == Seq::<Seq<char>>::empty(),
        final(logger).event() == EventType::Online,
        final(logger).dir() == old(logger).dir(),
{
    declare(logger, String::from_str("🟢 Declaring router online at ").concat(moment.now.as_str()), EventType::Online);
    let saved = logger.end_log(String::from_str("🟢 Complete network outage end at ").concat(moment.now.as_str()), moment);
    let mut markers: Vec<MarkerChange> = Vec::new();
    markers.push(MarkerChange::Remove(Marker::CompleteNetworkOutage));
    assert(markers@ =~= seq![MarkerChange::Remove(Marker::CompleteNetworkOutage)]);
    finish_saving_command(Some(ConnectionState::Online), saved, markers)
}

/// The router answered but the outside did not: declare an ISP outage.
fn move_to_isp_outage(logger: &mut Logger, moment: &Moment) -> (command: Command)
    ensures
        command@ == finish_view(
            Some(ConnectionState::IspOutage),
            0,
            seq![MarkerChange::Remove(Marker::CompleteNetworkOutage), MarkerChange::Create(Marker::IspOutage)],
            false,
        ),
        final(logger).lines() == old(logger).lines() + declaration_lines("🔴 Declaring ISP outage at "@ + moment.now@),
        final(logger).event() == EventType::IspOutage,
        final(logger).dir() == old(logger).dir(),
{
    declare(logger, String::from_str("🔴 Declaring ISP outage at ").concat(moment.now.as_str()), EventType::IspOutage);
    let mut markers: Vec<MarkerChange> = Vec::new();
    markers.push(MarkerChange::Remove(Marker::CompleteNetworkOutage));
    markers.push(MarkerChange::Create(Marker::IspOutage));
    assert(markers@ =~= seq![MarkerChange::Remove(Marker::CompleteNetworkOutage), MarkerChange::Create(Marker::IspOutage)]);
    finish_command(Some(ConnectionState::IspOutage), 0, markers, false)
}

} // verus!
