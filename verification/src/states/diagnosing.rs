//! Both targets stayed silent: find out whether the router or the ISP is down.
use vstd::prelude::*;
use vstd::string::StringExecFns;

use crate::config::Config;
use crate::log::{decimal, decimal_text, large_separator_lines, small_separator, EventType, Logger, Moment};
use crate::probe::{answered, is_answering_ping, reply_lines, PingReply};

use super::{
    finish_command, finish_view, follows, ping_command, ping_view, Command, ConnectionState, Marker,
    MarkerChange, Stage, StepView,
};

verus! {

/// How many outside targets are tried before an ISP outage is declared:
/// a third of them, rounded up.
pub open spec fn target_amount(len: int) -> int {
    len / 3 + if len % 3 > 0 { 1int } else { 0int }
}

/// The stages of a round while diagnosing, for a ring of `len` targets.
pub open spec fn diagnosing_stage(stage: Stage, len: int) -> bool {
    match stage {
        Stage::Begin | Stage::First => true,
        Stage::Target(tried) => tried < target_amount(len),
        _ => false,
    }
}

/// The lines that open a diagnosis.
pub open spec fn diagnosis_header(now: Seq<char>, router: Seq<char>) -> Seq<Seq<char>> {
    seq!["🟡 Diagnosing - "@ + now, small_separator(), "Checking router at "@ + router]
}

/// The lines that declare a local outage after the router stayed silent.
pub open spec fn router_down_lines(now: Seq<char>) -> Seq<Seq<char>> {
    seq![
        small_separator(),
        "🔴 Router is down"@,
        "🔴 Declaring local outage at "@ + now + " - Roll the Trucks!"@,
    ] + large_separator_lines()
}

/// The lines that declare an ISP outage after `amount` outside targets stayed silent.
pub open spec fn targets_failed_lines(amount: nat, now: Seq<char>) -> Seq<Seq<char>> {
    seq![
        small_separator(),
        "🔴 Mr. President, "@ + decimal(amount) + " more targets have failed to answer"@,
        "🔴 Declaring ISP outage at "@ + now,
    ] + large_separator_lines()
}

/// One step of a round while diagnosing.
pub open spec fn diagnosing_spec(
    config: Config,
    lines: Seq<Seq<char>>,
    event: EventType,
    stage: Stage,
    reply: Option<PingReply>,
    moment: crate::log::Moment,
) -> StepView {
    let recovery = config.interval_recovery;
    let index = config.index as int;
    let len = config.targets@.len() as int;
    match stage {
        Stage::Begin => StepView {
            stage: Stage::First,
            command: ping_view(config.router_ip@, recovery, 0),
            lines: lines + diagnosis_header(moment.now@, config.router_ip@),
            event,
            index,
        },
        Stage::First => {
            let noted = lines + reply_lines(config.router_ip@, ConnectionState::Diagnosing, reply->0);
            if answered(reply->0) {
                StepView {
                    stage: Stage::Target(0),
                    command: ping_view(config.current_spec(), recovery, 0),
                    lines: noted.push(small_separator()),
                    event,
                    index,
                }
            } else {
                StepView {
                    stage: Stage::Begin,
                    command: finish_view(
                        Some(ConnectionState::LocalOutage),
                        0,
                        seq![MarkerChange::Remove(Marker::Diagnosing), MarkerChange::Create(Marker::LocalOutage)],
                        false,
                    ),
                    lines: noted + router_down_lines(moment.now@),
                    event: EventType::LocalOutage,
                    index,
                }
            }
        },
        Stage::Target(tried) => {
            let noted = lines + reply_lines(config.current_spec(), ConnectionState::Diagnosing, reply->0);
            if answered(reply->0) {
                StepView {
                    stage: Stage::Begin,
                    command: finish_view(
                        Some(ConnectionState::Online),
                        0,
                        seq![MarkerChange::Remove(Marker::Diagnosing)],
                        true,
                    ),
                    lines: Seq::empty(),
                    event,
                    index,
                }
            } else if tried + 1 < target_amount(len) {
                StepView {
                    stage: Stage::Target((tried + 1) as usize),
                    command: ping_view(config.next_spec(), recovery, recovery),
                    lines: noted,
                    event,
                    index: (index + 1) % len,
                }
            } else {
                StepView {
                    stage: Stage::Begin,
                    command: finish_view(
                        Some(ConnectionState::IspOutage),
                        recovery,
                        seq![MarkerChange::Remove(Marker::Diagnosing), MarkerChange::Create(Marker::IspOutage)],
                        false,
                    ),
                    lines: noted + targets_failed_lines(target_amount(len) as nat, moment.now@),
                    event: EventType::IspOutage,
                    index: (index + 1) % len,
                }
            }
        },
        _ => StepView { stage, command: finish_view(None, 0, Seq::empty(), false), lines, event, index },
    }
}

/// One step of a round while diagnosing.
///
/// The round pings the router: if it stays silent, a local outage is
/// declared. Otherwise up to a third of the outside targets are pinged in
/// turn, with a pause before each further one; if just one of them answers,
/// the connection is fine and the diagnosis log is dropped. If none answers,
/// an ISP outage is declared.
pub fn diagnosing(
    config: &mut Config,
    logger: &mut Logger,
    stage: Stage,
    reply: Option<PingReply>,
    moment: &Moment,
) -> (res: (Stage, Command))
    requires
        old(config).wf(),
        diagnosing_stage(stage, old(config).targets@.len() as int),
        (stage is Begin) == (reply is None),
    ensures
        follows(
            diagnosing_spec(*old(config), old(logger).lines(), old(logger).event(), stage, reply, *moment),
            res.0,
            res.1,
            *final(logger),
        ),
        final(config).index == diagnosing_spec(
            *old(config), old(logger).lines(), old(logger).event(), stage, reply, *moment).index,
        final(config).wf(),
        final(config).targets == old(config).targets,
        final(config).router_ip == old(config).router_ip,
        final(config).secondary_internal_target == old(config).secondary_internal_target,
        final(config).interval_normal == old(config).interval_normal,
        final(config).interval_recovery == old(config).interval_recovery,
        final(config).log_dir_path == old(config).log_dir_path,
        final(logger).dir() == old(logger).dir(),
{
    match stage {
        Stage::Begin => {
            logger.add_log_line(String::from_str("🟡 Diagnosing - ").concat(moment.now.as_str()));
            logger.add_small_separator();
            logger.add_log_line(String::from_str("Checking router at ").concat(config.router_ip.as_str()));
            assert(logger.lines() =~= old(logger).lines() + diagnosis_header(moment.now@, config.router_ip@));
            (Stage::First, ping_command(config.router_ip.clone(), config.interval_recovery, 0))
        },
        Stage::First => {
            if is_answering_ping(config.router_ip.as_str(), reply.unwrap(), logger, ConnectionState::Diagnosing) {
                logger.add_small_separator();
                (Stage::Target(0), ping_command(config.current_target(), config.interval_recovery, 0))
            } else {
                (Stage::Begin, move_to_local_outage(logger, moment))
            }
        },
        Stage::Target(tried) => diagnose_isp(config, logger, tried, reply.unwrap(), moment),
        _ => (stage, finish_command(None, 0, Vec::new(), false)),
    }
}

/// Handles the reply of the outside target probed after `tried` silent ones.
fn diagnose_isp(
    config: &mut Config,
    logger: &mut Logger,
    tried: usize,
    reply: PingReply,
    moment: &Moment,
) -> (res: (Stage, Command))
    requires
        old(config).wf(),
        tried < target_amount(old(config).targets@.len() as int),
    ensures
        follows(
            diagnosing_spec(
                *old(config),
                old(logger).lines(),
                old(logger).event(),
                Stage::Target(tried),
                Some(reply),
                *moment,
            ),
            res.0,
            res.1,
            *final(logger),
        ),
        final(config).index == diagnosing_spec(
            *old(config), old(logger).lines(), old(logger).event(), Stage::Target(tried), Some(reply), *moment).index,
        final(config).wf(),
        final(config).targets == old(config).targets,
        final(config).router_ip == old(config).router_ip,
        final(config).secondary_internal_target == old(config).secondary_internal_target,
        final(config).interval_normal == old(config).interval_normal,
        final(config).interval_recovery == old(config).interval_recovery,
        final(config).log_dir_path == old(config).log_dir_path,
        final(logger).dir() == old(logger).dir(),
{
    let len = config.targets.len();
    let amount = len / 3 + if len % 3 > 0 { 1 } else { 0 };
    let target = config.current_target();
    if is_answering_ping(target.as_str(), reply, logger, ConnectionState::Diagnosing) {
        // If just one outside target answers, we're good
        return (Stage::Begin, move_to_online(logger));
    }
    config.iter_targets();
    if tried + 1 < amount {
        return (
            Stage::Target(tried + 1),
            ping_command(config.current_target(), config.interval_recovery, config.interval_recovery),
        );
    }
    let ghost noted = logger.lines();
    logger.add_small_separator();
    logger.add_log_line(
        String::from_str("🔴 Mr. President, ").concat(decimal_text(amount as u128).as_str()).concat(
            " more targets have failed to answer",
        ),
    );
    let command = move_to_isp_outage(logger, moment, config.interval_recovery);
    assert(amount == target_amount(len as int));
    assert(logger.lines() =~= noted + targets_failed_lines(amount as nat, moment.now@));
    (Stage::Begin, command)
}

/// Drops the diagnosis log and ends the round online.
fn move_to_online(logger: &mut Logger) -> (command: Command)
    ensures
        command@ == finish_view(
            Some(ConnectionState::Online),
            0,
            seq![MarkerChange::Remove(Marker::Diagnosing)],
            true,
        ),
        final(logger).lines() == Seq::<Seq<char>>::empty(),
        final(logger).dir() == old(logger).dir(),
        final(logger).event() == old(logger).event(),
{
    logger.reset();
    let mut markers: Vec<MarkerChange> = Vec::new();
    markers.push(MarkerChange::Remove(Marker::Diagnosing));
    assert(markers@ =~= seq![MarkerChange::Remove(Marker::Diagnosing)]);
    finish_command(Some(ConnectionState::Online), 0, markers, true)
}

/// Declares an ISP outage and ends the round in it, after a pause.
fn move_to_isp_outage(logger: &mut Logger, moment: &Moment, wait_ms: u64) -> (command: Command)
    ensures
        command@ == finish_view(
            Some(ConnectionState::IspOutage),
            wait_ms,
            seq![MarkerChange::Remove(Marker::Diagnosing), MarkerChange::Create(Marker::IspOutage)],
            false,
        ),
        final(logger).lines() == old(logger).lines() + seq!["🔴 Declaring ISP outage at "@ + moment.now@]
            + large_separator_lines(),
        final(logger).dir() == old(logger).dir(),
        final(logger).event() == EventType::IspOutage,
{
    logger.add_log_line(String::from_str("🔴 Declaring ISP outage at ").concat(moment.now.as_str()));
    logger.add_large_separator();
    logger.set_event_type(EventType::IspOutage);
    assert(logger.lines() =~= old(logger).lines() + seq!["🔴 Declaring ISP outage at "@ + moment.now@]
        + large_separator_lines());
    let mut markers: Vec<MarkerChange> = Vec::new();
    markers.push(MarkerChange::Remove(Marker::Diagnosing));
    markers.push(MarkerChange::Create(Marker::IspOutage));
    assert(markers@ =~= seq![MarkerChange::Remove(Marker::Diagnosing), MarkerChange::Create(Marker::IspOutage)]);
    finish_command(Some(ConnectionState::IspOutage), wait_ms, markers, false)
}

/// Declares a local outage and ends the round in it.
fn move_to_local_outage(logger: &mut Logger, moment: &Moment) -> (command: Command)
    ensures
        command@ == finish_view(
            Some(ConnectionState::LocalOutage),
            0,
            seq![MarkerChange::Remove(Marker::Diagnosing), MarkerChange::Create(Marker::LocalOutage)],
            false,
        ),
        final(logger).lines() == old(logger).lines() + router_down_lines(moment.now@),
        final(logger).dir() == old(logger).dir(),
        final(logger).event() == EventType::LocalOutage,
{
    logger.add_small_separator();
    logger.add_log_line(String::from_str("🔴 Router is down"));
    logger.add_log_line(
        String::from_str("🔴 Declaring local outage at ").concat(moment.now.as_str()).concat(" - Roll the Trucks!"),
    );
    logger.add_large_separator();
    logger.set_event_type(EventType::LocalOutage);
    assert(logger.lines() =~= old(logger).lines() + router_down_lines(moment.now@));
    let mut markers: Vec<MarkerChange> = Vec::new();
    markers.push(MarkerChange::Remove(Marker::Diagnosing));
    markers.push(MarkerChange::Create(Marker::LocalOutage));
    assert(markers@ =~= seq![MarkerChange::Remove(Marker::Diagnosing), MarkerChange::Create(Marker::LocalOutage)]);
    finish_command(Some(ConnectionState::LocalOutage), 0, markers, false)
}

} // verus!
