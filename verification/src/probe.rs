//! What the answer to one ping means for the log.
use vstd::prelude::*;
use vstd::string::StringExecFns;

use crate::log::Logger;
use crate::states::ConnectionState;

verus! {

/// How one ping ended: the host answered, it stayed silent, or the ping
/// could not be run at all (with the reason as text).
pub enum PingReply {
    Answered,
    Silent,
    Failed(String),
}

/// The line that records an answering target.
pub open spec fn answering_line(addr: Seq<char>) -> Seq<char> {
    "🟢 Target '"@ + addr + "' is answering"@
}

/// The line that records a silent target.
pub open spec fn silent_line(addr: Seq<char>) -> Seq<char> {
    "🔴 Target '"@ + addr + "' is not answering"@
}

/// Whether the reply means that the host answered.
pub open spec fn answered(reply: PingReply) -> bool {
    reply is Answered
}

/// The lines that a reply from `addr` adds to the log while in `state`: an
/// answer is recorded unless the connection is online, silence always is,
/// and a failure to ping is recorded by its reason.
pub open spec fn reply_lines(addr: Seq<char>, state: ConnectionState, reply: PingReply) -> Seq<Seq<char>> {
    match reply {
        PingReply::Answered => if state == ConnectionState::Online {
            Seq::empty()
        } else {
            seq![answering_line(addr)]
        },
        PingReply::Silent => seq![silent_line(addr)],
        PingReply::Failed(reason) => seq![reason@],
    }
}

/// Records the reply of a ping to `addr` in the log and tells whether the
/// host answered.
pub fn is_answering_ping(addr: &str, reply: PingReply, logger: &mut Logger, state: ConnectionState) -> (answering: bool)
    ensures
        answering == answered(reply),
        final(logger).lines() == old(logger).lines() + reply_lines(addr@, state, reply),
        final(logger).dir() == old(logger).dir(),
        final(logger).event() == old(logger).event(),
{
    match reply {
        PingReply::Answered => {
            if state != ConnectionState::Online {
                logger.add_log_line(String::from_str("🟢 Target '").concat(addr).concat("' is answering"));
            } else {
                assert(old(logger).lines() + Seq::<Seq<char>>::empty() =~= old(logger).lines());
            }
            true
        },
        PingReply::Silent => {
            logger.add_log_line(String::from_str("🔴 Target '").concat(addr).concat("' is not answering"));
            false
        },
        PingReply::Failed(reason) => {
            logger.add_log_line(reason);
            false
        },
    }
}

} // verus!
