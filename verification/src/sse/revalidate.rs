//! What makes an already-open stream stop being allowed. A stream has no
//! next request, so revocation is asked on a tick: is the credential still
//! live (every tick), and is the authority still sufficient (only when the
//! workspace's authorization epoch has moved, which any change that could
//! alter the answer bumps in its own transaction).
//!
//! It fails open on a fault and closed on an answer: a database that
//! cannot be reached keeps the stream, because dropping every stream at
//! once on a transient fault is an outage; a dead credential or a refused
//! authorization ends it.
use vstd::prelude::*;

verus! {

/// How long between checks, in nanoseconds: the revocation window, 15 s,
/// half the heartbeat.
pub const INTERVAL: u128 = 15_000_000_000;

/// Why a stream was ended.
#[derive(Debug, Clone, Copy, PartialEq, Eq, Structural)]
pub enum Ended {
    /// The credential is gone: revoked, expired, or logged out.
    CredentialRevoked,
    /// The credential is fine; the authority behind it no longer permits
    /// this project.
    AuthorityWithdrawn,
}

/// The outcome of one round of the two questions.
#[derive(Debug, Clone, Copy, PartialEq, Eq, Structural)]
pub enum Verdict {
    /// Nothing changed.
    Keep,
    /// Still authorized under a new epoch: remember it, so the expensive
    /// question is not asked again until the epoch moves again.
    Adopt(i64),
    /// Close the stream.
    End(Ended),
}

/// The first question's answer: `None` when the credential is live and the
/// round goes on. A failed authentication ends the stream only when it is
/// an authentication answer (`401`); anything else is the database being
/// unwell, and keeps it.
pub open spec fn authentication_verdict(failure: Option<u16>) -> Option<Verdict> {
    match failure {
        None => None,
        Some(status) => if status == 401 {
            Some(Verdict::End(Ended::CredentialRevoked))
        } else {
            Some(Verdict::Keep)
        },
    }
}

/// After re-presenting the credential, with the status it failed with.
pub fn after_authentication(failure: Option<u16>) -> (r: Option<Verdict>)
    ensures
        r == authentication_verdict(failure),
{
    match failure {
        None => None,
        Some(status) => if status == 401 {
            Some(Verdict::End(Ended::CredentialRevoked))
        } else {
            Some(Verdict::Keep)
        },
    }
}

/// An unchanged epoch proves re-resolving would give the same answer.
pub fn needs_reauthorization(epoch: i64, known: i64) -> (r: bool)
    ensures
        r == (epoch != known),
{
    epoch != known
}

/// The second question's answer, from the subscription decision under the
/// new epoch: `None` when it could not be resolved, which is not a refusal.
pub open spec fn reauthorization_verdict(decision: Option<bool>, epoch: i64) -> Verdict {
    match decision {
        Some(false) => Verdict::End(Ended::AuthorityWithdrawn),
        _ => Verdict::Adopt(epoch),
    }
}

/// After asking the subscription question again; `decision` is whether it
/// was admitted, when it could be answered.
pub fn after_reauthorization(decision: Option<bool>, epoch: i64) -> (v: Verdict)
    ensures
        v == reauthorization_verdict(decision, epoch),
{
    match decision {
        Some(false) => Verdict::End(Ended::AuthorityWithdrawn),
        _ => Verdict::Adopt(epoch),
    }
}

/// What the watcher does after a tick.
#[derive(Debug, Clone, Copy, PartialEq, Eq, Structural)]
pub enum TickAction {
    /// The stream ended on its own; stop watching.
    Stop,
    /// Cancel the stream, for this reason.
    Cancel(Ended),
    /// Keep watching, under this epoch.
    Continue(i64),
}

pub open spec fn tick_action(live: bool, round: Option<Verdict>, known: i64) -> TickAction {
    if !live {
        TickAction::Stop
    } else {
        match round {
            None => TickAction::Continue(known),
            Some(Verdict::Keep) => TickAction::Continue(known),
            Some(Verdict::Adopt(e)) => TickAction::Continue(e),
            Some(Verdict::End(why)) => TickAction::Cancel(why),
        }
    }
}

/// One tick: a stream that is gone stops the watcher, so a closed
/// connection leaves no task behind polling for it; a round that failed
/// (`None`) is transient and keeps the stream.
pub fn on_tick(live: bool, round: Option<Verdict>, known: i64) -> (a: TickAction)
    ensures
        a == tick_action(live, round, known),
{
    if !live {
        return TickAction::Stop;
    }
    match round {
        None => TickAction::Continue(known),
        Some(Verdict::Keep) => TickAction::Continue(known),
        Some(Verdict::Adopt(e)) => TickAction::Continue(e),
        Some(Verdict::End(why)) => TickAction::Cancel(why),
    }
}

/// A live stream is cancelled only for an answer: a dead credential or a
/// withdrawn authority. A fault, however it shows (a round that failed, an
/// authentication that failed with anything but `401`), keeps the stream.
pub proof fn law_only_an_answer_cancels(live: bool, failure: Option<u16>, known: i64)
    ensures
        failure matches Some(s) && s != 401 ==> tick_action(
            live,
            authentication_verdict(failure),
            known,
        ) != TickAction::Cancel(Ended::CredentialRevoked) && !(tick_action(
            live,
            authentication_verdict(failure),
            known,
        ) is Cancel),
        live && failure == Some(401u16) ==> tick_action(live, authentication_verdict(failure), known)
            == TickAction::Cancel(Ended::CredentialRevoked),
        !(tick_action(live, None, known) is Cancel),
{
}

} // verus!
