//! When a bot whose connection ended connects again.

use vstd::prelude::*;

verus! {

/// How a connection of a bot ended.
#[derive(Debug, Clone, Copy, PartialEq, Eq, Structural)]
pub enum SessionEnd {
    /// The connection ended without an error.
    Finished,
    /// The connection was aborted, refused or reset, timed out, was not
    /// connected, or the network is down.
    Retryable,
    /// Any other error.
    Fatal,
}

/// How a connection failed, as far as the reconnection decision tells the
/// errors apart.
#[derive(Debug, Clone, Copy, PartialEq, Eq, Structural)]
pub enum FailureKind {
    ConnectionAborted,
    ConnectionRefused,
    ConnectionReset,
    TimedOut,
    NotConnected,
    NetworkDown,
    /// Any other error.
    Other,
}

/// How a connection ended: without an error (`None`), with an error a new
/// connection may cure, or with another error.
pub open spec fn spec_session_end(failure: Option<FailureKind>) -> SessionEnd {
    match failure {
        None => SessionEnd::Finished,
        Some(FailureKind::Other) => SessionEnd::Fatal,
        Some(_) => SessionEnd::Retryable,
    }
}

/// Sorts how a connection ended: aborted, refused, reset, timed-out,
/// unconnected and network-down errors are retryable; other errors are fatal.
pub fn session_end(failure: Option<FailureKind>) -> (r: SessionEnd)
    ensures
        r == spec_session_end(failure),
        r == SessionEnd::Finished <==> failure is None,
        r == SessionEnd::Fatal <==> failure == Some(FailureKind::Other),
        r == SessionEnd::Retryable <==> (failure == Some(FailureKind::ConnectionAborted) || failure
            == Some(FailureKind::ConnectionRefused) || failure == Some(FailureKind::ConnectionReset)
            || failure == Some(FailureKind::TimedOut) || failure == Some(FailureKind::NotConnected)
            || failure == Some(FailureKind::NetworkDown)),
{
    match failure {
        None => SessionEnd::Finished,
        Some(FailureKind::Other) => SessionEnd::Fatal,
        Some(_) => SessionEnd::Retryable,
    }
}

/// A connection that ended without an error is finished; one that was
/// aborted, refused or reset, timed out, was not connected, or lost the
/// network is retried; any other error is fatal.
pub proof fn lemma_session_end_kinds(failure: Option<FailureKind>)
    ensures
        failure is None ==> spec_session_end(failure) == SessionEnd::Finished,
        failure == Some(FailureKind::ConnectionAborted) ==> spec_session_end(failure)
            == SessionEnd::Retryable,
        failure == Some(FailureKind::ConnectionRefused) ==> spec_session_end(failure)
            == SessionEnd::Retryable,
        failure == Some(FailureKind::ConnectionReset) ==> spec_session_end(failure)
            == SessionEnd::Retryable,
        failure == Some(FailureKind::TimedOut) ==> spec_session_end(failure) == SessionEnd::Retryable,
        failure == Some(FailureKind::NotConnected) ==> spec_session_end(failure)
            == SessionEnd::Retryable,
        failure == Some(FailureKind::NetworkDown) ==> spec_session_end(failure)
            == SessionEnd::Retryable,
        failure == Some(FailureKind::Other) ==> spec_session_end(failure) == SessionEnd::Fatal,
{
}

/// The automatic reconnection settings of a bot.
#[derive(Debug, Clone, Copy, PartialEq, Eq, Structural)]
pub struct ReconnectPolicy {
    /// Whether the bot connects again after a retryable error.
    pub enabled: bool,
    /// How long to wait before connecting again, in milliseconds.
    pub reconnect_delay: u64,
    /// How many times to connect again; -1 for no limit.
    pub max_attempts: i32,
}

/// What the bot does after a connection ended.
#[derive(Debug, Clone, Copy, PartialEq, Eq, Structural)]
pub enum ReconnectStep {
    /// The connection task ends with the connection's result.
    Stop,
    /// The bot waits for the delay and connects again; the attempt is counted.
    Retry,
}

/// How many reconnections the settings allow: the configured number when
/// reconnection is on, one otherwise.
pub open spec fn spec_attempt_limit(policy: ReconnectPolicy) -> i32 {
    if policy.enabled {
        policy.max_attempts
    } else {
        1
    }
}

/// What follows the end of a connection, after `attempts` reconnections: a
/// retryable error is retried while reconnection is on and the limit, unless
/// it is -1, is not reached; everything else stops.
pub open spec fn spec_reconnect_step(end: SessionEnd, policy: ReconnectPolicy, attempts: i32) -> ReconnectStep {
    match end {
        SessionEnd::Retryable => {
            let limit = spec_attempt_limit(policy);
            if !policy.enabled || (limit != -1 && attempts >= limit) {
                ReconnectStep::Stop
            } else {
                ReconnectStep::Retry
            }
        },
        _ => ReconnectStep::Stop,
    }
}

/// Decides what follows the end of a connection, and counts the attempt when
/// the bot connects again.
pub fn reconnect_decision(end: SessionEnd, policy: &ReconnectPolicy, attempts: i32) -> (res: (
    ReconnectStep,
    i32,
))
    requires
        spec_reconnect_step(end, *policy, attempts) == ReconnectStep::Retry ==> attempts < i32::MAX,
    ensures
        res.0 == spec_reconnect_step(end, *policy, attempts),
        res.1 == if res.0 == ReconnectStep::Retry {
            attempts + 1
        } else {
            attempts as int
        },
        end != SessionEnd::Retryable ==> res == (ReconnectStep::Stop, attempts),
        !policy.enabled ==> res == (ReconnectStep::Stop, attempts),
        end == SessionEnd::Retryable && policy.enabled && (policy.max_attempts == -1 || attempts
            < policy.max_attempts) ==> res.0 == ReconnectStep::Retry && res.1 == attempts + 1,
        policy.max_attempts != -1 && attempts >= policy.max_attempts ==> res == (
            ReconnectStep::Stop,
            attempts,
        ),
{
    let max_attempts = if policy.enabled {
        policy.max_attempts
    } else {
        1
    };
    match end {
        SessionEnd::Retryable => {
            if !policy.enabled || (max_attempts != -1 && attempts >= max_attempts) {
                (ReconnectStep::Stop, attempts)
            } else {
                (ReconnectStep::Retry, attempts + 1)
            }
        },
        _ => (ReconnectStep::Stop, attempts),
    }
}

/// With a limit other than -1, a bot that has reconnected as often as the
/// limit allows is not told to connect again.
pub proof fn lemma_attempts_bounded(end: SessionEnd, policy: ReconnectPolicy, attempts: i32)
    requires
        spec_attempt_limit(policy) != -1,
        attempts >= spec_attempt_limit(policy),
    ensures
        spec_reconnect_step(end, policy, attempts) == ReconnectStep::Stop,
{
}

/// A connection that ended without a retryable error, or any connection when
/// reconnection is off, is never followed by another.
pub proof fn lemma_only_retryable_retried(end: SessionEnd, policy: ReconnectPolicy, attempts: i32)
    requires
        end != SessionEnd::Retryable || !policy.enabled,
    ensures
        spec_reconnect_step(end, policy, attempts) == ReconnectStep::Stop,
{
}

} // verus!
