//! Policy core of a deceptive SSH endpoint and its adversarial client.
//!
//! The server side captures whatever credentials and commands an attacker
//! submits, answers with a scripted taunt, and keeps a dedup-counted ledger
//! of captured credential pairs.  The client side drives many independent
//! SSH attempts under a fixed concurrency ceiling and reports throughput.
//!
//! This crate holds the verified policy: the per-connection session state
//! machine, the credential ledger semantics, the dispatcher's admission and
//! fail-fast rules, and the metrics arithmetic.  Network transport, durable
//! storage, and scheduling live outside, behind plain-value interfaces.

use vstd::prelude::*;

pub mod byteseq;
pub mod dispatch;
pub mod ledger;
pub mod metrics;
pub mod session;

verus! {

/// Most channels a single session may hold open at once; the attempt to
/// open one past the cap disconnects the session.
pub const MAX_OPEN_CHANNELS: usize = 16;

/// Fixed delay, in milliseconds, before an authentication rejection is
/// reported to the client (a tarpit against brute-force tooling).
pub const AUTH_REJECTION_DELAY_MS: u64 = 100;

/// Idle time, in milliseconds, after which a session is terminated.
pub const INACTIVITY_TIMEOUT_MS: u64 = 3000;

/// Banner text shown to every client before credential prompts.
pub fn auth_banner() -> (r: &'static str)
    ensures
        r@ == "oh~~~? mahou syouzyo? let me torture you~~~\n"@,
{
    "oh~~~? mahou syouzyo? let me torture you~~~\n"
}

} // verus!
