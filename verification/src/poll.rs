//! Polling a process or a local port until it reaches the expected state: the
//! decision taken after each observation.

use vstd::prelude::*;
use crate::text::{chars_of, dec, fmt_u64, push_all, push_str, string_of};

verus! {

/// The state awaited.
#[derive(Clone, Copy, PartialEq, Eq, Debug)]
pub enum TargetState {
    Alive,
    Terminated,
    Ready,
}

/// What to poll and for how long.
#[derive(Debug, Clone)]
pub struct PollConfig {
    pub pid: Option<i32>,
    pub port: Option<u16>,
    pub state: TargetState,
    pub timeout_ms: u64,
    pub interval_ms: u64,
}

/// The outcome of polling.
#[derive(Debug, Clone)]
pub struct PollReport {
    pub success: bool,
    pub elapsed_ms: u64,
    pub message: String,
}

/// What to do after an observation.
#[derive(Debug)]
pub enum PollStep {
    /// Polling is over.
    Finish(PollReport),
    /// Sleep this many milliseconds, then observe again.
    Wait(u64),
}

/// The name of a state as `Debug` prints it.
pub open spec fn state_name(s: TargetState) -> Seq<char> {
    match s {
        TargetState::Alive => "Alive"@,
        TargetState::Terminated => "Terminated"@,
        TargetState::Ready => "Ready"@,
    }
}

/// Whether the observed process liveness satisfies the awaited state.
pub open spec fn pid_ok(state: TargetState, alive: bool) -> bool {
    match state {
        TargetState::Terminated => !alive,
        _ => alive,
    }
}

/// Whether the observed port state satisfies the awaited state.
pub open spec fn port_ok(state: TargetState, open: bool) -> bool {
    match state {
        TargetState::Terminated => !open,
        _ => open,
    }
}

/// Whether the awaited condition holds for the configured targets.
pub open spec fn condition_met(config: PollConfig, pid_alive: bool, port_open: bool) -> bool {
    (config.pid is None || pid_ok(config.state, pid_alive)) && (config.port is None || port_ok(
        config.state,
        port_open,
    ))
}

/// The message when nothing is configured to poll.
pub open spec fn nothing_to_poll() -> Seq<char> {
    "Neither pid nor port specified; nothing to poll."@
}

/// The decision after observing, `elapsed` ms after polling began, whether the
/// process is alive and whether the port accepts connections (each read only
/// when configured).
pub open spec fn poll_decision(config: PollConfig, elapsed: u64, pid_alive: bool, port_open: bool) -> (
    bool,
    Option<(bool, Seq<char>)>,
    u64,
) {
    if config.pid is None && config.port is None {
        (true, Some((false, nothing_to_poll())), 0)
    } else if condition_met(config, pid_alive, port_open) {
        (true, Some((true, "Target condition "@ + state_name(config.state) + " met in "@ + dec(
            elapsed as nat,
        ) + " ms"@)), 0)
    } else if elapsed >= config.timeout_ms {
        (true, Some((false, "Timeout after "@ + dec(elapsed as nat) + " ms waiting for condition "@
            + state_name(config.state))), 0)
    } else {
        (false, None, if config.interval_ms < 10 {
            10
        } else {
            config.interval_ms
        })
    }
}

fn state_text(s: TargetState) -> (res: Vec<char>)
    ensures
        res@ == state_name(s),
{
    match s {
        TargetState::Alive => chars_of("Alive"),
        TargetState::Terminated => chars_of("Terminated"),
        TargetState::Ready => chars_of("Ready"),
    }
}

/// Decides, after one observation, whether polling succeeded, timed out,
/// cannot start (nothing to poll), or must wait (at least 10 ms) and observe again.
pub fn poll_step(config: &PollConfig, elapsed_ms: u64, pid_alive: bool, port_open: bool) -> (res: PollStep)
    ensures
        ({
            let (done, report, wait) = poll_decision(*config, elapsed_ms, pid_alive, port_open);
            match res {
                PollStep::Finish(r) => done && report == Some((r.success, r.message@)) && r.elapsed_ms
                    == (if config.pid is None && config.port is None {
                    0
                } else {
                    elapsed_ms
                }),
                PollStep::Wait(ms) => !done && ms == wait,
            }
        }),
{
    if config.pid.is_none() && config.port.is_none() {
        let m = chars_of("Neither pid nor port specified; nothing to poll.");
        return PollStep::Finish(
            PollReport { success: false, elapsed_ms: 0, message: string_of(m.as_slice()) },
        );
    }
    let pid_good = match config.pid {
        Some(_) => match config.state {
            TargetState::Terminated => !pid_alive,
            _ => pid_alive,
        },
        None => true,
    };
    let port_good = match config.port {
        Some(_) => match config.state {
            TargetState::Terminated => !port_open,
            _ => port_open,
        },
        None => true,
    };
    if pid_good && port_good {
        let mut m = chars_of("Target condition ");
        let st = state_text(config.state);
        push_all(&mut m, st.as_slice());
        push_str(&mut m, " met in ");
        let e = fmt_u64(elapsed_ms);
        push_all(&mut m, e.as_slice());
        push_str(&mut m, " ms");
        return PollStep::Finish(
            PollReport { success: true, elapsed_ms, message: string_of(m.as_slice()) },
        );
    }
    if elapsed_ms >= config.timeout_ms {
        let mut m = chars_of("Timeout after ");
        let e = fmt_u64(elapsed_ms);
        push_all(&mut m, e.as_slice());
        push_str(&mut m, " ms waiting for condition ");
        let st = state_text(config.state);
        push_all(&mut m, st.as_slice());
        return PollStep::Finish(
            PollReport { success: false, elapsed_ms, message: string_of(m.as_slice()) },
        );
    }
    let wait = if config.interval_ms < 10 {
        10
    } else {
        config.interval_ms
    };
    PollStep::Wait(wait)
}

} // verus!
