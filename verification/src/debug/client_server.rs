//! Health bookkeeping for one client-server connection. Times are
//! milliseconds on the clock of `unix_now_millis`.
use vstd::prelude::*;
use std::collections::VecDeque;
use crate::platform::unix_now_millis;
use crate::text::{decimal, u64_to_decimal};

verus! {

/// How many latencies and errors a connection keeps by default.
pub const DEFAULT_HISTORY_SIZE: usize = 100;

/// Counters, last activity times, recent latencies and recent errors of a
/// connection. Counters wrap around like the atomic counters they stand for.
#[derive(Debug)]
pub struct ConnectionHealth {
    pub connection_id: String,
    pub send_count: u32,
    pub receive_count: u32,
    pub send_failures: u32,
    pub receive_failures: u32,
    pub last_send: Option<u64>,
    pub last_receive: Option<u64>,
    pub send_latencies: VecDeque<u64>,
    pub receive_latencies: VecDeque<u64>,
    pub recent_errors: VecDeque<(u64, String)>,
    pub max_history: usize,
}

/// A history after appending, with the oldest entry dropped once it holds
/// more than `max` entries.
pub open spec fn bounded<T>(s: Seq<T>, max: nat) -> Seq<T> {
    if s.len() > max {
        s.drop_first()
    } else {
        s
    }
}

/// The views of recent errors: when, and what.
pub open spec fn errors_view(v: Seq<(u64, String)>) -> Seq<(u64, Seq<char>)> {
    v.map_values(|e: (u64, String)| (e.0, e.1@))
}

/// An error entry: when, and what.
pub open spec fn noted(t: u64, text: Seq<char>) -> (u64, Seq<char>) {
    (t, text)
}

/// Everything except the named parts is as before.
pub open spec fn same_history(a: ConnectionHealth, b: ConnectionHealth) -> bool {
    &&& a.connection_id@ == b.connection_id@
    &&& a.max_history == b.max_history
}

/// Whether the connection counts as healthy at time `now`: no operations
/// yet, or failures at most a tenth of the operations and activity in both
/// directions within the last 60 seconds (where there was any).
pub open spec fn healthy_at(h: ConnectionHealth, now: u64) -> bool {
    let ops = h.send_count + h.receive_count;
    let failures = h.send_failures + h.receive_failures;
    if ops == 0 {
        true
    } else if failures > 0 && 10 * failures > ops {
        false
    } else if h.last_send matches Some(t) && now >= t && now - t > 60_000 {
        false
    } else if h.last_receive matches Some(t) && now >= t && now - t > 60_000 {
        false
    } else {
        true
    }
}

impl ConnectionHealth {
    /// The histories never hold more than `max_history` entries.
    pub open spec fn wf(&self) -> bool {
        &&& self.send_latencies@.len() <= self.max_history
        &&& self.receive_latencies@.len() <= self.max_history
        &&& self.recent_errors@.len() <= self.max_history
    }

    /// A tracker for connection `connection_id` with nothing recorded.
    pub fn new(connection_id: &str) -> (h: ConnectionHealth)
        ensures
            h.wf(),
            h.connection_id@ == connection_id@,
            h.send_count == 0 && h.receive_count == 0 && h.send_failures == 0 && h.receive_failures == 0,
            h.last_send is None && h.last_receive is None,
            h.send_latencies@.len() == 0 && h.receive_latencies@.len() == 0 && h.recent_errors@.len() == 0,
            h.max_history == DEFAULT_HISTORY_SIZE,
    {
        ConnectionHealth {
            connection_id: String::from_str(connection_id),
            send_count: 0,
            receive_count: 0,
            send_failures: 0,
            receive_failures: 0,
            last_send: None,
            last_receive: None,
            send_latencies: VecDeque::new(),
            receive_latencies: VecDeque::new(),
            recent_errors: VecDeque::new(),
            max_history: DEFAULT_HISTORY_SIZE,
        }
    }

    /// Records a successful send at time `now`.
    pub fn record_send_at(&mut self, now: u64)
        ensures
            final(self).send_count == old(self).send_count.wrapping_add(1),
            final(self).last_send == Some(now),
            final(self).receive_count == old(self).receive_count,
            final(self).send_failures == old(self).send_failures,
            final(self).receive_failures == old(self).receive_failures,
            final(self).last_receive == old(self).last_receive,
            final(self).send_latencies@ == old(self).send_latencies@,
            final(self).receive_latencies@ == old(self).receive_latencies@,
            final(self).recent_errors@ == old(self).recent_errors@,
            same_history(*old(self), *final(self)),
    {
        self.send_count = self.send_count.wrapping_add(1);
        self.last_send = Some(now);
    }

    /// Records a successful send now.
    pub fn record_send(&mut self)
        ensures
            final(self).send_count == old(self).send_count.wrapping_add(1),
            final(self).last_send is Some,
            final(self).receive_count == old(self).receive_count,
            final(self).send_failures == old(self).send_failures,
            final(self).receive_failures == old(self).receive_failures,
            final(self).last_receive == old(self).last_receive,
            final(self).send_latencies@ == old(self).send_latencies@,
            final(self).receive_latencies@ == old(self).receive_latencies@,
            final(self).recent_errors@ == old(self).recent_errors@,
            same_history(*old(self), *final(self)),
    {
        let now = unix_now_millis();
        self.record_send_at(now);
    }

    /// Records a successful receive at time `now`.
    pub fn record_receive_at(&mut self, now: u64)
        ensures
            final(self).receive_count == old(self).receive_count.wrapping_add(1),
            final(self).last_receive == Some(now),
            final(self).send_count == old(self).send_count,
            final(self).send_failures == old(self).send_failures,
            final(self).receive_failures == old(self).receive_failures,
            final(self).last_send == old(self).last_send,
            final(self).send_latencies@ == old(self).send_latencies@,
            final(self).receive_latencies@ == old(self).receive_latencies@,
            final(self).recent_errors@ == old(self).recent_errors@,
            same_history(*old(self), *final(self)),
    {
        self.receive_count = self.receive_count.wrapping_add(1);
        self.last_receive = Some(now);
    }

    /// Records a successful receive now.
    pub fn record_receive(&mut self)
        ensures
            final(self).receive_count == old(self).receive_count.wrapping_add(1),
            final(self).last_receive is Some,
            final(self).send_count == old(self).send_count,
            final(self).send_failures == old(self).send_failures,
            final(self).receive_failures == old(self).receive_failures,
            final(self).last_send == old(self).last_send,
            final(self).send_latencies@ == old(self).send_latencies@,
            final(self).receive_latencies@ == old(self).receive_latencies@,
            final(self).recent_errors@ == old(self).recent_errors@,
            same_history(*old(self), *final(self)),
    {
        let now = unix_now_millis();
        self.record_receive_at(now);
    }

    fn push_error(&mut self, now: u64, text: String)
        requires
            old(self).wf(),
        ensures
            final(self).wf(),
            errors_view(final(self).recent_errors@) == bounded(
                errors_view(old(self).recent_errors@).push((now, text@)),
                old(self).max_history as nat,
            ),
            final(self).send_count == old(self).send_count,
            final(self).receive_count == old(self).receive_count,
            final(self).send_failures == old(self).send_failures,
            final(self).receive_failures == old(self).receive_failures,
            final(self).last_send == old(self).last_send,
            final(self).last_receive == old(self).last_receive,
            final(self).send_latencies@ == old(self).send_latencies@,
            final(self).receive_latencies@ == old(self).receive_latencies@,
            same_history(*old(self), *final(self)),
    {
        let ghost before = errors_view(self.recent_errors@);
        let ghost tv = text@;
        self.recent_errors.push_back((now, text));
        assert(errors_view(self.recent_errors@) =~= before.push((now, tv)));
        if self.recent_errors.len() > self.max_history {
            let _oldest = self.recent_errors.pop_front();
            assert(errors_view(self.recent_errors@) =~= before.push((now, tv)).drop_first());
        }
    }

    /// Records a failed send with its error, at time `now`.
    pub fn record_send_failure_at(&mut self, error: &str, now: u64)
        requires
            old(self).wf(),
        ensures
            final(self).wf(),
            final(self).send_failures == old(self).send_failures.wrapping_add(1),
            errors_view(final(self).recent_errors@) == bounded(
                errors_view(old(self).recent_errors@).push((now, "Send error: "@ + error@)),
                old(self).max_history as nat,
            ),
            final(self).send_count == old(self).send_count,
            final(self).receive_count == old(self).receive_count,
            final(self).receive_failures == old(self).receive_failures,
            final(self).last_send == old(self).last_send,
            final(self).last_receive == old(self).last_receive,
            final(self).send_latencies@ == old(self).send_latencies@,
            final(self).receive_latencies@ == old(self).receive_latencies@,
            same_history(*old(self), *final(self)),
    {
        self.send_failures = self.send_failures.wrapping_add(1);
        let mut text = String::from_str("Send error: ");
        text.append(error);
        self.push_error(now, text);
    }

    /// Records a failed send with its error, now.
    pub fn record_send_failure(&mut self, error: &str)
        requires
            old(self).wf(),
        ensures
            final(self).wf(),
            final(self).send_failures == old(self).send_failures.wrapping_add(1),
            exists|now: u64| errors_view(final(self).recent_errors@) == bounded(
                errors_view(old(self).recent_errors@).push(#[trigger] noted(now, "Send error: "@ + error@)),
                old(self).max_history as nat,
            ),
            final(self).send_count == old(self).send_count,
            final(self).receive_count == old(self).receive_count,
            final(self).receive_failures == old(self).receive_failures,
            final(self).last_send == old(self).last_send,
            final(self).last_receive == old(self).last_receive,
            final(self).send_latencies@ == old(self).send_latencies@,
            final(self).receive_latencies@ == old(self).receive_latencies@,
            same_history(*old(self), *final(self)),
    {
        let now = unix_now_millis();
        self.record_send_failure_at(error, now);
        assert(errors_view(self.recent_errors@) == bounded(
            errors_view(old(self).recent_errors@).push(noted(now, "Send error: "@ + error@)),
            old(self).max_history as nat,
        ));
    }

    /// Records a failed receive with its error, at time `now`.
    pub fn record_receive_failure_at(&mut self, error: &str, now: u64)
        requires
            old(self).wf(),
        ensures
            final(self).wf(),
            final(self).receive_failures == old(self).receive_failures.wrapping_add(1),
            errors_view(final(self).recent_errors@) == bounded(
                errors_view(old(self).recent_errors@).push((now, "Receive error: "@ + error@)),
                old(self).max_history as nat,
            ),
            final(self).send_count == old(self).send_count,
            final(self).receive_count == old(self).receive_count,
            final(self).send_failures == old(self).send_failures,
            final(self).last_send == old(self).last_send,
            final(self).last_receive == old(self).last_receive,
            final(self).send_latencies@ == old(self).send_latencies@,
            final(self).receive_latencies@ == old(self).receive_latencies@,
            same_history(*old(self), *final(self)),
    {
        self.receive_failures = self.receive_failures.wrapping_add(1);
        let mut text = String::from_str("Receive error: ");
        text.append(error);
        self.push_error(now, text);
    }

    /// Records a failed receive with its error, now.
    pub fn record_receive_failure(&mut self, error: &str)
        requires
            old(self).wf(),
        ensures
            final(self).wf(),
            final(self).receive_failures == old(self).receive_failures.wrapping_add(1),
            exists|now: u64| errors_view(final(self).recent_errors@) == bounded(
                errors_view(old(self).recent_errors@).push(#[trigger] noted(now, "Receive error: "@ + error@)),
                old(self).max_history as nat,
            ),
            final(self).send_count == old(self).send_count,
            final(self).receive_count == old(self).receive_count,
            final(self).send_failures == old(self).send_failures,
            final(self).last_send == old(self).last_send,
            final(self).last_receive == old(self).last_receive,
            final(self).send_latencies@ == old(self).send_latencies@,
            final(self).receive_latencies@ == old(self).receive_latencies@,
            same_history(*old(self), *final(self)),
    {
        let now = unix_now_millis();
        self.record_receive_failure_at(error, now);
        assert(errors_view(self.recent_errors@) == bounded(
            errors_view(old(self).recent_errors@).push(noted(now, "Receive error: "@ + error@)),
            old(self).max_history as nat,
        ));
    }

    /// Records the latency of a send, in milliseconds.
    pub fn record_send_latency(&mut self, latency_ms: u64)
        requires
            old(self).wf(),
        ensures
            final(self).wf(),
            final(self).send_latencies@ == bounded(old(self).send_latencies@.push(latency_ms), old(self).max_history as nat),
            final(self).receive_latencies@ == old(self).receive_latencies@,
            final(self).recent_errors@ == old(self).recent_errors@,
            final(self).send_count == old(self).send_count,
            final(self).receive_count == old(self).receive_count,
            final(self).send_failures == old(self).send_failures,
            final(self).receive_failures == old(self).receive_failures,
            final(self).last_send == old(self).last_send,
            final(self).last_receive == old(self).last_receive,
            same_history(*old(self), *final(self)),
    {
        self.send_latencies.push_back(latency_ms);
        if self.send_latencies.len() > self.max_history {
            let _oldest = self.send_latencies.pop_front();
        }
    }

    /// Records the latency of a receive, in milliseconds.
    pub fn record_receive_latency(&mut self, latency_ms: u64)
        requires
            old(self).wf(),
        ensures
            final(self).wf(),
            final(self).receive_latencies@ == bounded(
                old(self).receive_latencies@.push(latency_ms),
                old(self).max_history as nat,
            ),
            final(self).send_latencies@ == old(self).send_latencies@,
            final(self).recent_errors@ == old(self).recent_errors@,
            final(self).send_count == old(self).send_count,
            final(self).receive_count == old(self).receive_count,
            final(self).send_failures == old(self).send_failures,
            final(self).receive_failures == old(self).receive_failures,
            final(self).last_send == old(self).last_send,
            final(self).last_receive == old(self).last_receive,
            same_history(*old(self), *final(self)),
    {
        self.receive_latencies.push_back(latency_ms);
        if self.receive_latencies.len() > self.max_history {
            let _oldest = self.receive_latencies.pop_front();
        }
    }

    /// Whether the connection is healthy at time `now`.
    pub fn is_healthy_at(&self, now: u64) -> (r: bool)
        requires
            self.send_count + self.receive_count <= u32::MAX,
            self.send_failures + self.receive_failures <= u32::MAX,
        ensures
            r == healthy_at(*self, now),
    {
        let ops = self.send_count + self.receive_count;
        let failures = self.send_failures + self.receive_failures;
        if ops == 0 {
            return true;
        }
        if failures > 0 && 10 * (failures as u64) > ops as u64 {
            return false;
        }
        if let Some(t) = self.last_send {
            if now >= t && now - t > 60_000 {
                return false;
            }
        }
        if let Some(t) = self.last_receive {
            if now >= t && now - t > 60_000 {
                return false;
            }
        }
        true
    }

    /// Whether the connection is healthy now.
    pub fn is_healthy(&self) -> (r: bool)
        requires
            self.send_count + self.receive_count <= u32::MAX,
            self.send_failures + self.receive_failures <= u32::MAX,
        ensures
            exists|now: u64| r == #[trigger] healthy_at(*self, now),
    {
        let now = unix_now_millis();
        self.is_healthy_at(now)
    }
}

/// A simulator of a poor network: when enabled it drops a share of the
/// outgoing messages and delays the others. Shares are percentages.
#[derive(Debug, Clone, Copy, PartialEq, Eq, Structural)]
pub struct NetworkSimulator {
    pub enabled: bool,
    pub latency_ms: u32,
    pub packet_loss_percent: u32,
    pub corruption_percent: u32,
    pub duplication_percent: u32,
    pub reordering_percent: u32,
}

/// A percentage cut down to 100.
pub open spec fn clamped(percent: u32) -> u32 {
    if percent > 100 { 100 } else { percent }
}

/// What becomes of an outgoing message, with `roll` the random draw out of
/// 100: `None` when it is lost, else the delay before it goes out.
pub open spec fn outgoing_fate(s: NetworkSimulator, roll: u32) -> Option<u32> {
    if !s.enabled {
        Some(0)
    } else if s.packet_loss_percent > 0 && roll < s.packet_loss_percent {
        None
    } else {
        Some(s.latency_ms)
    }
}

/// The settings as text.
pub open spec fn settings_text(s: NetworkSimulator) -> Seq<char> {
    "Network Simulator Settings:\nEnabled: "@ + (if s.enabled { "true"@ } else { "false"@ }) + "\nLatency: "@
        + decimal(s.latency_ms as nat) + " ms\nPacket Loss: "@ + decimal(s.packet_loss_percent as nat)
        + "%\nCorruption: "@ + decimal(s.corruption_percent as nat) + "%\nDuplication: "@ + decimal(
        s.duplication_percent as nat,
    ) + "%\nReordering: "@ + decimal(s.reordering_percent as nat) + "%"@
}

impl NetworkSimulator {
    /// A disabled simulator with no latency and no losses.
    pub fn new() -> (s: NetworkSimulator)
        ensures
            s == (NetworkSimulator {
                enabled: false,
                latency_ms: 0,
                packet_loss_percent: 0,
                corruption_percent: 0,
                duplication_percent: 0,
                reordering_percent: 0,
            }),
    {
        NetworkSimulator {
            enabled: false,
            latency_ms: 0,
            packet_loss_percent: 0,
            corruption_percent: 0,
            duplication_percent: 0,
            reordering_percent: 0,
        }
    }

    /// Turns the simulator on.
    pub fn enable(&mut self)
        ensures
            *final(self) == (NetworkSimulator { enabled: true, ..*old(self) }),
    {
        self.enabled = true;
    }

    /// Turns the simulator off.
    pub fn disable(&mut self)
        ensures
            *final(self) == (NetworkSimulator { enabled: false, ..*old(self) }),
    {
        self.enabled = false;
    }

    /// Whether the simulator is on.
    pub fn is_enabled(&self) -> (r: bool)
        ensures
            r == self.enabled,
    {
        self.enabled
    }

    /// Sets the delay of each message.
    pub fn set_latency(&mut self, latency_ms: u32)
        ensures
            *final(self) == (NetworkSimulator { latency_ms, ..*old(self) }),
    {
        self.latency_ms = latency_ms;
    }

    /// Sets the share of messages lost (at most 100).
    pub fn set_packet_loss(&mut self, percent: u32)
        ensures
            *final(self) == (NetworkSimulator { packet_loss_percent: clamped(percent), ..*old(self) }),
    {
        self.packet_loss_percent = if percent > 100 { 100 } else { percent };
    }

    /// Sets the share of messages corrupted (at most 100).
    pub fn set_corruption(&mut self, percent: u32)
        ensures
            *final(self) == (NetworkSimulator { corruption_percent: clamped(percent), ..*old(self) }),
    {
        self.corruption_percent = if percent > 100 { 100 } else { percent };
    }

    /// Sets the share of messages duplicated (at most 100).
    pub fn set_duplication(&mut self, percent: u32)
        ensures
            *final(self) == (NetworkSimulator { duplication_percent: clamped(percent), ..*old(self) }),
    {
        self.duplication_percent = if percent > 100 { 100 } else { percent };
    }

    /// Sets the share of messages reordered (at most 100).
    pub fn set_reordering(&mut self, percent: u32)
        ensures
            *final(self) == (NetworkSimulator { reordering_percent: clamped(percent), ..*old(self) }),
    {
        self.reordering_percent = if percent > 100 { 100 } else { percent };
    }

    /// What becomes of an outgoing message, with `roll` the random draw
    /// out of 100: `None` when it is lost, else the milliseconds to wait
    /// before it goes out.
    pub fn process_outgoing(&self, roll: u32) -> (r: Option<u32>)
        ensures
            r == outgoing_fate(*self, roll),
    {
        if !self.enabled {
            return Some(0);
        }
        if self.packet_loss_percent > 0 && roll < self.packet_loss_percent {
            return None;
        }
        Some(self.latency_ms)
    }

    /// The settings as text, one per line.
    pub fn get_settings(&self) -> (s: String)
        ensures
            s@ == settings_text(*self),
    {
        let mut s = String::from_str("Network Simulator Settings:\nEnabled: ");
        s.append(if self.enabled { "true" } else { "false" });
        s.append("\nLatency: ");
        s.append(u64_to_decimal(self.latency_ms as u64).as_str());
        s.append(" ms\nPacket Loss: ");
        s.append(u64_to_decimal(self.packet_loss_percent as u64).as_str());
        s.append("%\nCorruption: ");
        s.append(u64_to_decimal(self.corruption_percent as u64).as_str());
        s.append("%\nDuplication: ");
        s.append(u64_to_decimal(self.duplication_percent as u64).as_str());
        s.append("%\nReordering: ");
        s.append(u64_to_decimal(self.reordering_percent as u64).as_str());
        s.append("%");
        s
    }
}

/// A simulator whose loss share is 100 loses every message while enabled,
/// and a disabled one loses none.
pub proof fn law_full_loss_drops_all(s: NetworkSimulator, roll: u32)
    requires
        roll < 100,
    ensures
        s.enabled && s.packet_loss_percent == 100 ==> outgoing_fate(s, roll) is None,
        !s.enabled ==> outgoing_fate(s, roll) == Some(0u32),
{
}

} // verus!
