//! What the manager is told until the unit was discovered.

use vstd::prelude::*;

use crate::appear_x::polling::{self, GatewayTargetHealth, TargetView};
use crate::json::{self, Json};

verus! {

/// How long to wait between two attempts to discover the unit, in seconds.
pub const RETRY_SECS: u64 = 5;

/// How often the manager is told that the unit was not discovered yet, in seconds.
pub const HEARTBEAT_SECS: u64 = 10;

/// How far the discovery of the unit has come.
#[derive(Debug)]
pub struct DiscoveryPhase {
    /// How many attempts have failed and how the last one did; nothing once one has succeeded.
    pending: Option<(u32, String)>,
}

/// What a [`DiscoveryPhase`] holds.
#[verifier::ext_equal]
pub struct PhaseView {
    pub pending: Option<(u32, Seq<char>)>,
}

impl View for DiscoveryPhase {
    type V = PhaseView;

    closed spec fn view(&self) -> PhaseView {
        PhaseView {
            pending: match self.pending {
                Some(p) => Some((p.0, p.1@)),
                None => None,
            },
        }
    }
}

/// One more, up to the largest number.
pub open spec fn one_more(n: u32) -> u32 {
    if n < u32::MAX {
        (n + 1) as u32
    } else {
        n
    }
}

impl PhaseView {
    /// Before the first attempt.
    pub open spec fn fresh() -> PhaseView {
        PhaseView { pending: Some((0, "tcp_refused"@)) }
    }

    /// After an attempt that failed.
    pub open spec fn failed(self, code: Seq<char>) -> PhaseView {
        PhaseView {
            pending: Some(
                (
                    match self.pending {
                        Some(p) => one_more(p.0),
                        None => 1,
                    },
                    code,
                ),
            ),
        }
    }
}

/// What the manager is told of a unit that was not discovered yet.
pub open spec fn undiscovered_target(
    failures: u32,
    code: Seq<char>,
    address: Seq<char>,
    host: Option<Seq<char>>,
    egress_ip: Option<Seq<char>>,
) -> TargetView {
    TargetView {
        reachable: false,
        target_address: address,
        gateway_host: host,
        gateway_egress_ip: egress_ip,
        last_successful_poll_unix: None,
        last_error_code: Some(code),
        consecutive_failures: Some(failures),
    }
}

impl DiscoveryPhase {
    /// Before the first attempt.
    pub fn new() -> (r: DiscoveryPhase)
        ensures
            r@ == PhaseView::fresh(),
    {
        DiscoveryPhase { pending: Some((0, "tcp_refused".to_owned())) }
    }

    /// Takes note of an attempt that failed.
    pub fn failed(&mut self, code: &str)
        ensures
            final(self)@ == old(self)@.failed(code@),
    {
        let count: u32 = match &self.pending {
            Some(p) => if p.0 < u32::MAX {
                p.0 + 1
            } else {
                p.0
            },
            None => 1,
        };
        self.pending = Some((count, code.to_owned()));
    }

    /// Takes note of an attempt that succeeded.
    pub fn finished(&mut self)
        ensures
            final(self)@ == (PhaseView { pending: None }),
    {
        self.pending = None;
    }

    /// The heartbeat to send and what it tells of the unit; nothing once the unit was discovered.
    pub fn heartbeat(
        &self,
        address: &str,
        host: Option<String>,
        egress_ip: Option<String>,
        version: &str,
        capabilities: &Vec<String>,
    ) -> (r: Option<(Json, GatewayTargetHealth)>)
        ensures
            match self@.pending {
                Some(p) => r matches Some((health, target)) && health@ == polling::health_payload(
                    "critical"@,
                    json::no_items(),
                    version@,
                    json::strings_view(capabilities@),
                ) && target@ == undiscovered_target(
                    p.0,
                    p.1,
                    address@,
                    json::string_view(host),
                    json::string_view(egress_ip),
                ),
                None => r is None,
            },
    {
        match &self.pending {
            Some(p) => Some(
                (
                    polling::make_health_payload(
                        "critical",
                        Json::nothing(),
                        version,
                        capabilities,
                    ),
                    GatewayTargetHealth {
                        reachable: false,
                        target_address: address.to_owned(),
                        gateway_host: host,
                        gateway_egress_ip: egress_ip,
                        last_successful_poll_unix: None,
                        last_error_code: Some(p.1.clone()),
                        consecutive_failures: Some(p.0),
                    },
                ),
            ),
            None => None,
        }
    }
}

/// Until an attempt succeeds the manager is told that the unit cannot be reached, with the number
/// of attempts that failed.
pub proof fn law_counts_attempts(phase: PhaseView, failures: u32, last: Seq<char>, code: Seq<char>)
    requires
        phase.pending == Some((failures, last)),
    ensures
        phase.failed(code).pending == Some((one_more(failures), code)),
{
}

} // verus!
