//! Whether the unit can be reached.
//!
//! The unit counts as unreachable once a number of polls in a row have failed. An event says so
//! when it has been unreachable for a while, once; another says when it can be reached again after
//! it had been unreachable for a while.

use std::fmt::Write;
use vstd::prelude::*;

use crate::clock;
use crate::json;
use crate::text;

verus! {

/// What the outcome of a poll changed.
#[derive(Debug, Clone, PartialEq, Eq)]
pub enum TransitionOutcome {
    /// Nothing that is worth an event, or not yet.
    NoChange,
    /// The unit has been unreachable for long enough.
    BecameUnreachable { consecutive_failures: u32, last_error_code: Option<String> },
    /// The unit can be reached again after it had been unreachable for long enough.
    Recovered { downtime_secs: i64 },
}

/// What a [`TransitionOutcome`] holds.
#[verifier::ext_equal]
pub enum OutcomeView {
    NoChange,
    BecameUnreachable { consecutive_failures: u32, last_error_code: Option<Seq<char>> },
    Recovered { downtime_secs: i64 },
}

impl View for TransitionOutcome {
    type V = OutcomeView;

    open spec fn view(&self) -> OutcomeView {
        match *self {
            TransitionOutcome::NoChange => OutcomeView::NoChange,
            TransitionOutcome::BecameUnreachable { consecutive_failures, last_error_code } =>
                OutcomeView::BecameUnreachable {
                consecutive_failures,
                last_error_code: json::string_view(last_error_code),
            },
            TransitionOutcome::Recovered { downtime_secs } => OutcomeView::Recovered {
                downtime_secs,
            },
        }
    }
}

/// What is known of the reachability of a unit.
#[derive(Debug)]
pub struct ReachabilityState {
    /// How many polls in a row have failed.
    consecutive_failures: u32,
    /// How many must fail for the unit to count as unreachable.
    failure_threshold: u32,
    /// When a poll last succeeded, in seconds; zero where none has.
    last_success_unix: i64,
    reachable: bool,
    /// Since when the unit has been unreachable; zero where it is not.
    unreachable_since_unix: i64,
    /// When the unit last became reachable or unreachable; zero where it never did.
    last_state_flip_unix: i64,
    /// Whether the event for the current state was fired.
    fired: bool,
    /// How long the unit must have been unreachable for an event, in seconds.
    event_dwell_secs: i64,
    last_error_code: Option<String>,
}

/// What a [`ReachabilityState`] holds.
#[verifier::ext_equal]
pub struct ReachView {
    pub consecutive_failures: u32,
    pub failure_threshold: u32,
    pub last_success_unix: i64,
    pub reachable: bool,
    pub unreachable_since_unix: i64,
    pub last_state_flip_unix: i64,
    pub fired: bool,
    pub event_dwell_secs: i64,
    pub last_error_code: Option<Seq<char>>,
}

impl View for ReachabilityState {
    type V = ReachView;

    closed spec fn view(&self) -> ReachView {
        ReachView {
            consecutive_failures: self.consecutive_failures,
            failure_threshold: self.failure_threshold,
            last_success_unix: self.last_success_unix,
            reachable: self.reachable,
            unreachable_since_unix: self.unreachable_since_unix,
            last_state_flip_unix: self.last_state_flip_unix,
            fired: self.fired,
            event_dwell_secs: self.event_dwell_secs,
            last_error_code: json::string_view(self.last_error_code),
        }
    }
}

impl ReachView {
    /// A unit of which nothing is known yet counts as reachable.
    pub open spec fn fresh(failure_threshold: u32, event_dwell_secs: u64) -> ReachView {
        ReachView {
            consecutive_failures: 0,
            failure_threshold: if failure_threshold >= 1 {
                failure_threshold
            } else {
                1
            },
            last_success_unix: 0,
            reachable: true,
            unreachable_since_unix: 0,
            last_state_flip_unix: 0,
            fired: true,
            event_dwell_secs: event_dwell_secs as i64,
            last_error_code: None,
        }
    }

    /// What holds of every state.
    pub open spec fn valid(self) -> bool {
        &&& self.failure_threshold >= 1
        &&& self.reachable == (self.consecutive_failures < self.failure_threshold)
        &&& self.reachable ==> self.fired
        &&& self.last_success_unix >= 0
        &&& self.unreachable_since_unix >= 0
        &&& self.last_state_flip_unix >= 0
    }

    /// The state after a poll that succeeded.
    pub open spec fn after_success(self, now: i64) -> ReachView {
        let polled = ReachView {
            consecutive_failures: 0,
            last_success_unix: now,
            last_error_code: None,
            reachable: true,
            ..self
        };
        if self.reachable {
            polled
        } else {
            ReachView {
                unreachable_since_unix: 0,
                last_state_flip_unix: now,
                fired: true,
                ..polled
            }
        }
    }

    /// Whether the unit had been unreachable for long enough that its recovery is worth an event.
    pub open spec fn recovers(self, now: i64) -> bool {
        !self.reachable && now - self.last_state_flip_unix >= self.event_dwell_secs
    }

    /// What a poll that succeeded changed.
    pub open spec fn success_outcome(self, now: i64) -> OutcomeView {
        if !self.recovers(now) {
            OutcomeView::NoChange
        } else {
            OutcomeView::Recovered {
                downtime_secs: if self.unreachable_since_unix > 0 {
                    (now - self.unreachable_since_unix) as i64
                } else {
                    0
                },
            }
        }
    }

    /// The state after a poll that failed, before it is decided on an event.
    pub open spec fn failed(self, code: Seq<char>, now: i64) -> ReachView {
        let polled = ReachView {
            consecutive_failures: (self.consecutive_failures + 1) as u32,
            last_error_code: Some(code),
            ..self
        };
        if polled.consecutive_failures < self.failure_threshold {
            polled
        } else if self.reachable {
            ReachView {
                reachable: false,
                unreachable_since_unix: now,
                last_state_flip_unix: now,
                fired: false,
                ..polled
            }
        } else {
            ReachView { reachable: false, ..polled }
        }
    }

    /// Whether the event for an unreachable unit is due.
    pub open spec fn due(self, now: i64) -> bool {
        &&& self.consecutive_failures >= self.failure_threshold
        &&& self.last_state_flip_unix != 0
        &&& now - self.last_state_flip_unix >= self.event_dwell_secs
        &&& !self.fired
    }

    /// The state after a poll that failed. The time is asked for once when the poll is counted
    /// and once when it is decided on the event.
    pub open spec fn after_failure(self, code: Seq<char>, counted_at: i64, decided_at: i64) -> ReachView {
        let s = self.failed(code, counted_at);
        if s.due(decided_at) {
            ReachView { fired: true, ..s }
        } else {
            s
        }
    }

    /// What a poll that failed changed.
    pub open spec fn failure_outcome(self, code: Seq<char>, counted_at: i64, decided_at: i64) -> OutcomeView {
        let s = self.failed(code, counted_at);
        if s.due(decided_at) {
            OutcomeView::BecameUnreachable {
                consecutive_failures: s.consecutive_failures,
                last_error_code: s.last_error_code,
            }
        } else {
            OutcomeView::NoChange
        }
    }
}

impl ReachabilityState {
    /// A unit that counts as unreachable after the given number of polls that fail, at least one,
    /// and for which an event is due after the given number of seconds.
    pub fn new(failure_threshold: u32, event_dwell_secs: u64) -> (r: ReachabilityState)
        ensures
            r@ == ReachView::fresh(failure_threshold, event_dwell_secs),
            r@.valid(),
    {
        ReachabilityState {
            consecutive_failures: 0,
            failure_threshold: if failure_threshold >= 1 {
                failure_threshold
            } else {
                1
            },
            last_success_unix: 0,
            reachable: true,
            unreachable_since_unix: 0,
            last_state_flip_unix: 0,
            fired: true,
            event_dwell_secs: #[verifier::truncate]
            (event_dwell_secs as i64),
            last_error_code: None,
        }
    }

    /// Takes note of a poll that succeeded now.
    pub fn record_success(&mut self) -> (r: TransitionOutcome)
        requires
            old(self)@.valid(),
        ensures
            final(self)@.valid(),
            exists|now: i64|
                0 <= now <= clock::LAST_SECOND && r@ == #[trigger] old(self)@.success_outcome(now)
                    && final(self)@ == old(self)@.after_success(now),
    {
        let now = clock::now();
        self.record_success_at(now.secs)
    }

    /// Takes note of a poll that succeeded at the given second.
    pub fn record_success_at(&mut self, now: i64) -> (r: TransitionOutcome)
        requires
            old(self)@.valid(),
            now >= 0,
        ensures
            final(self)@.valid(),
            r@ == old(self)@.success_outcome(now),
            final(self)@ == old(self)@.after_success(now),
    {
        self.consecutive_failures = 0;
        self.last_success_unix = now;
        self.last_error_code = None;
        let was_reachable = self.reachable;
        self.reachable = true;
        if was_reachable {
            return TransitionOutcome::NoChange;
        }
        let dwelled = now - self.last_state_flip_unix >= self.event_dwell_secs;
        let since: i64 = self.unreachable_since_unix;
        self.unreachable_since_unix = 0;
        let downtime_secs: i64 = if since > 0 {
            now - since
        } else {
            0
        };
        self.last_state_flip_unix = now;
        self.fired = !dwelled;
        self.maybe_fire_recovered(downtime_secs)
    }

    /// Takes note of a poll that failed now.
    pub fn record_failure(&mut self, error_code: &str) -> (r: TransitionOutcome)
        requires
            old(self)@.valid(),
            old(self)@.consecutive_failures < u32::MAX,
        ensures
            final(self)@.valid(),
            exists|counted_at: i64, decided_at: i64|
                0 <= counted_at <= clock::LAST_SECOND && 0 <= decided_at <= clock::LAST_SECOND
                    && r@ == #[trigger] old(self)@.failure_outcome(
                    error_code@,
                    counted_at,
                    decided_at,
                ) && final(self)@ == old(self)@.after_failure(error_code@, counted_at, decided_at),
    {
        let counted_at = clock::now();
        let decided_at = clock::now();
        self.record_failure_at(error_code, counted_at.secs, decided_at.secs)
    }

    /// Takes note of a poll that failed. The time is the first given second when the poll is
    /// counted and the second when it is decided on an event.
    pub fn record_failure_at(&mut self, error_code: &str, counted_at: i64, decided_at: i64) -> (r:
        TransitionOutcome)
        requires
            old(self)@.valid(),
            old(self)@.consecutive_failures < u32::MAX,
            counted_at >= 0,
            decided_at >= 0,
        ensures
            final(self)@.valid(),
            r@ == old(self)@.failure_outcome(error_code@, counted_at, decided_at),
            final(self)@ == old(self)@.after_failure(error_code@, counted_at, decided_at),
    {
        let new_count: u32 = self.consecutive_failures + 1;
        self.consecutive_failures = new_count;
        self.last_error_code = Some(error_code.to_owned());
        if new_count < self.failure_threshold {
            return TransitionOutcome::NoChange;
        }
        let was_reachable = self.reachable;
        self.reachable = false;
        if was_reachable {
            self.unreachable_since_unix = counted_at;
            self.last_state_flip_unix = counted_at;
            self.fired = false;
        }
        self.maybe_fire_unreachable(new_count, decided_at)
    }

    /// Whether the unit counts as reachable.
    pub fn is_reachable(&self) -> (r: bool)
        ensures
            r == self@.reachable,
    {
        self.reachable
    }

    /// How many polls in a row have failed.
    pub fn consecutive_failures(&self) -> (r: u32)
        ensures
            r == self@.consecutive_failures,
    {
        self.consecutive_failures
    }

    /// When a poll last succeeded, in seconds.
    pub fn last_success_unix(&self) -> (r: Option<i64>)
        ensures
            r == if self@.last_success_unix == 0 {
                None
            } else {
                Some(self@.last_success_unix)
            },
    {
        if self.last_success_unix == 0 {
            None
        } else {
            Some(self.last_success_unix)
        }
    }

    /// How the last poll failed, unless it succeeded.
    pub fn last_error_code(&self) -> (r: Option<String>)
        ensures
            json::string_view(r) == self@.last_error_code,
    {
        match &self.last_error_code {
            Some(code) => Some(code.clone()),
            None => None,
        }
    }

    fn maybe_fire_unreachable(&mut self, consecutive_failures: u32, now: i64) -> (r:
        TransitionOutcome)
        requires
            now >= 0,
            old(self)@.last_state_flip_unix >= 0,
            old(self)@.consecutive_failures == consecutive_failures,
            consecutive_failures >= old(self)@.failure_threshold,
        ensures
            final(self)@ == if old(self)@.due(now) {
                ReachView { fired: true, ..old(self)@ }
            } else {
                old(self)@
            },
            r@ == if old(self)@.due(now) {
                OutcomeView::BecameUnreachable {
                    consecutive_failures,
                    last_error_code: old(self)@.last_error_code,
                }
            } else {
                OutcomeView::NoChange
            },
    {
        let flipped_at: i64 = self.last_state_flip_unix;
        if flipped_at == 0 || now - flipped_at < self.event_dwell_secs {
            return TransitionOutcome::NoChange;
        }
        let already = self.fired;
        self.fired = true;
        if already {
            return TransitionOutcome::NoChange;
        }
        TransitionOutcome::BecameUnreachable {
            consecutive_failures,
            last_error_code: self.last_error_code(),
        }
    }

    /// Fires the event that the unit can be reached again, unless it was fired before.
    pub fn maybe_fire_recovered(&mut self, downtime_secs: i64) -> (r: TransitionOutcome)
        ensures
            final(self)@ == (ReachView { fired: true, ..old(self)@ }),
            r@ == if old(self)@.fired {
                OutcomeView::NoChange
            } else {
                OutcomeView::Recovered { downtime_secs }
            },
    {
        let already = self.fired;
        self.fired = true;
        if already {
            return TransitionOutcome::NoChange;
        }
        TransitionOutcome::Recovered { downtime_secs }
    }
}

/// A poll: it succeeded, or it failed with a code.
pub enum Poll {
    Success { now: i64 },
    Failure { code: Seq<char>, counted_at: i64, decided_at: i64 },
}

impl Poll {
    /// The clock shows no time before 1970.
    pub open spec fn valid(self) -> bool {
        match self {
            Poll::Success { now } => now >= 0,
            Poll::Failure { code, counted_at, decided_at } => counted_at >= 0 && decided_at >= 0,
        }
    }
}

/// The state after a poll.
pub open spec fn polled(s: ReachView, p: Poll) -> ReachView {
    match p {
        Poll::Success { now } => s.after_success(now),
        Poll::Failure { code, counted_at, decided_at } => s.after_failure(
            code,
            counted_at,
            decided_at,
        ),
    }
}

/// What a poll changed.
pub open spec fn outcome(s: ReachView, p: Poll) -> OutcomeView {
    match p {
        Poll::Success { now } => s.success_outcome(now),
        Poll::Failure { code, counted_at, decided_at } => s.failure_outcome(
            code,
            counted_at,
            decided_at,
        ),
    }
}

/// The unit counts as reachable exactly as long as fewer polls in a row have failed than the
/// threshold says, whatever happened before.
pub proof fn law_reachable_below_threshold(s: ReachView, p: Poll)
    requires
        s.valid(),
        p.valid(),
        s.consecutive_failures < u32::MAX,
    ensures
        polled(s, p).valid(),
        polled(s, p).reachable == (polled(s, p).consecutive_failures < s.failure_threshold),
        polled(s, p).consecutive_failures == match p {
            Poll::Success { now } => 0,
            Poll::Failure { code, counted_at, decided_at } => s.consecutive_failures + 1,
        },
        polled(s, p).last_error_code == match p {
            Poll::Success { now } => None,
            Poll::Failure { code, counted_at, decided_at } => Some(code),
        },
{
}

/// After the event that says that the unit is unreachable no further failure fires one.
pub proof fn law_unreachable_fires_once(
    s: ReachView,
    code: Seq<char>,
    counted_at: i64,
    decided_at: i64,
    code2: Seq<char>,
    counted_at2: i64,
    decided_at2: i64,
)
    requires
        s.valid(),
        s.failure_outcome(code, counted_at, decided_at) is BecameUnreachable,
        s.consecutive_failures < u32::MAX - 1,
    ensures
        s.after_failure(code, counted_at, decided_at).failure_outcome(
            code2,
            counted_at2,
            decided_at2,
        ) is NoChange,
        s.after_failure(code, counted_at, decided_at).after_failure(
            code2,
            counted_at2,
            decided_at2,
        ).fired,
{
}

/// The event that says that the unit is unreachable comes only when the threshold is reached and
/// the unit has been unreachable for the dwell time, and with the count and the code of the poll
/// that fired it.
pub proof fn law_unreachable_after_dwell(
    s: ReachView,
    code: Seq<char>,
    counted_at: i64,
    decided_at: i64,
)
    requires
        s.valid(),
        s.consecutive_failures < u32::MAX,
        counted_at >= 0,
        s.failure_outcome(code, counted_at, decided_at) is BecameUnreachable,
    ensures
        ({
            let after = s.after_failure(code, counted_at, decided_at);
            &&& !after.reachable
            &&& after.consecutive_failures >= s.failure_threshold
            &&& decided_at - after.last_state_flip_unix >= s.event_dwell_secs
            &&& s.failure_outcome(code, counted_at, decided_at) == OutcomeView::BecameUnreachable {
                consecutive_failures: after.consecutive_failures,
                last_error_code: Some(code),
            }
        }),
{
}

/// The first success after the unit was unreachable says that it recovered exactly if it had been
/// unreachable for the dwell time, and the next changes nothing.
pub proof fn law_recovers_once(s: ReachView, now: i64, later: i64)
    requires
        s.valid(),
        now >= 0,
        later >= 0,
    ensures
        s.success_outcome(now) is Recovered <==> !s.reachable && now - s.last_state_flip_unix
            >= s.event_dwell_secs,
        s.success_outcome(now) is Recovered || s.success_outcome(now) is NoChange,
        s.after_success(now).success_outcome(later) is NoChange,
{
}

/// A unit that was said to be unreachable is said to have recovered with its next success, unless
/// the clock went back.
pub proof fn law_reported_outage_ends(
    s: ReachView,
    code: Seq<char>,
    counted_at: i64,
    decided_at: i64,
    now: i64,
)
    requires
        s.valid(),
        s.consecutive_failures < u32::MAX,
        counted_at >= 0,
        s.failure_outcome(code, counted_at, decided_at) is BecameUnreachable,
        decided_at <= now,
    ensures
        s.after_failure(code, counted_at, decided_at).success_outcome(now) is Recovered,
{
}

/// Without a dwell time the failure that reaches the threshold fires the event at once, unless
/// the clock went back between counting and deciding or shows the first second of 1970.
pub proof fn law_no_dwell(s: ReachView, code: Seq<char>, counted_at: i64, decided_at: i64)
    requires
        s.valid(),
        s.reachable,
        s.consecutive_failures < u32::MAX,
        s.consecutive_failures + 1 >= s.failure_threshold,
        s.event_dwell_secs == 0,
        0 < counted_at <= decided_at,
    ensures
        s.failure_outcome(code, counted_at, decided_at) is BecameUnreachable,
{
}

/// The code for an error, by the words in its description, which is in lower case.
pub open spec fn lower_class(msg: Seq<char>) -> Seq<char> {
    if text::occurs(msg, "timed out"@) || text::occurs(msg, "timeout"@) {
        "http_timeout"@
    } else if text::occurs(msg, "connection refused"@) || text::occurs(msg, "refused"@) {
        "tcp_refused"@
    } else if text::occurs(msg, "tls"@) || text::occurs(msg, "certificate"@) || text::occurs(
        msg,
        "handshake"@,
    ) {
        "tls_handshake"@
    } else if text::occurs(msg, "401"@) || text::occurs(msg, "403"@) || text::occurs(msg, "auth"@)
        || text::occurs(msg, "login"@) {
        "auth_rejected"@
    } else if text::occurs(msg, "json"@) || text::occurs(msg, "rpc"@) || text::occurs(
        msg,
        "parse"@,
    ) {
        "rpc_protocol_error"@
    } else {
        "other"@
    }
}

/// The code for an error, by the words in its description, whatever their case.
pub open spec fn error_class(description: Seq<char>) -> Seq<char> {
    lower_class(text::lowercased(description))
}

/// The code for an error with the given description, which is in lower case.
pub fn classify_lower(msg: &str) -> (r: &'static str)
    ensures
        r@ == lower_class(msg@),
{
    if text::contains(msg, "timed out") || text::contains(msg, "timeout") {
        "http_timeout"
    } else if text::contains(msg, "connection refused") || text::contains(msg, "refused") {
        "tcp_refused"
    } else if text::contains(msg, "tls") || text::contains(msg, "certificate") || text::contains(
        msg,
        "handshake",
    ) {
        "tls_handshake"
    } else if text::contains(msg, "401") || text::contains(msg, "403") || text::contains(
        msg,
        "auth",
    ) || text::contains(msg, "login") {
        "auth_rejected"
    } else if text::contains(msg, "json") || text::contains(msg, "rpc") || text::contains(
        msg,
        "parse",
    ) {
        "rpc_protocol_error"
    } else {
        "other"
    }
}

/// The code for an error with the given description.
pub fn classify_description(description: &str) -> (r: &'static str)
    ensures
        r@ == error_class(description@),
        text::is_ascii(description@) ==> r@ == lower_class(text::ascii_lowered(description@)),
{
    let msg = text::to_lowercase(description);
    classify_lower(msg.as_str())
}

/// The error type of the anyhow crate. Nothing is known of what is in it.
#[verifier::external_type_specification]
#[verifier::external_body]
pub struct ExAnyhowError(anyhow::Error);

/// Writes an `anyhow::Error` with the alternate form of its `Display`, which writes the error and
/// all its causes with colons between them. Nothing is said of the text: each error writes what its
/// own `Display` gives at that moment, and where that fails the text ends there.
#[verifier::external_body]
pub(crate) fn describe(err: &anyhow::Error) -> String {
    let mut out = String::new();
    let _ = write!(out, "{err:#}");
    out
}

/// The code for an error of a call to the unit, by the description that the error gives of itself.
/// The description is not sent to the manager.
pub fn classify_jsonrpc_error(err: &anyhow::Error) -> (r: &'static str)
    ensures
        exists|description: Seq<char>| r@ == #[trigger] error_class(description),
{
    let description = describe(err);
    classify_description(description.as_str())
}

/// Whatever the description of an error, its code is one of a few: nothing of the description is
/// in it.
pub proof fn law_codes_are_fixed(description: Seq<char>)
    ensures
        seq![
            "http_timeout"@,
            "tcp_refused"@,
            "tls_handshake"@,
            "auth_rejected"@,
            "rpc_protocol_error"@,
            "other"@,
        ].contains(error_class(description)),
{
    let codes = seq![
        "http_timeout"@,
        "tcp_refused"@,
        "tls_handshake"@,
        "auth_rejected"@,
        "rpc_protocol_error"@,
        "other"@,
    ];
    assert(codes[0] == "http_timeout"@);
    assert(codes[1] == "tcp_refused"@);
    assert(codes[2] == "tls_handshake"@);
    assert(codes[3] == "auth_rejected"@);
    assert(codes[4] == "rpc_protocol_error"@);
    assert(codes[5] == "other"@);
}

/// The first of the given texts that is not blank, without the white space around it.
pub open spec fn first_name(a: Option<Seq<char>>, b: Option<Seq<char>>, c: Option<Seq<char>>) -> Option<
    Seq<char>,
> {
    if a is Some && text::trimmed(a->0).len() > 0 {
        Some(text::trimmed(a->0))
    } else if b is Some && text::trimmed(b->0).len() > 0 {
        Some(text::trimmed(b->0))
    } else if c is Some && text::trimmed(c->0).len() > 0 {
        Some(text::trimmed(c->0))
    } else {
        None
    }
}

fn trimmed_name(s: Option<String>) -> (r: Option<String>)
    ensures
        match r {
            Some(t) => s is Some && t@ == text::trimmed(s->0@) && t@.len() > 0,
            None => s is None || text::trimmed(s->0@).len() == 0,
        },
{
    match s {
        Some(s) => {
            let t = text::trim(s.as_str());
            if t.as_str().is_empty() {
                None
            } else {
                Some(t)
            }
        },
        None => None,
    }
}

/// The host's name, from what was read of the kernel, of the name file and of the environment;
/// the first of them that is not blank.
pub fn detect_hostname(
    kernel: Option<String>,
    name_file: Option<String>,
    environment: Option<String>,
) -> (r: Option<String>)
    ensures
        json::string_view(r) == first_name(
            json::string_view(kernel),
            json::string_view(name_file),
            json::string_view(environment),
        ),
{
    if let Some(t) = trimmed_name(kernel) {
        return Some(t);
    }
    if let Some(t) = trimmed_name(name_file) {
        return Some(t);
    }
    trimmed_name(environment)
}

} // verus!
