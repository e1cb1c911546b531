//! A limit on the events that are sent, below the limit that the manager sets.
//!
//! In any [`WINDOW_SECS`] seconds up to [`SELF_GATE_LIMIT_PER_MINUTE`] events pass. Those beyond are
//! dropped and counted. The first that is dropped is replaced by a summary, and the first event that
//! passes again is preceded by a summary of all that were dropped. Only where more than
//! [`SUMMARY_LIMIT_PER_MINUTE`] summaries would be sent in [`WINDOW_SECS`] seconds, so that the limit
//! of the manager is in reach, a summary waits; it then tells of what was dropped in the meantime as
//! well.

use vstd::prelude::*;

use crate::clock::{self, Moment};
use crate::event::{self, EventSeverity, EventView, GatewayEvent};
use crate::json::{Json, JsonView, Object};
use crate::text;

verus! {

/// The most events that pass in a window.
pub const SELF_GATE_LIMIT_PER_MINUTE: u32 = 950;

/// The most summaries that are sent in a window: with the events that pass they stay below what the
/// manager accepts.
pub const SUMMARY_LIMIT_PER_MINUTE: u32 = 49;

/// The length of a window in seconds.
pub const WINDOW_SECS: u32 = 60;

/// The most events that the manager accepts in a minute.
pub const MANAGER_LIMIT_PER_MINUTE: u64 = 1000;

/// What has passed lately, and what was dropped since that was last told.
#[derive(Debug)]
pub struct EventGate {
    /// When events passed.
    accepted: Vec<Moment>,
    /// How many events were dropped and not told of.
    suppressed: u32,
    /// When summaries were sent.
    summaries: Vec<Moment>,
}

/// What an [`EventGate`] holds.
#[verifier::ext_equal]
pub struct GateView {
    pub accepted: Seq<Moment>,
    pub suppressed: u32,
    pub summaries: Seq<Moment>,
}

impl View for EventGate {
    type V = GateView;

    closed spec fn view(&self) -> GateView {
        GateView {
            accepted: self.accepted@,
            suppressed: self.suppressed,
            summaries: self.summaries@,
        }
    }
}

/// What to do with an event.
#[derive(Debug)]
pub enum GateDecision {
    /// Send it.
    Send,
    /// Drop it, and send the summary where there is one.
    Suppress { summary: Option<GatewayEvent> },
    /// Send the summary of what was dropped, then the event.
    SendWithRollover { summary: GatewayEvent },
}

/// What a [`GateDecision`] holds.
#[verifier::ext_equal]
pub enum DecisionView {
    Send,
    Suppress { summary: Option<EventView> },
    SendWithRollover { summary: EventView },
}

impl View for GateDecision {
    type V = DecisionView;

    open spec fn view(&self) -> DecisionView {
        match *self {
            GateDecision::Send => DecisionView::Send,
            GateDecision::Suppress { summary } => DecisionView::Suppress {
                summary: match summary {
                    Some(e) => Some(e@),
                    None => None,
                },
            },
            GateDecision::SendWithRollover { summary } => DecisionView::SendWithRollover {
                summary: summary@,
            },
        }
    }
}

/// The event that says how many events were dropped.
pub open spec fn summary_event(suppressed: u32, accepted: u32) -> EventView {
    event::event(
        EventSeverity::Minor,
        "event_rate_limit_selfgate"@,
        "Gateway self-rate-limiter engaged: "@ + text::decimal(suppressed as nat)
            + " event(s) suppressed (accepted "@ + text::decimal(accepted as nat)
            + " in the current 60s window). Raise the polling cadence only if the manager can absorb more."@,
        Some(
            JsonView::Object(
                Map::empty().insert("suppressed"@, JsonView::of_unsigned(suppressed as nat)).insert(
                    "accepted"@,
                    JsonView::of_unsigned(accepted as nat),
                ).insert(
                    "limit_per_minute"@,
                    JsonView::of_unsigned(SELF_GATE_LIMIT_PER_MINUTE as nat),
                ).insert(
                    "manager_limit_per_minute"@,
                    JsonView::of_unsigned(MANAGER_LIMIT_PER_MINUTE as nat),
                ),
            ),
        ),
    )
}

fn selfgate_summary(suppressed: u32, accepted: u32) -> (r: GatewayEvent)
    ensures
        r@ == summary_event(suppressed, accepted),
{
    let mut message = "Gateway self-rate-limiter engaged: ".to_owned();
    message.append(text::decimal_of(suppressed as u64).as_str());
    message.append(" event(s) suppressed (accepted ");
    message.append(text::decimal_of(accepted as u64).as_str());
    message.append(
        " in the current 60s window). Raise the polling cadence only if the manager can absorb more.",
    );
    let mut details = Object::new();
    details.set("suppressed", Json::from_u64(suppressed as u64));
    details.set("accepted", Json::from_u64(accepted as u64));
    details.set("limit_per_minute", Json::from_u64(SELF_GATE_LIMIT_PER_MINUTE as u64));
    details.set("manager_limit_per_minute", Json::from_u64(MANAGER_LIMIT_PER_MINUTE));
    GatewayEvent::new(EventSeverity::Minor, "event_rate_limit_selfgate", message).with_details(
        Json::Object(details),
    )
}

/// One more, up to the largest number.
pub open spec fn counted(n: u32) -> u32 {
    if n < u32::MAX {
        (n + 1) as u32
    } else {
        n
    }
}

/// Whether a moment is part of the window that ends at another one.
pub open spec fn is_recent(m: Moment, now: Moment) -> bool {
    !now.at_least_after(m, WINDOW_SECS as int)
}

/// Of the given moments those that are part of the window that ends now.
pub open spec fn recent(moments: Seq<Moment>, now: Moment) -> Seq<Moment>
    decreases moments.len(),
{
    if moments.len() == 0 {
        Seq::empty()
    } else if is_recent(moments.last(), now) {
        recent(moments.drop_last(), now).push(moments.last())
    } else {
        recent(moments.drop_last(), now)
    }
}

fn keep_recent(moments: &Vec<Moment>, now: &Moment) -> (r: Vec<Moment>)
    requires
        now.valid(),
        forall|i: int| 0 <= i < moments@.len() ==> (#[trigger] moments@[i]).valid(),
    ensures
        r@ == recent(moments@, *now),
{
    let mut out: Vec<Moment> = Vec::new();
    let mut i: usize = 0;
    while i < moments.len()
        invariant
            i <= moments@.len(),
            now.valid(),
            forall|k: int| 0 <= k < moments@.len() ==> (#[trigger] moments@[k]).valid(),
            out@ == recent(moments@.take(i as int), *now),
        decreases moments@.len() - i,
    {
        assert(moments@.take(i + 1).drop_last() == moments@.take(i as int));
        assert(moments@.take(i + 1).last() == moments@[i as int]);
        if !now.is_at_least_after(&moments[i], WINDOW_SECS) {
            out.push(moments[i]);
        }
        i = i + 1;
    }
    assert(moments@.take(i as int) == moments@);
    out
}

impl GateView {
    /// A gate that nothing has passed yet.
    pub open spec fn fresh() -> GateView {
        GateView { accepted: Seq::empty(), suppressed: 0, summaries: Seq::empty() }
    }

    /// What holds of every gate.
    pub open spec fn valid(self) -> bool {
        &&& self.accepted.len() <= SELF_GATE_LIMIT_PER_MINUTE
        &&& forall|i: int| 0 <= i < self.accepted.len() ==> (#[trigger] self.accepted[i]).valid()
        &&& self.summaries.len() <= SUMMARY_LIMIT_PER_MINUTE
        &&& forall|i: int| 0 <= i < self.summaries.len() ==> (#[trigger] self.summaries[i]).valid()
    }

    /// Whether one more event passes.
    pub open spec fn passes(self, now: Moment) -> bool {
        recent(self.accepted, now).len() < SELF_GATE_LIMIT_PER_MINUTE
    }

    /// Whether one more summary can be sent.
    pub open spec fn may_tell(self, now: Moment) -> bool {
        recent(self.summaries, now).len() < SUMMARY_LIMIT_PER_MINUTE
    }

    /// Whether a summary takes the place of an event that is dropped.
    pub open spec fn gives_notice(self, now: Moment) -> bool {
        self.suppressed == 0 && self.may_tell(now)
    }

    /// Whether a summary goes before an event that passes.
    pub open spec fn rolls_over(self, now: Moment) -> bool {
        self.suppressed > 0 && self.may_tell(now)
    }

    /// Whether a summary is sent with one more event or in its place.
    pub open spec fn tells(self, now: Moment) -> bool {
        if self.passes(now) {
            self.rolls_over(now)
        } else {
            self.gives_notice(now)
        }
    }

    /// The event gate after one more event.
    pub open spec fn after(self, now: Moment) -> GateView {
        GateView {
            accepted: if self.passes(now) {
                recent(self.accepted, now).push(now)
            } else {
                recent(self.accepted, now)
            },
            suppressed: if !self.passes(now) {
                counted(self.suppressed)
            } else if self.rolls_over(now) {
                0
            } else {
                self.suppressed
            },
            summaries: if self.tells(now) {
                recent(self.summaries, now).push(now)
            } else {
                recent(self.summaries, now)
            },
        }
    }

    /// What is done with one more event.
    pub open spec fn decision(self, now: Moment) -> DecisionView {
        if !self.passes(now) {
            DecisionView::Suppress {
                summary: if self.gives_notice(now) {
                    Some(summary_event(1, SELF_GATE_LIMIT_PER_MINUTE))
                } else {
                    None
                },
            }
        } else if self.rolls_over(now) {
            DecisionView::SendWithRollover {
                summary: summary_event(self.suppressed, SELF_GATE_LIMIT_PER_MINUTE),
            }
        } else {
            DecisionView::Send
        }
    }
}

impl EventGate {
    /// A gate that nothing has passed yet.
    pub fn new() -> (r: EventGate)
        ensures
            r@.valid(),
            r@ == GateView::fresh(),
    {
        EventGate { accepted: Vec::new(), suppressed: 0, summaries: Vec::new() }
    }

    /// Decides on an event that is to be sent now.
    pub fn check(&mut self) -> (r: GateDecision)
        requires
            old(self)@.valid(),
        ensures
            final(self)@.valid(),
            exists|now: Moment|
                now.valid() && r@ == #[trigger] old(self)@.decision(now) && final(self)@ == old(
                    self,
                )@.after(now),
    {
        let now = clock::now();
        self.check_at(now)
    }

    /// Decides on an event that is to be sent at the given moment.
    pub fn check_at(&mut self, now: Moment) -> (r: GateDecision)
        requires
            old(self)@.valid(),
            now.valid(),
        ensures
            final(self)@.valid(),
            r@ == old(self)@.decision(now),
            final(self)@ == old(self)@.after(now),
    {
        proof {
            law_gate_stays_valid(self@, now);
        }
        self.accepted = keep_recent(&self.accepted, &now);
        self.summaries = keep_recent(&self.summaries, &now);
        let may_tell = self.summaries.len() < SUMMARY_LIMIT_PER_MINUTE as usize;
        if self.accepted.len() < SELF_GATE_LIMIT_PER_MINUTE as usize {
            self.accepted.push(now);
            if self.suppressed > 0 && may_tell {
                let summary = selfgate_summary(self.suppressed, SELF_GATE_LIMIT_PER_MINUTE);
                self.suppressed = 0;
                self.summaries.push(now);
                GateDecision::SendWithRollover { summary }
            } else {
                GateDecision::Send
            }
        } else {
            let summary = if self.suppressed == 0 && may_tell {
                self.summaries.push(now);
                Some(selfgate_summary(1, SELF_GATE_LIMIT_PER_MINUTE))
            } else {
                None
            };
            if self.suppressed < u32::MAX {
                self.suppressed = self.suppressed + 1;
            }
            GateDecision::Suppress { summary }
        }
    }
}

impl Default for EventGate {
    fn default() -> (r: EventGate)
        ensures
            r@.valid(),
            r@ == GateView::fresh(),
    {
        EventGate::new()
    }
}

/// What is sent for an event, given what the event gate decided.
pub open spec fn let_through(decision: DecisionView, event: EventView) -> Seq<EventView> {
    match decision {
        DecisionView::Send => seq![event],
        DecisionView::SendWithRollover { summary } => seq![summary, event],
        DecisionView::Suppress { summary } => match summary {
            Some(s) => seq![s],
            None => Seq::empty(),
        },
    }
}

/// What to send for an event, given what the event gate decided, in the order of sending.
pub fn emit_gated_event(decision: GateDecision, event: GatewayEvent) -> (r: Vec<GatewayEvent>)
    ensures
        event::events_view(r@) == let_through(decision@, event@),
{
    let mut out: Vec<GatewayEvent> = Vec::new();
    match decision {
        GateDecision::Send => {
            out.push(event);
        },
        GateDecision::SendWithRollover { summary } => {
            out.push(summary);
            out.push(event);
        },
        GateDecision::Suppress { summary } => match summary {
            Some(s) => {
                out.push(s);
            },
            None => {},
        },
    }
    assert(event::events_view(out@) == let_through(decision@, event@));
    out
}

/// The event gate after events at the given moments.
pub open spec fn gate_after(g: GateView, moments: Seq<Moment>) -> GateView
    decreases moments.len(),
{
    if moments.len() == 0 {
        g
    } else {
        gate_after(g, moments.drop_last()).after(moments.last())
    }
}

/// What is done with the last of the events at the given moments.
pub open spec fn last_decision(g: GateView, moments: Seq<Moment>) -> DecisionView {
    gate_after(g, moments.drop_last()).decision(moments.last())
}

/// The clock can show the given moments, and it does not go back between them.
pub open spec fn in_order(moments: Seq<Moment>) -> bool {
    &&& forall|i: int| 0 <= i < moments.len() ==> (#[trigger] moments[i]).valid()
    &&& forall|i: int, j: int|
        0 <= i <= j < moments.len() ==> (#[trigger] moments[i]).total_nanos() <= (
        #[trigger] moments[j]).total_nanos()
}

/// Whether a moment is part of the window that begins at another one.
pub open spec fn in_window(m: Moment, start: Moment) -> bool {
    m.total_nanos() >= start.total_nanos() && !m.at_least_after(start, WINDOW_SECS as int)
}

/// How many of the events at the given moments passed in the window that begins at `start`.
pub open spec fn passed_in(moments: Seq<Moment>, start: Moment) -> nat
    decreases moments.len(),
{
    if moments.len() == 0 {
        0
    } else {
        passed_in(moments.drop_last(), start) + if in_window(moments.last(), start) && (
        last_decision(GateView::fresh(), moments) is Send || last_decision(
            GateView::fresh(),
            moments,
        ) is SendWithRollover) {
            1nat
        } else {
            0nat
        }
    }
}

/// How many events are sent for one, given what the event gate decided.
pub open spec fn emitted(decision: DecisionView) -> nat {
    match decision {
        DecisionView::Send => 1,
        DecisionView::SendWithRollover { summary } => 2,
        DecisionView::Suppress { summary } => if summary is Some {
            1
        } else {
            0
        },
    }
}

/// How many events are sent in the window that begins at `start` for those at the given moments, the
/// summaries counted.
pub open spec fn emitted_in(moments: Seq<Moment>, start: Moment) -> nat
    decreases moments.len(),
{
    if moments.len() == 0 {
        0
    } else {
        emitted_in(moments.drop_last(), start) + if in_window(moments.last(), start) {
            emitted(last_decision(GateView::fresh(), moments))
        } else {
            0nat
        }
    }
}

proof fn lemma_recent(moments: Seq<Moment>, now: Moment)
    ensures
        recent(moments, now).len() <= moments.len(),
        forall|i: int|
            0 <= i < recent(moments, now).len() ==> moments.contains(
                #[trigger] recent(moments, now)[i],
            ),
        moments.len() > 0 && !is_recent(moments[0], now) ==> recent(moments, now).len()
            < moments.len(),
    decreases moments.len(),
{
    if moments.len() > 0 {
        let earlier = moments.drop_last();
        lemma_recent(earlier, now);
        if earlier.len() > 0 {
            assert(earlier[0] == moments[0]);
        }
        assert forall|i: int| 0 <= i < recent(moments, now).len() implies moments.contains(
            #[trigger] recent(moments, now)[i],
        ) by {
            if i < recent(earlier, now).len() {
                let m = recent(earlier, now)[i];
                assert(earlier.contains(m));
                let k = choose|k: int| 0 <= k < earlier.len() && earlier[k] == m;
                assert(moments[k] == m);
            } else {
                assert(moments[moments.len() - 1] == recent(moments, now)[i]);
            }
        }
    }
}

/// What holds of every gate keeps holding.
pub proof fn law_gate_stays_valid(g: GateView, now: Moment)
    requires
        g.valid(),
        now.valid(),
    ensures
        g.after(now).valid(),
{
    lemma_recent(g.accepted, now);
    let kept = recent(g.accepted, now);
    assert forall|i: int| 0 <= i < kept.len() implies (#[trigger] kept[i]).valid() by {
        assert(g.accepted.contains(kept[i]));
    }
    lemma_recent(g.summaries, now);
    let told = recent(g.summaries, now);
    assert forall|i: int| 0 <= i < told.len() implies (#[trigger] told[i]).valid() by {
        assert(g.summaries.contains(told[i]));
    }
}

proof fn lemma_in_order(moments: Seq<Moment>)
    requires
        in_order(moments),
        moments.len() > 0,
    ensures
        in_order(moments.drop_last()),
{
    let earlier = moments.drop_last();
    assert forall|i: int| 0 <= i < earlier.len() implies (#[trigger] earlier[i]).valid() by {
        assert(earlier[i] == moments[i]);
    }
    assert forall|i: int, j: int| 0 <= i <= j < earlier.len() implies (
    #[trigger] earlier[i]).total_nanos() <= (#[trigger] earlier[j]).total_nanos() by {
        assert(earlier[i] == moments[i] && earlier[j] == moments[j]);
    }
}

proof fn lemma_stays_valid(moments: Seq<Moment>)
    requires
        in_order(moments),
    ensures
        gate_after(GateView::fresh(), moments).valid(),
    decreases moments.len(),
{
    if moments.len() > 0 {
        let earlier = moments.drop_last();
        lemma_in_order(moments);
        lemma_stays_valid(earlier);
        assert(moments[moments.len() - 1].valid());
        law_gate_stays_valid(gate_after(GateView::fresh(), earlier), moments.last());
    }
}

/// The moments among those given at which an event passed.
spec fn passed(moments: Seq<Moment>) -> Seq<Moment>
    decreases moments.len(),
{
    if moments.len() == 0 {
        Seq::empty()
    } else if gate_after(GateView::fresh(), moments.drop_last()).passes(moments.last()) {
        passed(moments.drop_last()).push(moments.last())
    } else {
        passed(moments.drop_last())
    }
}

/// The moments among those given at which a summary was sent.
spec fn told_at(moments: Seq<Moment>) -> Seq<Moment>
    decreases moments.len(),
{
    if moments.len() == 0 {
        Seq::empty()
    } else if gate_after(GateView::fresh(), moments.drop_last()).tells(moments.last()) {
        told_at(moments.drop_last()).push(moments.last())
    } else {
        told_at(moments.drop_last())
    }
}

/// How many of the given moments are part of the window that begins at `start`.
spec fn count_in(moments: Seq<Moment>, start: Moment) -> nat
    decreases moments.len(),
{
    if moments.len() == 0 {
        0
    } else {
        count_in(moments.drop_last(), start) + if in_window(moments.last(), start) {
            1nat
        } else {
            0nat
        }
    }
}

/// What is left of the window at one moment is enough to know what is left of it later.
proof fn lemma_recent_twice(moments: Seq<Moment>, now: Moment, later: Moment)
    requires
        now.total_nanos() <= later.total_nanos(),
    ensures
        recent(recent(moments, now), later) == recent(moments, later),
    decreases moments.len(),
{
    if moments.len() > 0 {
        let earlier = moments.drop_last();
        lemma_recent_twice(earlier, now, later);
        if is_recent(moments.last(), now) {
            let kept = recent(earlier, now).push(moments.last());
            assert(kept.drop_last() == recent(earlier, now));
            assert(kept.last() == moments.last());
        }
    }
}

/// As long as a window lasts, all in it is recent.
proof fn lemma_count_in(moments: Seq<Moment>, start: Moment, now: Moment)
    requires
        !now.at_least_after(start, WINDOW_SECS as int),
    ensures
        count_in(moments, start) <= recent(moments, now).len(),
    decreases moments.len(),
{
    if moments.len() > 0 {
        lemma_count_in(moments.drop_last(), start, now);
    }
}

/// The event gate remembers all that passed in the window that ends with the last event, and all
/// summaries in it.
proof fn lemma_remembers(moments: Seq<Moment>)
    requires
        in_order(moments),
        moments.len() > 0,
    ensures
        gate_after(GateView::fresh(), moments).accepted == recent(passed(moments), moments.last()),
        gate_after(GateView::fresh(), moments).summaries == recent(
            told_at(moments),
            moments.last(),
        ),
    decreases moments.len(),
{
    let earlier = moments.drop_last();
    let now = moments.last();
    let g = gate_after(GateView::fresh(), earlier);
    lemma_in_order(moments);
    if earlier.len() > 0 {
        lemma_remembers(earlier);
        assert(earlier.last() == moments[earlier.len() - 1]);
        assert(moments[earlier.len() - 1].total_nanos() <= moments[moments.len() - 1].total_nanos());
        lemma_recent_twice(passed(earlier), earlier.last(), now);
        lemma_recent_twice(told_at(earlier), earlier.last(), now);
    } else {
        assert(passed(earlier) == Seq::<Moment>::empty());
        assert(told_at(earlier) == Seq::<Moment>::empty());
    }
    assert(recent(g.accepted, now) == recent(passed(earlier), now));
    assert(recent(g.summaries, now) == recent(told_at(earlier), now));
    assert(is_recent(now, now));
    assert(passed(earlier).push(now).drop_last() == passed(earlier));
    assert(told_at(earlier).push(now).drop_last() == told_at(earlier));
}

proof fn lemma_passed_in(moments: Seq<Moment>, start: Moment)
    ensures
        passed_in(moments, start) == count_in(passed(moments), start),
    decreases moments.len(),
{
    if moments.len() > 0 {
        let earlier = moments.drop_last();
        lemma_passed_in(earlier, start);
        assert(passed(earlier).push(moments.last()).drop_last() == passed(earlier));
    }
}

/// In no window do more than [`SELF_GATE_LIMIT_PER_MINUTE`] events pass, wherever it begins.
pub proof fn law_sliding_window(moments: Seq<Moment>, start: Moment)
    requires
        in_order(moments),
    ensures
        passed_in(moments, start) <= SELF_GATE_LIMIT_PER_MINUTE,
    decreases moments.len(),
{
    if moments.len() > 0 {
        let earlier = moments.drop_last();
        lemma_in_order(moments);
        law_sliding_window(earlier, start);
        if in_window(moments.last(), start) {
            lemma_passed_in(moments, start);
            lemma_count_in(passed(moments), start, moments.last());
            lemma_remembers(moments);
            lemma_stays_valid(moments);
        }
    }
}

/// An event is dropped only if the window that ends with it is full.
pub proof fn law_dropped_only_if_full(moments: Seq<Moment>)
    requires
        in_order(moments),
        moments.len() > 0,
        last_decision(GateView::fresh(), moments) is Suppress,
    ensures
        exists|start: Moment|
            in_window(moments.last(), start) && #[trigger] passed_in(moments, start)
                == SELF_GATE_LIMIT_PER_MINUTE,
{
    let now = moments.last();
    lemma_remembers(moments);
    lemma_stays_valid(moments);
    assert(moments[moments.len() - 1].valid());
    let start = Moment {
        secs: if now.nanos == clock::NANOS - 1 {
            (now.secs - WINDOW_SECS + 1) as i64
        } else {
            (now.secs - WINDOW_SECS) as i64
        },
        nanos: if now.nanos == clock::NANOS - 1 {
            0
        } else {
            (now.nanos + 1) as u32
        },
    };
    assert(start.total_nanos() == now.total_nanos() - WINDOW_SECS * clock::NANOS + 1);
    lemma_passed_before(moments);
    lemma_recent_is_window(passed(moments), start, now);
    lemma_passed_in(moments, start);
    assert(passed_in(moments, start) == SELF_GATE_LIMIT_PER_MINUTE);
}

proof fn lemma_passed_before(moments: Seq<Moment>)
    requires
        in_order(moments),
        moments.len() > 0,
    ensures
        forall|i: int|
            0 <= i < passed(moments).len() ==> (#[trigger] passed(moments)[i]).total_nanos()
                <= moments.last().total_nanos(),
    decreases moments.len(),
{
    let earlier = moments.drop_last();
    if earlier.len() > 0 {
        lemma_in_order(moments);
        lemma_passed_before(earlier);
        assert(earlier.last() == moments[earlier.len() - 1]);
        assert(moments[earlier.len() - 1].total_nanos() <= moments[moments.len() - 1].total_nanos());
    } else {
        assert(passed(earlier) == Seq::<Moment>::empty());
    }
    assert forall|i: int| 0 <= i < passed(moments).len() implies (
    #[trigger] passed(moments)[i]).total_nanos() <= moments.last().total_nanos() by {
        if i < passed(earlier).len() {
            assert(passed(moments)[i] == passed(earlier)[i]);
        }
    }
}

/// The window that ends now holds all that is recent and nothing else.
proof fn lemma_recent_is_window(moments: Seq<Moment>, start: Moment, now: Moment)
    requires
        start.total_nanos() == now.total_nanos() - WINDOW_SECS * clock::NANOS + 1,
        forall|i: int|
            0 <= i < moments.len() ==> (#[trigger] moments[i]).total_nanos() <= now.total_nanos(),
    ensures
        count_in(moments, start) == recent(moments, now).len(),
    decreases moments.len(),
{
    if moments.len() > 0 {
        let earlier = moments.drop_last();
        assert forall|i: int| 0 <= i < earlier.len() implies (#[trigger] earlier[i]).total_nanos()
            <= now.total_nanos() by {
            assert(earlier[i] == moments[i]);
        }
        lemma_recent_is_window(earlier, start, now);
        assert(moments[moments.len() - 1].total_nanos() <= now.total_nanos());
    }
}

/// How many summaries are sent in the window that begins at `start`.
pub open spec fn summaries_in(moments: Seq<Moment>, start: Moment) -> nat
    decreases moments.len(),
{
    if moments.len() == 0 {
        0
    } else {
        summaries_in(moments.drop_last(), start) + if in_window(moments.last(), start)
            && gate_after(GateView::fresh(), moments.drop_last()).tells(moments.last()) {
            1nat
        } else {
            0nat
        }
    }
}

proof fn lemma_emitted_in(moments: Seq<Moment>, start: Moment)
    ensures
        emitted_in(moments, start) == passed_in(moments, start) + summaries_in(moments, start),
        summaries_in(moments, start) == count_in(told_at(moments), start),
    decreases moments.len(),
{
    if moments.len() > 0 {
        let earlier = moments.drop_last();
        lemma_emitted_in(earlier, start);
        assert(told_at(earlier).push(moments.last()).drop_last() == told_at(earlier));
    }
}

/// In no window are more than [`SUMMARY_LIMIT_PER_MINUTE`] summaries sent, wherever it begins.
pub proof fn law_summaries_are_few(moments: Seq<Moment>, start: Moment)
    requires
        in_order(moments),
    ensures
        summaries_in(moments, start) <= SUMMARY_LIMIT_PER_MINUTE,
    decreases moments.len(),
{
    if moments.len() > 0 {
        let earlier = moments.drop_last();
        lemma_in_order(moments);
        law_summaries_are_few(earlier, start);
        if in_window(moments.last(), start) {
            lemma_emitted_in(moments, start);
            lemma_count_in(told_at(moments), start, moments.last());
            lemma_remembers(moments);
            lemma_stays_valid(moments);
        }
    }
}

/// In no window are as many events sent as the manager accepts in a minute, wherever it begins and
/// the summaries counted.
pub proof fn law_below_manager_limit(moments: Seq<Moment>, start: Moment)
    requires
        in_order(moments),
    ensures
        emitted_in(moments, start) < MANAGER_LIMIT_PER_MINUTE,
{
    law_sliding_window(moments, start);
    law_summaries_are_few(moments, start);
    lemma_emitted_in(moments, start);
}

/// The given moments all fall into one window.
pub open spec fn is_burst(moments: Seq<Moment>) -> bool {
    forall|i: int, j: int|
        0 <= i < moments.len() && 0 <= j < moments.len() ==> is_recent(
            #[trigger] moments[i],
            #[trigger] moments[j],
        )
}

proof fn lemma_all_recent(moments: Seq<Moment>, now: Moment)
    requires
        forall|i: int| 0 <= i < moments.len() ==> is_recent(#[trigger] moments[i], now),
    ensures
        recent(moments, now) == moments,
    decreases moments.len(),
{
    if moments.len() > 0 {
        let earlier = moments.drop_last();
        assert forall|i: int| 0 <= i < earlier.len() implies is_recent(
            #[trigger] earlier[i],
            now,
        ) by {
            assert(earlier[i] == moments[i]);
        }
        lemma_all_recent(earlier, now);
        assert(is_recent(moments[moments.len() - 1], now));
        assert(earlier.push(moments.last()) == moments);
    }
}

proof fn lemma_burst(moments: Seq<Moment>)
    requires
        is_burst(moments),
        moments.len() <= u32::MAX,
    ensures
        gate_after(GateView::fresh(), moments) == (GateView {
            accepted: if moments.len() <= SELF_GATE_LIMIT_PER_MINUTE {
                moments
            } else {
                moments.take(SELF_GATE_LIMIT_PER_MINUTE as int)
            },
            suppressed: if moments.len() <= SELF_GATE_LIMIT_PER_MINUTE {
                0
            } else {
                (moments.len() - SELF_GATE_LIMIT_PER_MINUTE) as u32
            },
            summaries: if moments.len() <= SELF_GATE_LIMIT_PER_MINUTE {
                Seq::empty()
            } else {
                seq![moments[SELF_GATE_LIMIT_PER_MINUTE as int]]
            },
        }),
    decreases moments.len(),
{
    if moments.len() == 0 {
        assert(moments == Seq::<Moment>::empty());
    } else {
        let earlier = moments.drop_last();
        let now = moments.last();
        assert forall|i: int, j: int|
            0 <= i < earlier.len() && 0 <= j < earlier.len() implies is_recent(
            #[trigger] earlier[i],
            #[trigger] earlier[j],
        ) by {
            assert(earlier[i] == moments[i] && earlier[j] == moments[j]);
        }
        lemma_burst(earlier);
        let g = gate_after(GateView::fresh(), earlier);
        assert forall|i: int| 0 <= i < g.accepted.len() implies is_recent(
            #[trigger] g.accepted[i],
            now,
        ) by {
            assert(g.accepted[i] == moments[i]);
            assert(now == moments[moments.len() - 1]);
        }
        lemma_all_recent(g.accepted, now);
        assert forall|i: int| 0 <= i < g.summaries.len() implies is_recent(
            #[trigger] g.summaries[i],
            now,
        ) by {
            assert(g.summaries[i] == moments[SELF_GATE_LIMIT_PER_MINUTE as int]);
            assert(now == moments[moments.len() - 1]);
        }
        lemma_all_recent(g.summaries, now);
        assert(earlier.push(now) == moments);
        if moments.len() > SELF_GATE_LIMIT_PER_MINUTE {
            assert(moments.take(SELF_GATE_LIMIT_PER_MINUTE as int) == g.accepted);
            assert(gate_after(GateView::fresh(), moments).summaries
                == seq![moments[SELF_GATE_LIMIT_PER_MINUTE as int]]);
        }
    }
}

/// Of a burst the first [`SELF_GATE_LIMIT_PER_MINUTE`] events are sent, the next is replaced by a
/// summary and all later ones are dropped in silence.
pub proof fn law_one_window(moments: Seq<Moment>)
    requires
        0 < moments.len() <= u32::MAX,
        is_burst(moments),
    ensures
        last_decision(GateView::fresh(), moments) == if moments.len()
            <= SELF_GATE_LIMIT_PER_MINUTE {
            DecisionView::Send
        } else if moments.len() == SELF_GATE_LIMIT_PER_MINUTE + 1 {
            DecisionView::Suppress { summary: Some(summary_event(1, SELF_GATE_LIMIT_PER_MINUTE)) }
        } else {
            DecisionView::Suppress { summary: None }
        },
{
    let earlier = moments.drop_last();
    let now = moments.last();
    assert forall|i: int, j: int|
        0 <= i < earlier.len() && 0 <= j < earlier.len() implies is_recent(
        #[trigger] earlier[i],
        #[trigger] earlier[j],
    ) by {
        assert(earlier[i] == moments[i] && earlier[j] == moments[j]);
    }
    lemma_burst(earlier);
    let g = gate_after(GateView::fresh(), earlier);
    assert forall|i: int| 0 <= i < g.accepted.len() implies is_recent(
        #[trigger] g.accepted[i],
        now,
    ) by {
        assert(g.accepted[i] == moments[i]);
        assert(now == moments[moments.len() - 1]);
    }
    lemma_all_recent(g.accepted, now);
}

/// The next event after a burst is sent once the window of the first event is over, and a summary
/// goes before it exactly if events were dropped. The summary tells how many.
pub proof fn law_next_window(moments: Seq<Moment>, later: Moment)
    requires
        0 < moments.len() <= u32::MAX,
        is_burst(moments),
        later.at_least_after(moments[0], WINDOW_SECS as int),
    ensures
        last_decision(GateView::fresh(), moments.push(later)) == if moments.len()
            <= SELF_GATE_LIMIT_PER_MINUTE {
            DecisionView::Send
        } else {
            DecisionView::SendWithRollover {
                summary: summary_event(
                    (moments.len() - SELF_GATE_LIMIT_PER_MINUTE) as u32,
                    SELF_GATE_LIMIT_PER_MINUTE,
                ),
            }
        },
        gate_after(GateView::fresh(), moments.push(later)).suppressed == 0,
{
    assert(moments.push(later).drop_last() == moments);
    lemma_burst(moments);
    lemma_recent(gate_after(GateView::fresh(), moments).accepted, later);
    lemma_recent(gate_after(GateView::fresh(), moments).summaries, later);
}

/// How many of the events at the given moments were dropped.
pub open spec fn dropped(g: GateView, moments: Seq<Moment>) -> nat
    decreases moments.len(),
{
    if moments.len() == 0 {
        0
    } else {
        dropped(g, moments.drop_last()) + if last_decision(g, moments) is Suppress {
            1nat
        } else {
            0nat
        }
    }
}

/// How many dropped events the summaries that went before an event told of.
pub open spec fn told(g: GateView, moments: Seq<Moment>) -> nat
    decreases moments.len(),
{
    if moments.len() == 0 {
        0
    } else {
        told(g, moments.drop_last()) + if last_decision(g, moments) is SendWithRollover {
            gate_after(g, moments.drop_last()).suppressed as nat
        } else {
            0nat
        }
    }
}

/// Every event that was dropped has been told of by a summary or is counted for the next one, and
/// none is told of twice.
pub proof fn law_drops_are_counted(moments: Seq<Moment>)
    requires
        moments.len() <= u32::MAX,
    ensures
        dropped(GateView::fresh(), moments) == told(GateView::fresh(), moments) + gate_after(
            GateView::fresh(),
            moments,
        ).suppressed,
        last_decision(GateView::fresh(), moments) matches DecisionView::SendWithRollover { summary }
            ==> summary == summary_event(
            gate_after(GateView::fresh(), moments.drop_last()).suppressed,
            SELF_GATE_LIMIT_PER_MINUTE,
        ),
        dropped(GateView::fresh(), moments) <= moments.len(),
    decreases moments.len(),
{
    if moments.len() > 0 {
        law_drops_are_counted(moments.drop_last());
    }
}

/// The first event that passes after others were dropped is preceded by the summary of all that were
/// dropped, and the first that is dropped after all were told of is replaced by a summary, as long as
/// fewer summaries than the limit were sent in the window that ends with it. Where the limit is
/// reached the count is kept.
pub proof fn law_runs_are_announced(g: GateView, now: Moment)
    requires
        g.valid(),
        now.valid(),
    ensures
        recent(g.summaries, now).len() < SUMMARY_LIMIT_PER_MINUTE && g.suppressed > 0 && g.passes(now)
            ==> g.decision(now) == (DecisionView::SendWithRollover {
            summary: summary_event(g.suppressed, SELF_GATE_LIMIT_PER_MINUTE),
        }) && g.after(now).suppressed == 0,
        recent(g.summaries, now).len() < SUMMARY_LIMIT_PER_MINUTE && g.suppressed == 0 && !g.passes(
            now,
        ) ==> g.decision(now) == (DecisionView::Suppress {
            summary: Some(summary_event(1, SELF_GATE_LIMIT_PER_MINUTE)),
        }),
        recent(g.summaries, now).len() >= SUMMARY_LIMIT_PER_MINUTE && g.passes(now) ==> g.decision(
            now,
        ) == DecisionView::Send && g.after(now).suppressed == g.suppressed,
        !g.passes(now) ==> g.after(now).suppressed == counted(g.suppressed),
{
}

/// What is sent for an event is as many events as counted here.
pub proof fn law_emitted(decision: DecisionView, event: EventView)
    ensures
        let_through(decision, event).len() == emitted(decision),
{
}

} // verus!
