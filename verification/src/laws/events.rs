//! What the manager is told of what happens to the unit.

use vstd::prelude::*;

use crate::appear_x::polling;
use crate::appear_x::reachability::{self, OutcomeView, ReachView};
use crate::appear_x::startup::{self, PhaseView};
use crate::appear_x::state::{self, StateView};
use crate::double::Double;
use crate::event::{EventSeverity, EventView, PartView};
use crate::json::{Exact, JsonView, Number};
use crate::laws::{health, values};
use crate::text;

verus! {

/// Tells the words apart by their length and some of their letters.
spec fn mark(name: Seq<char>) -> int {
    ((name.len() as int) * 256 + values::letter(name, 0)) * 256 + values::letter(name, 1)
}

proof fn lemma_names()
    ensures
        mark("CRITICAL"@) == 541522,
        mark("MAJOR"@) == 347457,
        mark("MINOR"@) == 347465,
        mark("WARNING"@) == 481089,
        mark("UNKNOWN"@) == 480590,
        mark("critical"@) == 549746,
        mark("degraded"@) == 549989,
        mark("ok"@) == 159595,
        mark("alarm_id"@) == 549228,
        mark("severity"@) == 553829,
        mark("slot"@) == 291692,
        mark("object_label"@) == 814946,
        mark("object_type"@) == 749410,
        mark("object_id"@) == 618338,
        mark("state"@) == 357236,
        mark("error_code"@) == 681330,
        mark("rx_power_dbm_min"@) == 1077880,
        mark("threshold_dbm"@) == 881768,
        mark("temp_c_max"@) == 685157,
        mark("threshold_c"@) == 750696,
        mark("consecutive_failures"@) == 1336175,
        mark("target_address"@) == 947297,
        mark("last_error_code"@) == 1010785,
        mark("downtime_secs"@) == 877679,
        mark("reachable"@) == 619109,
        mark("gateway_host"@) == 812897,
        mark("gateway_egress_ip"@) == 1140577,
        mark("last_successful_poll_unix"@) == 1666145,
        mark("status"@) == 422772,
        mark("alarms"@) == 418156,
        mark("version"@) == 489061,
        mark("capabilities"@) == 811873,
        mark("category"@) == 549729,
        mark("message"@) == 486757,
        mark("details"@) == 484453,
        mark("info"@) == 289134,
        mark("minor"@) == 355689,
        mark("major"@) == 355681,
{
    assert(mark("CRITICAL"@) == 541522) by {
        reveal_strlit("CRITICAL");
    }
    assert(mark("MAJOR"@) == 347457) by {
        reveal_strlit("MAJOR");
    }
    assert(mark("MINOR"@) == 347465) by {
        reveal_strlit("MINOR");
    }
    assert(mark("WARNING"@) == 481089) by {
        reveal_strlit("WARNING");
    }
    assert(mark("UNKNOWN"@) == 480590) by {
        reveal_strlit("UNKNOWN");
    }
    assert(mark("critical"@) == 549746) by {
        reveal_strlit("critical");
    }
    assert(mark("degraded"@) == 549989) by {
        reveal_strlit("degraded");
    }
    assert(mark("ok"@) == 159595) by {
        reveal_strlit("ok");
    }
    assert(mark("alarm_id"@) == 549228) by {
        reveal_strlit("alarm_id");
    }
    assert(mark("severity"@) == 553829) by {
        reveal_strlit("severity");
    }
    assert(mark("slot"@) == 291692) by {
        reveal_strlit("slot");
    }
    assert(mark("object_label"@) == 814946) by {
        reveal_strlit("object_label");
    }
    assert(mark("object_type"@) == 749410) by {
        reveal_strlit("object_type");
    }
    assert(mark("object_id"@) == 618338) by {
        reveal_strlit("object_id");
    }
    assert(mark("state"@) == 357236) by {
        reveal_strlit("state");
    }
    assert(mark("error_code"@) == 681330) by {
        reveal_strlit("error_code");
    }
    assert(mark("rx_power_dbm_min"@) == 1077880) by {
        reveal_strlit("rx_power_dbm_min");
    }
    assert(mark("threshold_dbm"@) == 881768) by {
        reveal_strlit("threshold_dbm");
    }
    assert(mark("temp_c_max"@) == 685157) by {
        reveal_strlit("temp_c_max");
    }
    assert(mark("threshold_c"@) == 750696) by {
        reveal_strlit("threshold_c");
    }
    assert(mark("consecutive_failures"@) == 1336175) by {
        reveal_strlit("consecutive_failures");
    }
    assert(mark("target_address"@) == 947297) by {
        reveal_strlit("target_address");
    }
    assert(mark("last_error_code"@) == 1010785) by {
        reveal_strlit("last_error_code");
    }
    assert(mark("downtime_secs"@) == 877679) by {
        reveal_strlit("downtime_secs");
    }
    assert(mark("reachable"@) == 619109) by {
        reveal_strlit("reachable");
    }
    assert(mark("gateway_host"@) == 812897) by {
        reveal_strlit("gateway_host");
    }
    assert(mark("gateway_egress_ip"@) == 1140577) by {
        reveal_strlit("gateway_egress_ip");
    }
    assert(mark("last_successful_poll_unix"@) == 1666145) by {
        reveal_strlit("last_successful_poll_unix");
    }
    assert(mark("status"@) == 422772) by {
        reveal_strlit("status");
    }
    assert(mark("alarms"@) == 418156) by {
        reveal_strlit("alarms");
    }
    assert(mark("version"@) == 489061) by {
        reveal_strlit("version");
    }
    assert(mark("capabilities"@) == 811873) by {
        reveal_strlit("capabilities");
    }
    assert(mark("category"@) == 549729) by {
        reveal_strlit("category");
    }
    assert(mark("message"@) == 486757) by {
        reveal_strlit("message");
    }
    assert(mark("details"@) == 484453) by {
        reveal_strlit("details");
    }
    assert(mark("info"@) == 289134) by {
        reveal_strlit("info");
    }
    assert(mark("minor"@) == 355689) by {
        reveal_strlit("minor");
    }
    assert(mark("major"@) == 355681) by {
        reveal_strlit("major");
    }
}

/// What an alarm tells under a name.
pub open spec fn says(alarm: JsonView, key: Seq<char>) -> Option<Seq<char>> {
    values::text_in(values::under(Some(alarm), key))
}

/// What an alarm tells under a name, or the given text.
pub open spec fn says_or(alarm: JsonView, key: Seq<char>, otherwise: Seq<char>) -> Seq<char> {
    values::text_or(values::under(Some(alarm), key), otherwise)
}

/// A text that is told unless it is empty.
pub open spec fn unless_empty(s: Seq<char>) -> Option<JsonView> {
    if s.len() == 0 {
        None
    } else {
        Some(JsonView::Text(s))
    }
}

/// The severity of the event for an alarm of the given severity.
pub open spec fn weighed(severity: Option<Seq<char>>) -> EventSeverity {
    if severity == Some("CRITICAL"@) || severity == Some("MAJOR"@) {
        EventSeverity::Critical
    } else if severity == Some("MINOR"@) || severity == Some("WARNING"@) {
        EventSeverity::Minor
    } else {
        EventSeverity::Info
    }
}

/// The message for an alarm: its name, where it has one, and its description.
pub open spec fn alarm_message(alarm: JsonView) -> Seq<char> {
    let name = says_or(alarm, "alarmName"@, Seq::empty());
    let description = says_or(alarm, "alarmDescription"@, Seq::empty());
    if name.len() == 0 {
        "Alarm raised: "@ + description
    } else {
        "Alarm raised: "@ + name + " — "@ + description
    }
}

/// The number of the slot that an alarm is about.
pub open spec fn alarm_slot(alarm: JsonView) -> Option<JsonView> {
    match values::under(Some(alarm), "configObjectSlot"@) {
        Some(JsonView::Number(Number { exact: Exact::Unsigned(n), reading })) => Some(
            values::number(n as nat),
        ),
        _ => None,
    }
}

/// A critical or major alarm gives a critical event, a minor one or a warning a minor event, and any
/// other alarm an informational one. The event has the alarm's words, and its details are the alarm's
/// own.
pub proof fn law_raised_alarm(raised: Seq<JsonView>, gone: Seq<Seq<char>>, i: int)
    requires
        0 <= i < raised.len(),
    ensures
        ({
            let alarm = raised[i];
            let e = polling::alarm_events(raised, gone)[i];
            &&& e.severity == weighed(says(alarm, "severity"@))
            &&& e.category == "alarm"@
            &&& e.message == seq![PartView::Text(alarm_message(alarm))]
            &&& e.error_code is None
            &&& e.details is Some
            &&& e.details->0 is Object
            &&& values::under(e.details, "alarm_id"@) == Some(
                JsonView::Text(says_or(alarm, "alarmId"@, "unknown"@)),
            )
            &&& values::under(e.details, "severity"@) == Some(
                JsonView::Text(says_or(alarm, "severity"@, "UNKNOWN"@)),
            )
            &&& values::under(e.details, "slot"@) == alarm_slot(alarm)
            &&& values::under(e.details, "object_label"@) == unless_empty(
                says_or(alarm, "configObjectLabel"@, Seq::empty()),
            )
            &&& values::under(e.details, "object_type"@) == unless_empty(
                says_or(alarm, "configObjectType"@, Seq::empty()),
            )
            &&& values::under(e.details, "object_id"@) == unless_empty(
                says_or(alarm, "configObjectId"@, Seq::empty()),
            )
            &&& forall|key: Seq<char>| #[trigger]
                values::under(e.details, key) is Some ==> key == "alarm_id"@ || key == "severity"@
                    || key == "slot"@ || key == "object_label"@ || key == "object_type"@ || key
                    == "object_id"@
        }),
{
    lemma_names();
    reveal_strlit("");
    assert(""@ == Seq::<char>::empty());
    assert(polling::alarm_events(raised, gone)[i] == polling::alarm_event(raised[i]));
}

/// There is one event for each alarm that was raised, then one for each that is gone.
pub proof fn law_cleared_alarm(raised: Seq<JsonView>, gone: Seq<Seq<char>>, i: int)
    requires
        0 <= i < gone.len(),
    ensures
        polling::alarm_events(raised, gone).len() == raised.len() + gone.len(),
        ({
            let e = polling::alarm_events(raised, gone)[raised.len() + i];
            &&& e.severity == EventSeverity::Info
            &&& e.category == "alarm"@
            &&& e.message == seq![PartView::Text("Alarm cleared: "@ + gone[i])]
            &&& e.error_code is None
            &&& e.details == Some(
                JsonView::Object(Map::empty().insert("alarm_id"@, JsonView::Text(gone[i]))),
            )
        }),
{
    assert(polling::alarm_events(raised, gone)[raised.len() + i] == polling::cleared_event(gone[i]));
}

/// The alarms in an answer.
pub open spec fn alarms_in(result: JsonView) -> Seq<JsonView> {
    values::elements(values::under(Some(result), "data"@))
}

/// Whether an alarm among some has the given severity.
pub open spec fn any_is(alarms: Seq<JsonView>, severity: Seq<char>) -> bool {
    exists|i: int| 0 <= i < alarms.len() && says(#[trigger] alarms[i], "severity"@) == Some(severity)
}

/// Whether an alarm among some has the given identifier.
pub open spec fn any_has(alarms: Seq<JsonView>, id: Seq<char>) -> bool {
    exists|i: int| 0 <= i < alarms.len() && says(#[trigger] alarms[i], "alarmId"@) == Some(id)
}

/// The unit is critical exactly if an alarm is critical or major, degraded exactly if none is but one is
/// minor or a warning, and well exactly if there is neither.
pub proof fn law_status(alarms: Seq<JsonView>)
    ensures
        polling::status_of(alarms) == "critical"@ <==> any_is(alarms, "CRITICAL"@) || any_is(
            alarms,
            "MAJOR"@,
        ),
        polling::status_of(alarms) == "degraded"@ <==> !any_is(alarms, "CRITICAL"@) && !any_is(
            alarms,
            "MAJOR"@,
        ) && (any_is(alarms, "MINOR"@) || any_is(alarms, "WARNING"@)),
        polling::status_of(alarms) == "ok"@ <==> !any_is(alarms, "CRITICAL"@) && !any_is(
            alarms,
            "MAJOR"@,
        ) && !any_is(alarms, "MINOR"@) && !any_is(alarms, "WARNING"@),
{
    lemma_names();
    assert forall|i: int| 0 <= i < alarms.len() implies says(#[trigger] alarms[i], "severity"@)
        == polling::severity_of(alarms[i]) by {}
    if exists|i: int| 0 <= i < alarms.len() && polling::grave(#[trigger] alarms[i]) {
        let i = choose|i: int| 0 <= i < alarms.len() && polling::grave(#[trigger] alarms[i]);
        assert(says(alarms[i], "severity"@) == polling::severity_of(alarms[i]));
    }
    if exists|i: int| 0 <= i < alarms.len() && polling::light(#[trigger] alarms[i]) {
        let i = choose|i: int| 0 <= i < alarms.len() && polling::light(#[trigger] alarms[i]);
        assert(says(alarms[i], "severity"@) == polling::severity_of(alarms[i]));
    }
    if any_is(alarms, "CRITICAL"@) {
        let i = choose|i: int|
            0 <= i < alarms.len() && says(#[trigger] alarms[i], "severity"@) == Some("CRITICAL"@);
        assert(polling::grave(alarms[i]));
    }
    if any_is(alarms, "MAJOR"@) {
        let i = choose|i: int|
            0 <= i < alarms.len() && says(#[trigger] alarms[i], "severity"@) == Some("MAJOR"@);
        assert(polling::grave(alarms[i]));
    }
    if any_is(alarms, "MINOR"@) {
        let i = choose|i: int|
            0 <= i < alarms.len() && says(#[trigger] alarms[i], "severity"@) == Some("MINOR"@);
        assert(polling::light(alarms[i]));
    }
    if any_is(alarms, "WARNING"@) {
        let i = choose|i: int|
            0 <= i < alarms.len() && says(#[trigger] alarms[i], "severity"@) == Some("WARNING"@);
        assert(polling::light(alarms[i]));
    }
}

/// After an answer the alarms are those in it, and nothing else has changed but what follows from them.
pub proof fn law_alarms_are_kept(s: StateView, result: JsonView, id: Seq<char>)
    ensures
        ({
            let t = polling::state_after_alarms(s, result);
            &&& t.alarms == alarms_in(result)
            &&& t.prev_alarm_ids.contains(id) <==> any_has(alarms_in(result), id)
            &&& t.status == polling::status_of(alarms_in(result))
            &&& t == StateView {
                alarms: t.alarms,
                prev_alarm_ids: t.prev_alarm_ids,
                status: t.status,
                ..s
            }
        }),
{
    let alarms = alarms_in(result);
    assert(polling::data_in(result).items_or_none() == alarms);
    assert forall|i: int| 0 <= i < alarms.len() implies says(#[trigger] alarms[i], "alarmId"@)
        == state::alarm_id(alarms[i]) by {}
}

/// An alarm is new exactly if it has an identifier that was not known.
pub open spec fn is_new(alarm: JsonView, known: Set<Seq<char>>) -> bool {
    match says(alarm, "alarmId"@) {
        Some(id) => !known.contains(id),
        None => false,
    }
}

/// What is raised are the new alarms, in their order.
pub proof fn law_new_alarms(alarms: Seq<JsonView>, known: Set<Seq<char>>)
    ensures
        state::alarms_not_in(alarms, known) == alarms.filter(|a: JsonView| is_new(a, known)),
    decreases alarms.len(),
{
    reveal(Seq::filter);
    let p = |a: JsonView| is_new(a, known);
    if alarms.len() > 0 {
        law_new_alarms(alarms.drop_last(), known);
        if p(alarms.last()) {
            assert(alarms.filter(p) == alarms.drop_last().filter(p).push(alarms.last()));
        } else {
            assert(alarms.filter(p) == alarms.drop_last().filter(p));
        }
    }
    assert(state::alarms_not_in(alarms, known) == alarms.filter(p));
}

/// What is gone are the alarms that were known and are no longer told of, each once.
pub proof fn law_gone_alarms(gone: Seq<Seq<char>>, before: Set<Seq<char>>, alarms: Seq<JsonView>, id: Seq<char>)
    requires
        polling::are_gone(gone, before, alarms),
    ensures
        gone.contains(id) <==> before.contains(id) && !any_has(alarms, id),
        gone.no_duplicates(),
{
    assert(gone.to_set().contains(id) == gone.contains(id));
    assert forall|i: int| 0 <= i < alarms.len() implies says(#[trigger] alarms[i], "alarmId"@)
        == state::alarm_id(alarms[i]) by {}
}

/// One event, or none.
pub open spec fn only_if(holds: bool, e: EventView) -> Seq<EventView> {
    if holds {
        seq![e]
    } else {
        Seq::empty()
    }
}

/// Whether a card told that its clock is locked.
pub open spec fn was_locked(status: Option<JsonView>) -> bool {
    status is Some && health::told_clock(status->0) == Some("LOCKED"@)
}

/// That the clock of a card is no longer locked.
pub open spec fn clock_lost(slot: u32, state: Option<Seq<char>>) -> EventView {
    EventView {
        severity: EventSeverity::Critical,
        category: "ptp"@,
        message: seq![
            PartView::Text(
                "PTP lock lost on slot "@ + text::decimal(slot as nat) + " (state="@ + match state {
                    Some(s) => s,
                    None => "unknown"@,
                } + ")"@,
            ),
        ],
        error_code: None,
        details: Some(
            JsonView::Object(
                Map::empty().insert("slot"@, values::number(slot as nat)).insert(
                    "state"@,
                    match state {
                        Some(s) => JsonView::Text(s),
                        None => JsonView::Null,
                    },
                ).insert("error_code"@, JsonView::Text("ptp_lost"@)),
            ),
        ),
    }
}

/// That the clock of a card is locked.
pub open spec fn clock_regained(slot: u32) -> EventView {
    EventView {
        severity: EventSeverity::Info,
        category: "ptp"@,
        message: seq![PartView::Text("PTP locked on slot "@ + text::decimal(slot as nat))],
        error_code: None,
        details: Some(
            JsonView::Object(
                Map::empty().insert("slot"@, values::number(slot as nat)).insert(
                    "state"@,
                    JsonView::Text("LOCKED"@),
                ).insert("error_code"@, JsonView::Text("ptp_locked"@)),
            ),
        ),
    }
}

/// That a port of a card receives too little light.
pub open spec fn too_dark(slot: u32, power: Double, limit: Double) -> EventView {
    EventView {
        severity: EventSeverity::Minor,
        category: "sfp"@,
        message: seq![
            PartView::Text(
                "SFP RX optical power on slot "@ + text::decimal(slot as nat) + " is below "@,
            ),
            PartView::Fixed { value: limit, decimals: 1 },
            PartView::Text(" dBm (current min "@),
            PartView::Fixed { value: power, decimals: 1 },
            PartView::Text(" dBm)"@),
        ],
        error_code: None,
        details: Some(
            JsonView::Object(
                Map::empty().insert("slot"@, values::number(slot as nat)).insert(
                    "rx_power_dbm_min"@,
                    values::written(power),
                ).insert("threshold_dbm"@, values::written(limit)).insert(
                    "error_code"@,
                    JsonView::Text("sfp_low_rx_power"@),
                ),
            ),
        ),
    }
}

/// That all ports of a card receive enough light again.
pub open spec fn bright_again(slot: u32, power: Double) -> EventView {
    EventView {
        severity: EventSeverity::Info,
        category: "sfp"@,
        message: seq![
            PartView::Text(
                "SFP RX optical power recovered on slot "@ + text::decimal(slot as nat)
                    + " (current min "@,
            ),
            PartView::Fixed { value: power, decimals: 1 },
            PartView::Text(" dBm)"@),
        ],
        error_code: None,
        details: Some(
            JsonView::Object(
                Map::empty().insert("slot"@, values::number(slot as nat)).insert(
                    "rx_power_dbm_min"@,
                    values::written(power),
                ),
            ),
        ),
    }
}

/// That a port of a card is too hot.
pub open spec fn too_hot(slot: u32, heat: Double, limit: Double) -> EventView {
    EventView {
        severity: EventSeverity::Minor,
        category: "sfp"@,
        message: seq![
            PartView::Text(
                "SFP cage temperature on slot "@ + text::decimal(slot as nat) + " exceeded "@,
            ),
            PartView::Fixed { value: limit, decimals: 0 },
            PartView::Text(" °C (current max "@),
            PartView::Fixed { value: heat, decimals: 1 },
            PartView::Text(" °C)"@),
        ],
        error_code: None,
        details: Some(
            JsonView::Object(
                Map::empty().insert("slot"@, values::number(slot as nat)).insert(
                    "temp_c_max"@,
                    values::written(heat),
                ).insert("threshold_c"@, values::written(limit)).insert(
                    "error_code"@,
                    JsonView::Text("sfp_high_temperature"@),
                ),
            ),
        ),
    }
}

/// That no port of a card is too hot any more.
pub open spec fn no_longer_hot(slot: u32, heat: Double) -> EventView {
    EventView {
        severity: EventSeverity::Info,
        category: "sfp"@,
        message: seq![
            PartView::Text(
                "SFP cage temperature recovered on slot "@ + text::decimal(slot as nat)
                    + " (current max "@,
            ),
            PartView::Fixed { value: heat, decimals: 1 },
            PartView::Text(" °C)"@),
        ],
        error_code: None,
        details: Some(
            JsonView::Object(
                Map::empty().insert("slot"@, values::number(slot as nat)).insert(
                    "temp_c_max"@,
                    values::written(heat),
                ),
            ),
        ),
    }
}

/// Whether a value is the least light that a card received, where it is known and received any.
pub open spec fn least_on(v: Option<Double>, status: Option<JsonView>) -> bool {
    match status {
        Some(s) => health::least(v, |d: Double| health::receives(s, d)),
        None => v is None,
    }
}

/// Whether a value is the greatest heat of a card, where it is known and told any.
pub open spec fn greatest_on(v: Option<Double>, status: Option<JsonView>) -> bool {
    match status {
        Some(s) => health::greatest(v, |d: Double| health::heats(s, d)),
        None => v is None,
    }
}

/// Whether a value is known and less than a limit.
pub open spec fn below(v: Option<Double>, limit: Double) -> bool {
    v is Some && health::less(v->0, limit)
}

/// Whether a value is known and more than a limit.
pub open spec fn above(v: Option<Double>, limit: Double) -> bool {
    v is Some && health::less(limit, v->0)
}

/// What a card's new state gives rise to: an event where its clock lost or gained its lock, where the
/// light on its ports fell below the limit or rose to it again, and where its ports became too hot or
/// cooled down. What a state does not tell gives none.
pub proof fn law_card_events(
    slot: u32,
    prev: Option<JsonView>,
    curr: JsonView,
    rx_limit: Double,
    heat_limit: Double,
)
    ensures
        exists|dark: Option<Double>, light: Option<Double>, cool: Option<Double>, hot: Option<Double>|
            #![trigger least_on(dark, prev), least_on(light, Some(curr)), greatest_on(cool, prev), greatest_on(hot, Some(curr))]
            {
                &&& least_on(dark, prev)
                &&& least_on(light, Some(curr))
                &&& greatest_on(cool, prev)
                &&& greatest_on(hot, Some(curr))
                &&& polling::card_events(slot, prev, curr, rx_limit, heat_limit) == only_if(
                    was_locked(prev) && !was_locked(Some(curr)),
                    clock_lost(slot, health::told_clock(curr)),
                ) + only_if(
                    prev is Some && !was_locked(prev) && was_locked(Some(curr)),
                    clock_regained(slot),
                ) + only_if(
                    below(light, rx_limit) && !below(dark, rx_limit),
                    too_dark(slot, light->0, rx_limit),
                ) + only_if(
                    light is Some && !below(light, rx_limit) && below(dark, rx_limit),
                    bright_again(slot, light->0),
                ) + only_if(
                    above(hot, heat_limit) && !above(cool, heat_limit),
                    too_hot(slot, hot->0, heat_limit),
                ) + only_if(
                    hot is Some && !above(hot, heat_limit) && above(cool, heat_limit),
                    no_longer_hot(slot, hot->0),
                )
            },
{
    health::lemma_signals(curr);
    let dark = polling::light_of(prev);
    let light = polling::light_of(Some(curr));
    let cool = polling::heat_of(prev);
    let hot = polling::heat_of(Some(curr));
    if prev is Some {
        health::lemma_signals(prev->0);
    }
    assert(least_on(dark, prev));
    assert(least_on(light, Some(curr)));
    assert(greatest_on(cool, prev));
    assert(greatest_on(hot, Some(curr)));
    if dark is Some {
        health::law_doubles_in_order(dark->0, rx_limit);
    }
    if light is Some {
        health::law_doubles_in_order(light->0, rx_limit);
    }
    if cool is Some {
        health::law_doubles_in_order(heat_limit, cool->0);
    }
    if hot is Some {
        health::law_doubles_in_order(heat_limit, hot->0);
    }
    let a = only_if(
        was_locked(prev) && !was_locked(Some(curr)),
        clock_lost(slot, health::told_clock(curr)),
    );
    let b = only_if(
        prev is Some && !was_locked(prev) && was_locked(Some(curr)),
        clock_regained(slot),
    );
    assert(polling::ptp_events(slot, prev, curr) == a + b);
    let c = only_if(
        below(light, rx_limit) && !below(dark, rx_limit),
        too_dark(slot, light->0, rx_limit),
    );
    let d = only_if(
        light is Some && !below(light, rx_limit) && below(dark, rx_limit),
        bright_again(slot, light->0),
    );
    assert(polling::light_events(slot, prev, curr, rx_limit) == c + d);
    let e = only_if(
        above(hot, heat_limit) && !above(cool, heat_limit),
        too_hot(slot, hot->0, heat_limit),
    );
    let f = only_if(
        hot is Some && !above(hot, heat_limit) && above(cool, heat_limit),
        no_longer_hot(slot, hot->0),
    );
    assert(polling::heat_events(slot, prev, curr, heat_limit) == e + f);
    assert(polling::card_events(slot, prev, curr, rx_limit, heat_limit) == a + b + c + d + e + f);
}

/// A number with its sign.
pub open spec fn with_sign(i: i64) -> Seq<char> {
    if i >= 0 {
        text::decimal(i as nat)
    } else {
        "-"@ + text::decimal((0 - i) as nat)
    }
}

/// A whole number.
pub open spec fn whole(i: i64) -> JsonView {
    JsonView::Number(
        Number {
            exact: if i >= 0 {
                Exact::Unsigned(i as u64)
            } else {
                Exact::Negative(i)
            },
            reading: None,
        },
    )
}

/// A unit that can no longer be reached gives a critical event with the number of failures and the last
/// error, one that can be reached again an informational event with the time that it was away, and
/// nothing else gives an event.
pub proof fn law_transition_events(o: OutcomeView, address: Seq<char>)
    ensures
        match o {
            OutcomeView::NoChange => polling::transition_events(o, address).len() == 0,
            OutcomeView::BecameUnreachable { consecutive_failures, last_error_code } => {
                let e = polling::transition_events(o, address)[0];
                &&& polling::transition_events(o, address).len() == 1
                &&& e.severity == EventSeverity::Critical
                &&& e.category == "target_reachability"@
                &&& e.message == seq![
                    PartView::Text("Target Appear X at "@ + address + " unreachable"@),
                ]
                &&& e.error_code is None
                &&& values::under(e.details, "error_code"@) == Some(
                    JsonView::Text("target_unreachable"@),
                )
                &&& values::under(e.details, "consecutive_failures"@) == Some(
                    values::number(consecutive_failures as nat),
                )
                &&& values::under(e.details, "target_address"@) == Some(JsonView::Text(address))
                &&& values::under(e.details, "last_error_code"@) == values::maybe_text(
                    last_error_code,
                )
                &&& forall|key: Seq<char>| #[trigger]
                    values::under(e.details, key) is Some ==> key == "error_code"@ || key
                        == "consecutive_failures"@ || key == "target_address"@ || key
                        == "last_error_code"@
            },
            OutcomeView::Recovered { downtime_secs } => {
                let e = polling::transition_events(o, address)[0];
                &&& polling::transition_events(o, address).len() == 1
                &&& e.severity == EventSeverity::Info
                &&& e.category == "target_reachability"@
                &&& e.message == seq![
                    PartView::Text(
                        "Target Appear X at "@ + address + " reachable again (downtime "@
                            + with_sign(downtime_secs) + " s)"@,
                    ),
                ]
                &&& e.error_code is None
                &&& values::under(e.details, "error_code"@) == Some(
                    JsonView::Text("target_recovered"@),
                )
                &&& values::under(e.details, "downtime_secs"@) == Some(whole(downtime_secs))
                &&& values::under(e.details, "target_address"@) == Some(JsonView::Text(address))
                &&& forall|key: Seq<char>| #[trigger]
                    values::under(e.details, key) is Some ==> key == "error_code"@ || key
                        == "downtime_secs"@ || key == "target_address"@
            },
        },
{
    lemma_names();
}

/// A poll that failed gives the event that the unit cannot be reached exactly if it is, with this poll,
/// unreachable, has been for the dwell time, and no such event was sent since it became unreachable.
pub proof fn law_when_unreachable(s: ReachView, code: Seq<char>, counted_at: i64, decided_at: i64)
    requires
        s.valid(),
        s.consecutive_failures < u32::MAX,
    ensures
        s.failure_outcome(code, counted_at, decided_at) == (if (if s.reachable {
            s.consecutive_failures + 1 >= s.failure_threshold && counted_at != 0 && decided_at
                - counted_at >= s.event_dwell_secs
        } else {
            !s.fired && s.last_state_flip_unix != 0 && decided_at - s.last_state_flip_unix
                >= s.event_dwell_secs
        }) {
            OutcomeView::BecameUnreachable {
                consecutive_failures: (s.consecutive_failures + 1) as u32,
                last_error_code: Some(code),
            }
        } else {
            OutcomeView::NoChange
        }),
        ({
            let t = s.after_failure(code, counted_at, decided_at);
            &&& t.consecutive_failures == s.consecutive_failures + 1
            &&& t.last_error_code == Some(code)
            &&& t.last_success_unix == s.last_success_unix
            &&& t.failure_threshold == s.failure_threshold
            &&& t.event_dwell_secs == s.event_dwell_secs
            &&& t.reachable == (s.consecutive_failures + 1 < s.failure_threshold)
            &&& t.unreachable_since_unix == (if s.reachable && !t.reachable {
                counted_at
            } else {
                s.unreachable_since_unix
            })
            &&& t.last_state_flip_unix == (if s.reachable && !t.reachable {
                counted_at
            } else {
                s.last_state_flip_unix
            })
            &&& !t.reachable && !t.fired ==> s.failure_outcome(
                code,
                counted_at,
                decided_at,
            ) is NoChange
        }),
{
}

/// A poll that succeeds is noted with its time, and leaves the unit reachable without failures. Where the
/// unit had been away for the dwell time, that is told with the time since it went away.
pub proof fn law_success_is_noted(s: ReachView, now: i64)
    ensures
        s.reachable || now - s.last_state_flip_unix < s.event_dwell_secs ==> s.success_outcome(
            now,
        ) is NoChange,
        !s.reachable && now - s.last_state_flip_unix >= s.event_dwell_secs ==> s.success_outcome(
            now,
        ) == (OutcomeView::Recovered {
            downtime_secs: if s.unreachable_since_unix > 0 {
                (now - s.unreachable_since_unix) as i64
            } else {
                0
            },
        }),
        ({
            let t = s.after_success(now);
            &&& t.reachable
            &&& t.consecutive_failures == 0
            &&& t.last_success_unix == now
            &&& t.last_error_code is None
            &&& t.failure_threshold == s.failure_threshold
            &&& t.event_dwell_secs == s.event_dwell_secs
            &&& s.reachable ==> t.last_state_flip_unix == s.last_state_flip_unix
            &&& !s.reachable ==> t.last_state_flip_unix == now && t.unreachable_since_unix == 0
                && t.fired
        }),
{
}

/// The time that a unit was away is that from the poll that made it unreachable to the one that reached
/// it, whatever failed in between.
pub proof fn law_downtime(
    s: ReachView,
    code: Seq<char>,
    counted_at: i64,
    decided_at: i64,
    code2: Seq<char>,
    counted_at2: i64,
    decided_at2: i64,
    now: i64,
)
    requires
        s.valid(),
        s.reachable,
        s.consecutive_failures < u32::MAX - 1,
        s.consecutive_failures + 1 >= s.failure_threshold,
        0 < counted_at,
        0 <= now,
        now - counted_at >= s.event_dwell_secs,
    ensures
        s.after_failure(code, counted_at, decided_at).success_outcome(now)
            == (OutcomeView::Recovered { downtime_secs: (now - counted_at) as i64 }),
        s.after_failure(code, counted_at, decided_at).after_failure(
            code2,
            counted_at2,
            decided_at2,
        ).success_outcome(now) == (OutcomeView::Recovered {
            downtime_secs: (now - counted_at) as i64,
        }),
{
}

/// At first a unit counts as reachable, without a poll. At least one failure makes it unreachable.
pub proof fn law_reachable_at_first(threshold: u32, dwell: u64)
    ensures
        ({
            let s = ReachView::fresh(threshold, dwell);
            &&& s.reachable
            &&& s.fired
            &&& s.consecutive_failures == 0
            &&& s.last_success_unix == 0
            &&& s.unreachable_since_unix == 0
            &&& s.last_state_flip_unix == 0
            &&& s.last_error_code is None
            &&& threshold == 0 ==> s.failure_threshold == 1
            &&& threshold > 0 ==> s.failure_threshold == threshold
            &&& dwell <= i64::MAX ==> s.event_dwell_secs == dwell
        }),
{
}

/// Whether a description tells one of some words.
pub open spec fn tells(msg: Seq<char>, words: Seq<Seq<char>>) -> bool {
    exists|i: int| 0 <= i < words.len() && text::occurs(msg, #[trigger] words[i])
}

/// The code of an error is that of the first kind of which its description, in lower case, has a word.
pub proof fn law_error_codes(description: Seq<char>)
    ensures
        ({
            let msg = text::lowercased(description);
            let code = reachability::error_class(description);
            let late = tells(msg, seq!["timed out"@, "timeout"@]);
            let refused = tells(msg, seq!["connection refused"@, "refused"@]);
            let tls = tells(msg, seq!["tls"@, "certificate"@, "handshake"@]);
            let auth = tells(msg, seq!["401"@, "403"@, "auth"@, "login"@]);
            let rpc = tells(msg, seq!["json"@, "rpc"@, "parse"@]);
            &&& late ==> code == "http_timeout"@
            &&& !late && refused ==> code == "tcp_refused"@
            &&& !late && !refused && tls ==> code == "tls_handshake"@
            &&& !late && !refused && !tls && auth ==> code == "auth_rejected"@
            &&& !late && !refused && !tls && !auth && rpc ==> code == "rpc_protocol_error"@
            &&& !late && !refused && !tls && !auth && !rpc ==> code == "other"@
        }),
{
    let msg = text::lowercased(description);
    let late = seq!["timed out"@, "timeout"@];
    assert(late[0] == "timed out"@ && late[1] == "timeout"@);
    let refused = seq!["connection refused"@, "refused"@];
    assert(refused[0] == "connection refused"@ && refused[1] == "refused"@);
    let tls = seq!["tls"@, "certificate"@, "handshake"@];
    assert(tls[0] == "tls"@ && tls[1] == "certificate"@ && tls[2] == "handshake"@);
    let auth = seq!["401"@, "403"@, "auth"@, "login"@];
    assert(auth[0] == "401"@ && auth[1] == "403"@ && auth[2] == "auth"@ && auth[3] == "login"@);
    let rpc = seq!["json"@, "rpc"@, "parse"@];
    assert(rpc[0] == "json"@ && rpc[1] == "rpc"@ && rpc[2] == "parse"@);
}

/// The name of the gateway's host is the first of the three that has more than white space, without the
/// white space around it.
pub proof fn law_host_name(
    kernel: Option<Seq<char>>,
    name_file: Option<Seq<char>>,
    environment: Option<Seq<char>>,
)
    ensures
        ({
            let named = |o: Option<Seq<char>>| o is Some && text::trimmed(o->0).len() > 0;
            let found = reachability::first_name(kernel, name_file, environment);
            &&& named(kernel) ==> found == Some(text::trimmed(kernel->0))
            &&& !named(kernel) && named(name_file) ==> found == Some(text::trimmed(name_file->0))
            &&& !named(kernel) && !named(name_file) && named(environment) ==> found == Some(
                text::trimmed(environment->0),
            )
            &&& !named(kernel) && !named(name_file) && !named(environment) ==> found is None
        }),
{
}

/// What the heartbeat tells of the unit: whether it can be reached and since how many failures not, when
/// it last was, and how the last poll failed. What is not known is absent.
pub proof fn law_target(
    s: ReachView,
    address: Seq<char>,
    host: Option<Seq<char>>,
    egress_ip: Option<Seq<char>>,
)
    ensures
        ({
            let told = Some(
                polling::target_json(polling::target_health(s, address, host, egress_ip)),
            );
            &&& values::under(told, "reachable"@) == Some(JsonView::Bool(s.reachable))
            &&& values::under(told, "target_address"@) == Some(JsonView::Text(address))
            &&& values::under(told, "gateway_host"@) == values::maybe_text(host)
            &&& values::under(told, "gateway_egress_ip"@) == values::maybe_text(egress_ip)
            &&& values::under(told, "last_successful_poll_unix"@) == (if s.last_success_unix == 0 {
                None
            } else {
                Some(whole(s.last_success_unix))
            })
            &&& values::under(told, "last_error_code"@) == values::maybe_text(s.last_error_code)
            &&& values::under(told, "consecutive_failures"@) == Some(
                values::number(s.consecutive_failures as nat),
            )
            &&& forall|key: Seq<char>| #[trigger]
                values::under(told, key) is Some ==> key == "reachable"@ || key
                    == "target_address"@ || key == "gateway_host"@ || key == "gateway_egress_ip"@
                    || key == "last_successful_poll_unix"@ || key == "last_error_code"@ || key
                    == "consecutive_failures"@
        }),
{
    lemma_names();
}

/// What the heartbeat tells while the unit was not discovered: that it cannot be reached, how often that
/// was tried and how it last failed.
pub proof fn law_undiscovered_target(
    phase: PhaseView,
    code: Seq<char>,
    address: Seq<char>,
    host: Option<Seq<char>>,
    egress_ip: Option<Seq<char>>,
)
    ensures
        PhaseView::fresh().pending == Some((0u32, "tcp_refused"@)),
        phase.failed(code).pending matches Some(p) && p.1 == code && p.0 == match phase.pending {
            Some(q) => if q.0 < 0xffff_ffff {
                q.0 + 1
            } else {
                0xffff_ffff
            },
            None => 1,
        },
        phase.failed(code).pending matches Some(p) ==> {
            let told = Some(
                polling::target_json(
                    startup::undiscovered_target(p.0, p.1, address, host, egress_ip),
                ),
            );
            &&& values::under(told, "reachable"@) == Some(JsonView::Bool(false))
            &&& values::under(told, "target_address"@) == Some(JsonView::Text(address))
            &&& values::under(told, "gateway_host"@) == values::maybe_text(host)
            &&& values::under(told, "gateway_egress_ip"@) == values::maybe_text(egress_ip)
            &&& values::under(told, "last_successful_poll_unix"@) is None
            &&& values::under(told, "last_error_code"@) == Some(JsonView::Text(code))
            &&& values::under(told, "consecutive_failures"@) == Some(values::number(p.0 as nat))
        },
        startup::RETRY_SECS == 5,
        startup::HEARTBEAT_SECS == 10,
{
    lemma_names();
}

/// What the heartbeat tells of the gateway.
pub proof fn law_health_payload(
    status: Seq<char>,
    alarms: JsonView,
    version: Seq<char>,
    capabilities: Seq<Seq<char>>,
)
    ensures
        ({
            let told = Some(polling::health_payload(status, alarms, version, capabilities));
            &&& values::under(told, "status"@) == Some(JsonView::Text(status))
            &&& values::under(told, "alarms"@) == Some(alarms)
            &&& values::under(told, "version"@) == Some(JsonView::Text(version))
            &&& values::under(told, "capabilities"@) == Some(
                JsonView::Array(Seq::new(capabilities.len(), |i: int| JsonView::Text(capabilities[i]))),
            )
            &&& forall|key: Seq<char>| #[trigger]
                values::under(told, key) is Some ==> key == "status"@ || key == "alarms"@ || key
                    == "version"@ || key == "capabilities"@
        }),
{
    lemma_names();
    assert(state::texts_json(capabilities)->Array_0 == Seq::new(
        capabilities.len(),
        |i: int| JsonView::Text(capabilities[i]),
    ));
}

/// What an event is sent as.
pub proof fn law_event_payload(e: EventView, message: Seq<char>)
    ensures
        ({
            let told = Some(e.payload(message));
            &&& values::under(told, "severity"@) == Some(
                JsonView::Text(
                    match e.severity {
                        EventSeverity::Info => "info"@,
                        EventSeverity::Minor => "minor"@,
                        EventSeverity::Major => "major"@,
                        EventSeverity::Critical => "critical"@,
                    },
                ),
            )
            &&& values::under(told, "category"@) == Some(JsonView::Text(e.category))
            &&& values::under(told, "message"@) == Some(JsonView::Text(message))
            &&& values::under(told, "error_code"@) == values::maybe_text(e.error_code)
            &&& values::under(told, "details"@) == e.details
            &&& forall|key: Seq<char>| #[trigger]
                values::under(told, key) is Some ==> key == "severity"@ || key == "category"@ || key
                    == "message"@ || key == "error_code"@ || key == "details"@
        }),
{
    lemma_names();
}

} // verus!
