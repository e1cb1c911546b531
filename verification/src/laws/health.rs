//! What is reported of the health of the cards.

use vstd::prelude::*;

use crate::appear_x::health::{self, Rollup, SlotSignals};
use crate::double::Double;
use crate::json::{JsonView, Reading};
use crate::laws::values;
use crate::slots;
use crate::text;

verus! {

/// Tells the members apart by their length and some of their letters.
spec fn mark(name: Seq<char>) -> int {
    (name.len() as int) * 256 + values::letter(name, 0)
}

proof fn lemma_names()
    ensures
        mark("by_slot"@) == 1890,
        mark("global"@) == 1639,
        mark("ptp_locked"@) == 2672,
        mark("ptp_state"@) == 2416,
        mark("nmos_registered"@) == 3950,
        mark("qsfp_rx_power_dbm_min"@) == 5489,
        mark("qsfp_temp_c_max"@) == 3953,
        mark("qsfp_ports"@) == 2673,
        mark("port"@) == 1136,
        mark("vendor"@) == 1654,
        mark("part_number"@) == 2928,
        mark("serial"@) == 1651,
        mark("temp_c"@) == 1652,
        mark("vcc_v"@) == 1398,
        mark("rx_power_mw"@) == 2930,
        mark("tx_power_mw"@) == 2932,
{
    assert(mark("by_slot"@) == 1890) by {
        reveal_strlit("by_slot");
    }
    assert(mark("global"@) == 1639) by {
        reveal_strlit("global");
    }
    assert(mark("ptp_locked"@) == 2672) by {
        reveal_strlit("ptp_locked");
    }
    assert(mark("ptp_state"@) == 2416) by {
        reveal_strlit("ptp_state");
    }
    assert(mark("nmos_registered"@) == 3950) by {
        reveal_strlit("nmos_registered");
    }
    assert(mark("qsfp_rx_power_dbm_min"@) == 5489) by {
        reveal_strlit("qsfp_rx_power_dbm_min");
    }
    assert(mark("qsfp_temp_c_max"@) == 3953) by {
        reveal_strlit("qsfp_temp_c_max");
    }
    assert(mark("qsfp_ports"@) == 2673) by {
        reveal_strlit("qsfp_ports");
    }
    assert(mark("port"@) == 1136) by {
        reveal_strlit("port");
    }
    assert(mark("vendor"@) == 1654) by {
        reveal_strlit("vendor");
    }
    assert(mark("part_number"@) == 2928) by {
        reveal_strlit("part_number");
    }
    assert(mark("serial"@) == 1651) by {
        reveal_strlit("serial");
    }
    assert(mark("temp_c"@) == 1652) by {
        reveal_strlit("temp_c");
    }
    assert(mark("vcc_v"@) == 1398) by {
        reveal_strlit("vcc_v");
    }
    assert(mark("rx_power_mw"@) == 2930) by {
        reveal_strlit("rx_power_mw");
    }
    assert(mark("tx_power_mw"@) == 2932) by {
        reveal_strlit("tx_power_mw");
    }
}

/// The place of a number in the order: both zeros have the same.
pub open spec fn place(d: Double) -> int {
    if d.bits >= 0x8000_0000_0000_0000 {
        0x8000_0000_0000_0000 - d.bits
    } else {
        d.bits as int
    }
}

/// Whether the bits stand for a number.
pub open spec fn is_number(d: Double) -> bool {
    -0x7ff0_0000_0000_0000 <= place(d) <= 0x7ff0_0000_0000_0000
}

/// Whether one number is less than another.
pub open spec fn less(a: Double, b: Double) -> bool {
    is_number(a) && is_number(b) && place(a) < place(b)
}

/// Doubles are in the order of their places; of two the lower is one of them with nothing below it,
/// and so is the higher with nothing above it.
pub proof fn law_doubles_in_order(a: Double, b: Double)
    ensures
        a.below(b) == less(a, b),
        a.nan() == !is_number(a),
        a.positive() == (0 < place(a) <= 0x7ff0_0000_0000_0000),
        a.finite() == (-0x7ff0_0000_0000_0000 < place(a) < 0x7ff0_0000_0000_0000),
        a.lower(b) == a || a.lower(b) == b,
        !less(a, a.lower(b)),
        !less(b, a.lower(b)),
        !is_number(a.lower(b)) ==> !is_number(a) && !is_number(b),
        a.higher(b) == a || a.higher(b) == b,
        !less(a.higher(b), a),
        !less(a.higher(b), b),
        !is_number(a.higher(b)) ==> !is_number(a) && !is_number(b),
{
}

/// What a card tells of the state of its clock.
pub open spec fn told_clock(status: JsonView) -> Option<Seq<char>> {
    let lock = values::under(Some(status), "ptpLock"@);
    if lock == Some(JsonView::Object(Map::empty())) {
        None
    } else if values::under(lock, "state"@) is Some {
        values::text_in(values::under(lock, "state"@))
    } else {
        values::text_in(values::under(values::under(lock, "value"@), "state"@))
    }
}

/// Whether a state reads `LOCKED` in letters of either case.
pub open spec fn reads_locked(s: Seq<char>) -> bool {
    &&& s.len() == 6
    &&& s[0] == 'L' || s[0] == 'l'
    &&& s[1] == 'O' || s[1] == 'o'
    &&& s[2] == 'C' || s[2] == 'c'
    &&& s[3] == 'K' || s[3] == 'k'
    &&& s[4] == 'E' || s[4] == 'e'
    &&& s[5] == 'D' || s[5] == 'd'
}

/// Whether the clock is locked, where the card tells its state.
pub open spec fn told_locked(status: JsonView) -> Option<bool> {
    match told_clock(status) {
        Some(s) => Some(reads_locked(s)),
        None => None,
    }
}

/// Whether the registry is connected, where the card tells of it.
pub open spec fn told_registered(status: JsonView) -> Option<bool> {
    let nmos = values::under(Some(status), "nmosStatus"@);
    if nmos is None {
        None
    } else {
        Some(
            values::under(nmos, "connected"@) == Some(JsonView::Bool(true)) || values::under(
                values::under(nmos, "value"@),
                "connected"@,
            ) == Some(JsonView::Bool(true)),
        )
    }
}

/// The ports of a card: the wide ones, then the others.
pub open spec fn ports(status: JsonView) -> Seq<JsonView> {
    values::elements(values::under(values::under(Some(status), "qsfpStatus"@), "value"@))
        + values::elements(values::under(values::under(Some(status), "sfpStatus"@), "value"@))
}

/// What a port tells of itself.
pub open spec fn told_by(port: JsonView) -> Option<JsonView> {
    values::under(Some(port), "value"@)
}

/// The measurements of a port.
pub open spec fn measurements(port: JsonView) -> Option<JsonView> {
    values::under(values::under(told_by(port), "diagnostics"@), "value"@)
}

/// Whether a reading is of light of the given power.
pub open spec fn shines(o: Option<Reading>, d: Double) -> bool {
    match o {
        Some(r) => 0 < place(r.value) <= 0x7ff0_0000_0000_0000 && r.dbm == d,
        None => false,
    }
}

/// Whether one of the lanes receives light of the given power.
pub open spec fn lane_at(lanes: Seq<JsonView>, d: Double) -> bool {
    exists|j: int| 0 <= j < lanes.len() && shines(values::measured(Some(#[trigger] lanes[j])), d)
}

/// Whether a port of a card receives light of the given power.
pub open spec fn receives(status: JsonView, d: Double) -> bool {
    exists|i: int|
        0 <= i < ports(status).len() && lane_at(
            values::elements(values::under(measurements(#[trigger] ports(status)[i]), "rxPwr"@)),
            d,
        )
}

/// Whether a port has the given temperature.
pub open spec fn warm(port: JsonView, d: Double) -> bool {
    match values::measured(values::under(measurements(port), "temp"@)) {
        Some(r) => r.value == d,
        None => false,
    }
}

/// Whether a port of a card has the given temperature.
pub open spec fn heats(status: JsonView, d: Double) -> bool {
    exists|i: int| 0 <= i < ports(status).len() && warm(#[trigger] ports(status)[i], d)
}

/// Whether a value is the least of those that were found, or none was.
pub open spec fn least(v: Option<Double>, found: spec_fn(Double) -> bool) -> bool {
    match v {
        None => forall|d: Double| !#[trigger] found(d),
        Some(w) => found(w) && forall|d: Double| #[trigger] found(d) ==> !less(d, w),
    }
}

/// Whether a value is the greatest of those that were found, or none was.
pub open spec fn greatest(v: Option<Double>, found: spec_fn(Double) -> bool) -> bool {
    match v {
        None => forall|d: Double| !#[trigger] found(d),
        Some(w) => found(w) && forall|d: Double| #[trigger] found(d) ==> !less(w, d),
    }
}

/// Whether a member tells the least of what was found, and is absent where nothing was.
pub open spec fn tells_least(member: Option<JsonView>, found: spec_fn(Double) -> bool) -> bool {
    exists|v: Option<Double>| #[trigger]
        least(v, found) && member == values::maybe_written(v)
}

/// Whether a member tells the greatest of what was found, and is absent where nothing was.
pub open spec fn tells_greatest(member: Option<JsonView>, found: spec_fn(Double) -> bool) -> bool {
    exists|v: Option<Double>| #[trigger]
        greatest(v, found) && member == values::maybe_written(v)
}

/// The received numbers of a list, in their order.
pub open spec fn all_measured(values: Seq<JsonView>) -> Seq<Reading> {
    values.filter(|v: JsonView| values::measured(Some(v)) is Some).map_values(
        |v: JsonView| values::measured(Some(v))->0,
    )
}

/// What a list of received numbers is reported as; nothing where it is no list.
pub open spec fn powers(o: Option<JsonView>) -> Option<JsonView> {
    match o {
        Some(JsonView::Array(a)) => Some(
            JsonView::Array(all_measured(a).map_values(|r: Reading| values::written(r.value))),
        ),
        _ => None,
    }
}

/// What a received number is reported as.
pub open spec fn one_measured(o: Option<JsonView>) -> Option<JsonView> {
    match values::measured(o) {
        Some(r) => Some(values::written(r.value)),
        None => None,
    }
}

/// What a text is reported as: without the white space around it.
pub open spec fn clean(o: Option<JsonView>) -> Option<JsonView> {
    match values::text_in(o) {
        Some(s) => Some(JsonView::Text(text::trimmed(s))),
        None => None,
    }
}

/// Whether a report on a port tells what the port tells, and no more.
pub open spec fn tells_port(report: JsonView, port: JsonView) -> bool {
    let r = Some(report);
    let told = told_by(port);
    let diag = measurements(port);
    &&& report is Object
    &&& values::under(r, "port"@) == Some(
        JsonView::Text(values::text_or(values::under(Some(port), "key"@), Seq::empty())),
    )
    &&& values::under(r, "vendor"@) == clean(values::under(told, "vendorName"@))
    &&& values::under(r, "part_number"@) == clean(values::under(told, "vendorPN"@))
    &&& values::under(r, "serial"@) == clean(values::under(told, "vendorSN"@))
    &&& values::under(r, "temp_c"@) == one_measured(values::under(diag, "temp"@))
    &&& values::under(r, "vcc_v"@) == one_measured(values::under(diag, "vcc"@))
    &&& values::under(r, "rx_power_mw"@) == powers(values::under(diag, "rxPwr"@))
    &&& values::under(r, "tx_power_mw"@) == powers(values::under(diag, "txPwr"@))
    &&& forall|key: Seq<char>| #[trigger] values::under(r, key) is Some ==> key == "port"@ || key == "vendor"@
        || key == "part_number"@ || key == "serial"@ || key == "temp_c"@ || key == "vcc_v"@ || key
        == "rx_power_mw"@ || key == "tx_power_mw"@
}

/// Whether a member lists what the ports tell, and is absent where there is no port.
pub open spec fn tells_ports(member: Option<JsonView>, all: Seq<JsonView>) -> bool {
    if all.len() == 0 {
        member is None
    } else {
        &&& member matches Some(JsonView::Array(a))
        &&& a.len() == all.len()
        &&& forall|i: int| 0 <= i < a.len() ==> tells_port(#[trigger] a[i], all[i])
    }
}

/// What is reported of the card in a slot.
pub open spec fn card_report(m: Map<u32, JsonView>, slot: u32) -> Option<JsonView> {
    values::under(
        values::under(Some(health::health_signals(m)), "by_slot"@),
        text::decimal(slot as nat),
    )
}

/// What is reported of the whole unit.
pub open spec fn unit_report(m: Map<u32, JsonView>, key: Seq<char>) -> Option<JsonView> {
    values::under(values::under(Some(health::health_signals(m)), "global"@), key)
}

proof fn lemma_measured(all: Seq<JsonView>)
    ensures
        health::readings_among(all) == all_measured(all),
    decreases all.len(),
{
    reveal(Seq::filter);
    let p = |v: JsonView| values::measured(Some(v)) is Some;
    if all.len() > 0 {
        lemma_measured(all.drop_last());
        let before = all.drop_last().filter(p);
        if p(all.last()) {
            assert(all.filter(p) == before.push(all.last()));
            assert(all_measured(all) == all_measured(all.drop_last()).push(
                values::measured(Some(all.last()))->0,
            ));
        } else {
            assert(all.filter(p) == before);
        }
    }
    assert(health::readings_among(all) == all_measured(all));
}

proof fn lemma_lanes(lanes: Seq<JsonView>, d: Double)
    ensures
        health::is_lit(health::readings_among(lanes), d) == lane_at(lanes, d),
    decreases lanes.len(),
{
    let all = health::readings_among(lanes);
    if lanes.len() == 0 {
        assert(!health::is_lit(all, d));
    } else {
        let fewer = lanes.drop_last();
        let some = health::readings_among(fewer);
        lemma_lanes(fewer, d);
        let last = values::measured(Some(lanes.last()));
        assert(last == lanes.last().reading());
        assert(lanes[lanes.len() - 1] == lanes.last());
        if last is Some {
            law_doubles_in_order(last->0.value, d);
            assert(all == some.push(last->0));
        }
        if lane_at(lanes, d) {
            let j = choose|j: int|
                0 <= j < lanes.len() && shines(values::measured(Some(#[trigger] lanes[j])), d);
            if j < fewer.len() {
                assert(fewer[j] == lanes[j]);
                assert(health::is_lit(some, d));
                let k = choose|k: int|
                    0 <= k < some.len() && (#[trigger] some[k]).value.positive() && some[k].dbm == d;
                assert(all[k] == some[k]);
            } else {
                assert(all[some.len() as int] == last->0);
            }
            assert(health::is_lit(all, d));
        }
        if health::is_lit(all, d) {
            let k = choose|k: int|
                0 <= k < all.len() && (#[trigger] all[k]).value.positive() && all[k].dbm == d;
            if k < some.len() {
                assert(some[k] == all[k]);
                assert(lane_at(fewer, d));
                let j = choose|j: int|
                    0 <= j < fewer.len() && shines(values::measured(Some(#[trigger] fewer[j])), d);
                assert(lanes[j] == fewer[j]);
            }
            assert(lane_at(lanes, d));
        }
    }
}

proof fn lemma_ports(status: JsonView)
    ensures
        health::port_entries(status) == ports(status),
        least(
            health::worst_light(health::port_entries(status)),
            |d: Double| receives(status, d),
        ),
        health::worst_light(health::port_entries(status)) matches Some(v) ==> !is_number(v)
            ==> forall|d: Double| #[trigger] receives(status, d) ==> !is_number(d),
        forall|d: Double| #[trigger]
            receives(status, d) ==> match health::worst_light(health::port_entries(status)) {
                Some(v) => !less(d, v),
                None => false,
            },
        greatest(health::worst_heat(health::port_entries(status)), |d: Double| heats(status, d)),
        forall|d: Double| #[trigger]
            heats(status, d) ==> match health::worst_heat(health::port_entries(status)) {
                Some(v) => !less(v, d),
                None => false,
            },
        health::worst_heat(health::port_entries(status)) matches Some(v) ==> !is_number(v)
            ==> forall|d: Double| #[trigger] heats(status, d) ==> !is_number(d),
{
    let all = health::port_entries(status);
    values::lemma_under(Some(status), "qsfpStatus"@);
    values::lemma_under(Some(status), "sfpStatus"@);
    assert(all == ports(status));
    health::law_worst_port(all);
    let lit = |d: Double| health::some_lane_reads(all, d);
    let hot = |d: Double| health::some_port_is_at(all, d);
    let light = health::worst_light(all);
    let heat = health::worst_heat(all);
    assert forall|d: Double| #[trigger] lit(d) == receives(status, d) by {
        assert forall|i: int| 0 <= i < all.len() implies health::lane_reads(#[trigger] all[i], d)
            == lane_at(values::elements(values::under(measurements(all[i]), "rxPwr"@)), d) by {
            lemma_lanes(values::elements(values::under(measurements(all[i]), "rxPwr"@)), d);
        }
    }
    assert forall|d: Double| #[trigger] hot(d) == heats(status, d) by {
        assert forall|i: int| 0 <= i < all.len() implies health::port_is_at(#[trigger] all[i], d)
            == warm(all[i], d) by {}
    }
    if light is Some {
        assert(receives(status, light->0)) by {
            assert(lit(light->0));
        }
        law_doubles_in_order(light->0, light->0);
        assert forall|d: Double| #[trigger] receives(status, d) implies !less(d, light->0) && (
        !is_number(light->0) ==> !is_number(d)) by {
            assert(lit(d));
            law_doubles_in_order(d, light->0);
        }
    } else {
        assert forall|d: Double| !#[trigger] receives(status, d) by {
            assert(!lit(d));
        }
    }
    if heat is Some {
        assert(heats(status, heat->0)) by {
            assert(hot(heat->0));
        }
        law_doubles_in_order(heat->0, heat->0);
        assert forall|d: Double| #[trigger] heats(status, d) implies !less(heat->0, d) && (
        !is_number(heat->0) ==> !is_number(d)) by {
            assert(hot(d));
            law_doubles_in_order(heat->0, d);
            law_doubles_in_order(d, heat->0);
        }
    } else {
        assert forall|d: Double| !#[trigger] heats(status, d) by {
            assert(!hot(d));
        }
    }
}

proof fn lemma_locked(s: Seq<char>)
    ensures
        health::same_but_case(s, "LOCKED"@) == reads_locked(s),
{
    reveal_strlit("LOCKED");
    let a = text::ascii_lowered(s);
    let b = text::ascii_lowered("LOCKED"@);
    assert(b.len() == 6);
    assert(b[0] == 'l' && b[1] == 'o' && b[2] == 'c' && b[3] == 'k' && b[4] == 'e' && b[5] == 'd');
    if a == b {
        assert(a[0] == b[0] && a[1] == b[1] && a[2] == b[2] && a[3] == b[3] && a[4] == b[4] && a[5]
            == b[5]);
        assert(reads_locked(s));
    }
    if reads_locked(s) {
        assert(a == b);
    }
}

/// Whether two characters are the same letter of the Latin alphabet, or the same character.
pub open spec fn same_letter(a: char, b: char) -> bool {
    ||| a == b
    ||| 'A' <= a <= 'Z' && b as int == a as int + 32
    ||| 'A' <= b <= 'Z' && a as int == b as int + 32
}

/// Two texts are the same but for the case exactly if they have the same letters at the same places.
pub proof fn law_same_but_case(a: Seq<char>, b: Seq<char>)
    ensures
        health::same_but_case(a, b) <==> a.len() == b.len() && forall|i: int|
            0 <= i < a.len() ==> same_letter(#[trigger] a[i], b[i]),
{
    let x = text::ascii_lowered(a);
    let y = text::ascii_lowered(b);
    if x == y {
        assert(x.len() == y.len());
        assert forall|i: int| 0 <= i < a.len() implies same_letter(#[trigger] a[i], b[i]) by {
            assert(x[i] == y[i]);
        }
    }
    if a.len() == b.len() && forall|i: int|
        0 <= i < a.len() ==> same_letter(#[trigger] a[i], b[i]) {
        assert forall|i: int| 0 <= i < x.len() implies x[i] == y[i] by {
            assert(same_letter(a[i], b[i]));
        }
        assert(x == y);
    }
}

proof fn lemma_told(status: JsonView)
    ensures
        health::signals_of(status).ptp_state == told_clock(status),
        health::signals_of(status).ptp_locked == told_locked(status),
        health::signals_of(status).nmos == told_registered(status),
{
    if told_clock(status) is Some {
        lemma_locked(told_clock(status)->0);
    }
}

/// What a card tells is what is made out of its state.
pub proof fn lemma_signals(status: JsonView)
    ensures
        health::ptp_state(status) == told_clock(status),
        least(
            health::worst_light(health::port_entries(status)),
            |d: Double| receives(status, d),
        ),
        greatest(health::worst_heat(health::port_entries(status)), |d: Double| heats(status, d)),
{
    lemma_told(status);
    lemma_ports(status);
}

/// The readings of a list are its received numbers.
pub proof fn lemma_readings(all: Seq<JsonView>)
    ensures
        health::readings_among(all) == all_measured(all),
{
    lemma_measured(all);
}

/// The ports of a card are those that its state lists.
pub proof fn lemma_ports_told(status: JsonView)
    ensures
        health::port_entries(status) == ports(status),
{
    lemma_ports(status);
}

proof fn lemma_port_told(port: JsonView)
    ensures
        tells_port(health::port_summary(port), port),
{
    lemma_names();
    reveal_strlit("");
    assert(""@ == Seq::<char>::empty());
    let diag = measurements(port);
    values::lemma_under(told_by(port), "diagnostics"@);
    lemma_measured(values::elements(values::under(diag, "rxPwr"@)));
    lemma_measured(values::elements(values::under(diag, "txPwr"@)));
    let rx = health::powers_json(diag, "rxPwr"@);
    let tx = health::powers_json(diag, "txPwr"@);
    if rx is Some {
        assert(rx->0->Array_0 == powers(values::under(diag, "rxPwr"@))->0->Array_0);
    }
    if tx is Some {
        assert(tx->0->Array_0 == powers(values::under(diag, "txPwr"@))->0->Array_0);
    }
    assert(rx == powers(values::under(diag, "rxPwr"@)));
    assert(tx == powers(values::under(diag, "txPwr"@)));
}

proof fn lemma_by_slot(m: Map<u32, JsonView>, n: nat)
    requires
        n <= slots::slot_limit(),
    ensures
        ({
            let r: Rollup = slots::fold_slots(m, n, health::no_signals(), health::roll_up());
            &&& forall|k: u32|
                k < n && #[trigger] m.contains_key(k) ==> r.by_slot.contains_key(
                    text::decimal(k as nat),
                ) && r.by_slot[text::decimal(k as nat)] == health::signals_of(m[k]).to_json()
            &&& forall|key: Seq<char>| #[trigger]
                r.by_slot.contains_key(key) ==> exists|k: u32|
                    k < n && #[trigger] m.contains_key(k) && key == text::decimal(k as nat)
        }),
    decreases n,
{
    if n > 0 {
        let slot = (n - 1) as u32;
        lemma_by_slot(m, (n - 1) as nat);
        let before: Rollup = slots::fold_slots(
            m,
            (n - 1) as nat,
            health::no_signals(),
            health::roll_up(),
        );
        let r: Rollup = slots::fold_slots(m, n, health::no_signals(), health::roll_up());
        assert forall|k: u32| k < n && #[trigger] m.contains_key(k) implies r.by_slot.contains_key(
            text::decimal(k as nat),
        ) && r.by_slot[text::decimal(k as nat)] == health::signals_of(m[k]).to_json() by {
            if k != slot && text::decimal(k as nat) == text::decimal(slot as nat) {
                text::lemma_decimal_injective(k as nat, slot as nat);
            }
        }
        assert forall|key: Seq<char>| #[trigger] r.by_slot.contains_key(key) implies exists|k: u32|
            k < n && #[trigger] m.contains_key(k) && key == text::decimal(k as nat) by {
            if before.by_slot.contains_key(key) {
                let k = choose|k: u32|
                    k < n - 1 && #[trigger] m.contains_key(k) && key == text::decimal(k as nat);
                assert(m.contains_key(k));
            } else {
                assert(m.contains_key(slot));
            }
        }
    }
}

/// What is reported of the card in a slot is what the card tells: whether its clock is locked and in
/// what state it is, whether its registry is connected, the least light that any of its ports receives,
/// the greatest heat of any of them, and what each port tells. What the card does not tell is absent.
pub proof fn law_card_health(m: Map<u32, JsonView>, slot: u32)
    requires
        m.contains_key(slot),
    ensures
        card_report(m, slot) matches Some(JsonView::Object(_)),
        values::under(card_report(m, slot), "ptp_locked"@) == values::maybe_bool(
            told_locked(m[slot]),
        ),
        values::under(card_report(m, slot), "ptp_state"@) == values::maybe_text(
            told_clock(m[slot]),
        ),
        values::under(card_report(m, slot), "nmos_registered"@) == values::maybe_bool(
            told_registered(m[slot]),
        ),
        tells_least(
            values::under(card_report(m, slot), "qsfp_rx_power_dbm_min"@),
            |d: Double| receives(m[slot], d),
        ),
        tells_greatest(
            values::under(card_report(m, slot), "qsfp_temp_c_max"@),
            |d: Double| heats(m[slot], d),
        ),
        tells_ports(values::under(card_report(m, slot), "qsfp_ports"@), ports(m[slot])),
        forall|key: Seq<char>| #[trigger]
            values::under(card_report(m, slot), key) is Some ==> key == "ptp_locked"@ || key
                == "ptp_state"@ || key == "nmos_registered"@ || key == "qsfp_rx_power_dbm_min"@
                || key == "qsfp_temp_c_max"@ || key == "qsfp_ports"@,
{
    lemma_names();
    lemma_by_slot(m, slots::slot_limit());
    let status = m[slot];
    let s = health::signals_of(status);
    assert(card_report(m, slot) == Some(s.to_json()));
    lemma_told(status);
    lemma_ports(status);
    assert(least(s.rx_min, |d: Double| receives(status, d)));
    assert(greatest(s.temp_max, |d: Double| heats(status, d)));
    assert(values::under(card_report(m, slot), "qsfp_rx_power_dbm_min"@) == values::maybe_written(
        s.rx_min,
    ));
    assert(values::under(card_report(m, slot), "qsfp_temp_c_max"@) == values::maybe_written(
        s.temp_max,
    ));
    assert(s.ports.len() == ports(status).len());
    assert forall|i: int| 0 <= i < s.ports.len() implies tells_port(
        #[trigger] s.ports[i],
        ports(status)[i],
    ) by {
        lemma_port_told(ports(status)[i]);
    }
}

/// Only the cards that are known of are reported.
pub proof fn law_no_other_card(m: Map<u32, JsonView>, key: Seq<char>)
    ensures
        values::under(
            values::under(Some(health::health_signals(m)), "by_slot"@),
            key,
        ) is Some ==> exists|k: u32| #[trigger]
            m.contains_key(k) && key == text::decimal(k as nat),
        values::under(Some(health::health_signals(m)), key) is Some ==> key == "by_slot"@ || key
            == "global"@,
{
    lemma_names();
    lemma_by_slot(m, slots::slot_limit());
}

/// The clocks of the unit are reported to be locked exactly if some card tells of its clock and no
/// card's report has its clock not locked, and so are the registries to be connected.
pub proof fn law_all_locked(m: Map<u32, JsonView>)
    ensures
        unit_report(m, "ptp_locked"@) == (if forall|k: u32| #[trigger]
            m.contains_key(k) ==> told_locked(m[k]) is None {
            None
        } else {
            Some(
                JsonView::Bool(
                    forall|k: u32| #[trigger]
                        m.contains_key(k) ==> values::under(card_report(m, k), "ptp_locked"@)
                            != Some(JsonView::Bool(false)),
                ),
            )
        }),
        unit_report(m, "nmos_registered"@) == (if forall|k: u32| #[trigger]
            m.contains_key(k) ==> told_registered(m[k]) is None {
            None
        } else {
            Some(
                JsonView::Bool(
                    forall|k: u32| #[trigger]
                        m.contains_key(k) ==> values::under(card_report(m, k), "nmos_registered"@)
                            != Some(JsonView::Bool(false)),
                ),
            )
        }),
        forall|key: Seq<char>| #[trigger]
            unit_report(m, key) is Some ==> key == "ptp_locked"@ || key == "nmos_registered"@ || key
                == "qsfp_rx_power_dbm_min"@ || key == "qsfp_temp_c_max"@,
{
    lemma_names();
    health::law_rollup(m);
    let ptp = |s: SlotSignals| s.ptp_locked;
    let nmos = |s: SlotSignals| s.nmos;
    assert forall|k: u32| #[trigger] m.contains_key(k) implies {
        &&& ptp(health::signals_of(m[k])) == told_locked(m[k])
        &&& nmos(health::signals_of(m[k])) == told_registered(m[k])
        &&& values::under(card_report(m, k), "ptp_locked"@) == values::maybe_bool(told_locked(m[k]))
        &&& values::under(card_report(m, k), "nmos_registered"@) == values::maybe_bool(
            told_registered(m[k]),
        )
    } by {
        lemma_told(m[k]);
        law_card_health(m, k);
    }
    let r = health::rollup_of(m);
    assert(unit_report(m, "ptp_locked"@) == values::maybe_bool(r.ptp));
    assert(unit_report(m, "nmos_registered"@) == values::maybe_bool(r.nmos));
    if r.ptp == Some(false) {
        let k = choose|k: u32|
            k < slots::slot_limit() && #[trigger] m.contains_key(k) && ptp(health::signals_of(m[k]))
                == Some(false);
        assert(m.contains_key(k) && values::under(card_report(m, k), "ptp_locked"@) == Some(
            JsonView::Bool(false),
        ));
    }
    if r.nmos == Some(false) {
        let k = choose|k: u32|
            k < slots::slot_limit() && #[trigger] m.contains_key(k) && nmos(
                health::signals_of(m[k]),
            ) == Some(false);
        assert(m.contains_key(k) && values::under(card_report(m, k), "nmos_registered"@) == Some(
            JsonView::Bool(false),
        ));
    }
}

/// Whether some card receives light of the given power.
pub open spec fn any_receives(m: Map<u32, JsonView>, d: Double) -> bool {
    exists|k: u32| #[trigger] m.contains_key(k) && receives(m[k], d)
}

/// Whether some card has a port of the given temperature.
pub open spec fn any_heats(m: Map<u32, JsonView>, d: Double) -> bool {
    exists|k: u32| #[trigger] m.contains_key(k) && heats(m[k], d)
}

/// The light reported of the unit is the least that any port of any card receives, and its heat is the
/// greatest of any.
pub proof fn law_worst_of_all(m: Map<u32, JsonView>)
    ensures
        tells_least(
            unit_report(m, "qsfp_rx_power_dbm_min"@),
            |d: Double| any_receives(m, d),
        ),
        tells_greatest(unit_report(m, "qsfp_temp_c_max"@), |d: Double| any_heats(m, d)),
{
    lemma_names();
    health::law_rollup(m);
    let rx = |s: SlotSignals| s.rx_min;
    let hot = |s: SlotSignals| s.temp_max;
    let r = health::rollup_of(m);
    let lit = |d: Double| any_receives(m, d);
    let warmth = |d: Double| any_heats(m, d);
    assert(unit_report(m, "qsfp_rx_power_dbm_min"@) == values::maybe_written(r.rx_min));
    assert(unit_report(m, "qsfp_temp_c_max"@) == values::maybe_written(r.temp_max));
    assert(least(r.rx_min, lit)) by {
        match r.rx_min {
            None => {
                assert forall|d: Double| !#[trigger] lit(d) by {
                    if any_receives(m, d) {
                        let k = choose|k: u32| #[trigger] m.contains_key(k) && receives(m[k], d);
                        assert(rx(health::signals_of(m[k])) is None);
                        lemma_ports(m[k]);
                    }
                }
            },
            Some(v) => {
                let k = choose|k: u32|
                    k < slots::slot_limit() && #[trigger] m.contains_key(k) && rx(
                        health::signals_of(m[k]),
                    ) == Some(v);
                lemma_ports(m[k]);
                assert(m.contains_key(k) && receives(m[k], v));
                assert(lit(v));
                assert forall|d: Double| #[trigger] lit(d) implies !less(d, v) by {
                    let j = choose|j: u32| #[trigger] m.contains_key(j) && receives(m[j], d);
                    lemma_ports(m[j]);
                    let w = rx(health::signals_of(m[j]));
                    assert(w is Some);
                    assert(!health::is_lower()(w->0, v));
                    law_doubles_in_order(w->0, v);
                }
            },
        }
    }
    assert(greatest(r.temp_max, warmth)) by {
        match r.temp_max {
            None => {
                assert forall|d: Double| !#[trigger] warmth(d) by {
                    if any_heats(m, d) {
                        let k = choose|k: u32| #[trigger] m.contains_key(k) && heats(m[k], d);
                        assert(hot(health::signals_of(m[k])) is None);
                        lemma_ports(m[k]);
                    }
                }
            },
            Some(v) => {
                let k = choose|k: u32|
                    k < slots::slot_limit() && #[trigger] m.contains_key(k) && hot(
                        health::signals_of(m[k]),
                    ) == Some(v);
                lemma_ports(m[k]);
                assert(m.contains_key(k) && heats(m[k], v));
                assert(warmth(v));
                assert forall|d: Double| #[trigger] warmth(d) implies !less(v, d) by {
                    let j = choose|j: u32| #[trigger] m.contains_key(j) && heats(m[j], d);
                    lemma_ports(m[j]);
                    let w = hot(health::signals_of(m[j]));
                    assert(w is Some);
                    assert(!health::is_higher()(w->0, v));
                    law_doubles_in_order(v, w->0);
                }
            },
        }
    }
}

} // verus!
