//! What the state of the cards says of the signals that matter: whether the clock is locked,
//! whether the registry is connected, how much light the optics receive and how warm they are.

use std::collections::BTreeMap;
use vstd::prelude::*;

use crate::double::Double;
use crate::json::{self, Json, JsonView, Object, Reading};
use crate::slots;
use crate::text;

verus! {

broadcast use vstd::std_specs::btree::group_btree_axioms;

/// The state of the clock that a card tells. An empty `ptpLock` tells nothing.
pub open spec fn ptp_state(status: JsonView) -> Option<Seq<char>> {
    match status.get("ptpLock"@) {
        Some(lock) => if lock.empty_object() {
            None
        } else if lock.get("state"@) is Some {
            json::text_of(lock.get("state"@))
        } else {
            json::text_of(json::member_of(lock.get("value"@), "state"@))
        },
        None => None,
    }
}

/// The state of the clock that a card tells.
pub fn ptp_state_of(status: &Json) -> (r: Option<String>)
    ensures
        json::string_view(r) == ptp_state(status@),
{
    match status.get("ptpLock") {
        Some(lock) => if lock.is_empty_object() {
            None
        } else {
            match lock.get("state") {
                Some(s) => json::string_in(Some(s)),
                None => json::string_in(json::get_in(lock.get("value"), "state")),
            }
        },
        None => None,
    }
}

/// Whether the registry is connected; nothing where the card does not tell.
pub open spec fn nmos_connected(status: JsonView) -> Option<bool> {
    match status.get("nmosStatus"@) {
        Some(nmos) => Some(
            yes(nmos.get("connected"@)) || yes(json::member_of(nmos.get("value"@), "connected"@)),
        ),
        None => None,
    }
}

/// Whether a value is there and true.
pub open spec fn yes(o: Option<JsonView>) -> bool {
    o is Some && o->0.truth() == Some(true)
}

fn is_yes(o: Option<&Json>) -> (r: bool)
    ensures
        r == yes(json::option_view(o)),
{
    match o {
        Some(j) => match j.as_bool() {
            Some(b) => b,
            None => false,
        },
        None => false,
    }
}

fn find_nmos_connected(status: &Json) -> (r: Option<bool>)
    ensures
        r == nmos_connected(status@),
{
    match status.get("nmosStatus") {
        Some(nmos) => Some(
            is_yes(nmos.get("connected")) || is_yes(json::get_in(nmos.get("value"), "connected")),
        ),
        None => None,
    }
}

/// The elements of an array that may be absent; nothing where it is.
pub open spec fn items_or_none(o: Option<JsonView>) -> Seq<JsonView> {
    match o {
        Some(j) => j.items_or_none(),
        None => Seq::empty(),
    }
}

/// The optical ports of a card, the large ones first.
pub open spec fn port_entries(status: JsonView) -> Seq<JsonView> {
    items_or_none(json::value_in(Some(status), "qsfpStatus"@)) + items_or_none(
        json::value_in(Some(status), "sfpStatus"@),
    )
}

/// The optical ports of a card, the large ones first.
pub fn list_ports(status: &Json) -> (r: Vec<&Json>)
    ensures
        r@.len() == port_entries(status@).len(),
        forall|i: int| 0 <= i < r@.len() ==> (#[trigger] r@[i])@ == port_entries(status@)[i],
{
    let mut out: Vec<&Json> = Vec::new();
    let ghost large = items_or_none(json::value_in(Some(status@), "qsfpStatus"@));
    let ghost small = items_or_none(json::value_in(Some(status@), "sfpStatus"@));
    match json::get_value_in(Some(status), "qsfpStatus") {
        Some(j) => match j.as_array() {
            Some(a) => {
                for i in 0..a.len()
                    invariant
                        out@.len() == i,
                        large == json::items_view(a@),
                        forall|k: int| 0 <= k < i ==> (#[trigger] out@[k])@ == large[k],
                {
                    out.push(&a[i]);
                }
            },
            None => {},
        },
        None => {},
    }
    match json::get_value_in(Some(status), "sfpStatus") {
        Some(j) => match j.as_array() {
            Some(a) => {
                for i in 0..a.len()
                    invariant
                        out@.len() == large.len() + i,
                        small == json::items_view(a@),
                        forall|k: int|
                            0 <= k < large.len() + i ==> (#[trigger] out@[k])@ == (large + small)[k],
                {
                    out.push(&a[i]);
                }
            },
            None => {},
        },
        None => {},
    }
    out
}

/// The diagnostics of a port.
pub open spec fn diagnostics(port: JsonView) -> Option<JsonView> {
    json::value_in(port.get("value"@), "diagnostics"@)
}

/// The diagnostics of a port.
pub fn find_diagnostics(port: &Json) -> (r: Option<&Json>)
    ensures
        json::option_view(r) == diagnostics(port@),
{
    json::get_value_in(port.get("value"), "diagnostics")
}

/// The measurement under a key of a value that may be absent.
pub open spec fn reading_in(o: Option<JsonView>, key: Seq<char>) -> Option<Reading> {
    match json::member_of(o, key) {
        Some(j) => j.reading(),
        None => None,
    }
}

/// The measurement under a key of a value that may be absent.
pub fn find_reading(o: Option<&Json>, key: &str) -> (r: Option<Reading>)
    ensures
        r == reading_in(json::option_view(o), key@),
{
    match json::get_in(o, key) {
        Some(j) => j.as_reading(),
        None => None,
    }
}

/// The measurements among some values.
pub open spec fn readings_among(values: Seq<JsonView>) -> Seq<Reading>
    decreases values.len(),
{
    if values.len() == 0 {
        Seq::empty()
    } else {
        match values.last().reading() {
            Some(r) => readings_among(values.drop_last()).push(r),
            None => readings_among(values.drop_last()),
        }
    }
}

/// The measurements among some values.
pub fn collect_readings(values: &Vec<Json>) -> (r: Vec<Reading>)
    ensures
        r@ == readings_among(json::items_view(values@)),
{
    let ghost all = json::items_view(values@);
    let mut out: Vec<Reading> = Vec::new();
    for i in 0..values.len()
        invariant
            all == json::items_view(values@),
            out@ == readings_among(all.take(i as int)),
    {
        assert(all.take(i + 1).drop_last() == all.take(i as int));
        match values[i].as_reading() {
            Some(r) => {
                out.push(r);
            },
            None => {},
        }
    }
    assert(all.take(all.len() as int) == all);
    out
}

/// The lower of two numbers of which one may be absent.
pub open spec fn lower_of(o: Option<Double>, d: Double) -> Option<Double> {
    match o {
        Some(v) => Some(v.lower(d)),
        None => Some(d),
    }
}

/// The higher of two numbers of which one may be absent.
pub open spec fn higher_of(o: Option<Double>, d: Double) -> Option<Double> {
    match o {
        Some(v) => Some(v.higher(d)),
        None => Some(d),
    }
}

/// The lower of two numbers of which one may be absent.
pub fn min_of(o: Option<Double>, d: Double) -> (r: Option<Double>)
    ensures
        r == lower_of(o, d),
{
    match o {
        Some(v) => Some(v.min(d)),
        None => Some(d),
    }
}

/// The higher of two numbers of which one may be absent.
pub fn max_of(o: Option<Double>, d: Double) -> (r: Option<Double>)
    ensures
        r == higher_of(o, d),
{
    match o {
        Some(v) => Some(v.max(d)),
        None => Some(d),
    }
}

/// The least light among measurements in milliwatts, in dBm. A measurement that is not positive
/// means that there is no optic.
pub open spec fn least_light(least: Option<Double>, powers: Seq<Reading>) -> Option<Double>
    decreases powers.len(),
{
    if powers.len() == 0 {
        least
    } else {
        let before = least_light(least, powers.drop_last());
        if powers.last().value.positive() {
            lower_of(before, powers.last().dbm)
        } else {
            before
        }
    }
}

/// The least light among measurements in milliwatts, in dBm.
pub fn find_least_light(least: Option<Double>, powers: &Vec<Reading>) -> (r: Option<Double>)
    ensures
        r == least_light(least, powers@),
{
    let mut out = least;
    for i in 0..powers.len()
        invariant
            out == least_light(least, powers@.take(i as int)),
    {
        assert(powers@.take(i + 1).drop_last() == powers@.take(i as int));
        if powers[i].value.is_positive() {
            out = min_of(out, powers[i].dbm);
        }
    }
    assert(powers@.take(powers@.len() as int) == powers@);
    out
}

/// The light that a port receives, in milliwatts.
pub open spec fn rx_powers(port: JsonView) -> Seq<Reading> {
    readings_among(items_or_none(json::member_of(diagnostics(port), "rxPwr"@)))
}

/// The least light that some ports receive, in dBm.
pub open spec fn worst_light(ports: Seq<JsonView>) -> Option<Double>
    decreases ports.len(),
{
    if ports.len() == 0 {
        None
    } else {
        least_light(worst_light(ports.drop_last()), rx_powers(ports.last()))
    }
}

/// The highest temperature of some ports.
pub open spec fn worst_heat(ports: Seq<JsonView>) -> Option<Double>
    decreases ports.len(),
{
    if ports.len() == 0 {
        None
    } else {
        let before = worst_heat(ports.drop_last());
        match reading_in(diagnostics(ports.last()), "temp"@) {
            Some(t) => higher_of(before, t.value),
            None => before,
        }
    }
}

/// The least light that a card receives, in dBm.
pub fn min_rx_dbm(status: &Json) -> (r: Option<Double>)
    ensures
        r == worst_light(port_entries(status@)),
{
    let ports = list_ports(status);
    let ghost all = port_entries(status@);
    let mut out: Option<Double> = None;
    for i in 0..ports.len()
        invariant
            ports@.len() == all.len(),
            forall|k: int| 0 <= k < ports@.len() ==> (#[trigger] ports@[k])@ == all[k],
            out == worst_light(all.take(i as int)),
    {
        assert(all.take(i + 1).drop_last() == all.take(i as int));
        assert(all.take(i + 1).last() == ports@[i as int]@);
        let diag = find_diagnostics(ports[i]);
        match json::get_in(diag, "rxPwr") {
            Some(j) => match j.as_array() {
                Some(a) => {
                    let powers = collect_readings(a);
                    out = find_least_light(out, &powers);
                },
                None => {},
            },
            None => {},
        }
    }
    assert(all.take(all.len() as int) == all);
    out
}

/// The highest temperature of a card's optics.
pub fn max_temp(status: &Json) -> (r: Option<Double>)
    ensures
        r == worst_heat(port_entries(status@)),
{
    let ports = list_ports(status);
    let ghost all = port_entries(status@);
    let mut out: Option<Double> = None;
    for i in 0..ports.len()
        invariant
            ports@.len() == all.len(),
            forall|k: int| 0 <= k < ports@.len() ==> (#[trigger] ports@[k])@ == all[k],
            out == worst_heat(all.take(i as int)),
    {
        assert(all.take(i + 1).drop_last() == all.take(i as int));
        assert(all.take(i + 1).last() == ports@[i as int]@);
        match find_reading(find_diagnostics(ports[i]), "temp") {
            Some(t) => {
                out = max_of(out, t.value);
            },
            None => {},
        }
    }
    assert(all.take(all.len() as int) == all);
    out
}

/// The members with one more, where there is one.
pub open spec fn put(m: Map<Seq<char>, JsonView>, key: Seq<char>, value: Option<JsonView>) -> Map<
    Seq<char>,
    JsonView,
> {
    match value {
        Some(v) => m.insert(key, v),
        None => m,
    }
}

/// A text that may be absent, without the white space around it.
pub open spec fn trimmed_text(o: Option<JsonView>) -> Option<JsonView> {
    match json::text_of(o) {
        Some(s) => Some(JsonView::Text(text::trimmed(s))),
        None => None,
    }
}

/// Measurements as an array.
pub open spec fn readings_json(readings: Seq<Reading>) -> JsonView {
    JsonView::Array(readings.map_values(|r: Reading| JsonView::of_double(r.value)))
}

/// A measurement that may be absent.
pub open spec fn reading_json(o: Option<Reading>) -> Option<JsonView> {
    match o {
        Some(r) => Some(JsonView::of_double(r.value)),
        None => None,
    }
}

/// The measurements under a key, where there is an array.
pub open spec fn powers_json(diag: Option<JsonView>, key: Seq<char>) -> Option<JsonView> {
    match json::items_of(json::member_of(diag, key)) {
        Some(a) => Some(readings_json(readings_among(a))),
        None => None,
    }
}

/// What is reported of a port.
pub open spec fn port_summary(port: JsonView) -> JsonView {
    let value = port.get("value"@);
    let diag = diagnostics(port);
    let m = Map::empty().insert(
        "port"@,
        JsonView::Text(json::text_or(json::text_of(port.get("key"@)), ""@)),
    );
    let m = put(m, "vendor"@, trimmed_text(json::member_of(value, "vendorName"@)));
    let m = put(m, "part_number"@, trimmed_text(json::member_of(value, "vendorPN"@)));
    let m = put(m, "serial"@, trimmed_text(json::member_of(value, "vendorSN"@)));
    let m = put(m, "temp_c"@, reading_json(reading_in(diag, "temp"@)));
    let m = put(m, "vcc_v"@, reading_json(reading_in(diag, "vcc"@)));
    let m = put(m, "rx_power_mw"@, powers_json(diag, "rxPwr"@));
    JsonView::Object(put(m, "tx_power_mw"@, powers_json(diag, "txPwr"@)))
}

fn make_readings_json(readings: &Vec<Reading>) -> (r: Json)
    ensures
        r@ == readings_json(readings@),
{
    let mut out: Vec<Json> = Vec::new();
    for i in 0..readings.len()
        invariant
            out@.len() == i,
            forall|k: int|
                0 <= k < i ==> (#[trigger] out@[k])@ == JsonView::of_double(readings@[k].value),
    {
        out.push(Json::from_double(readings[i].value));
    }
    assert(json::items_view(out@) == readings@.map_values(
        |r: Reading| JsonView::of_double(r.value),
    ));
    Json::Array(out)
}

fn set_trimmed(o: &mut Object, key: &str, value: Option<&Json>)
    ensures
        final(o)@ == put(old(o)@, key@, trimmed_text(json::option_view(value))),
{
    match json::str_in(value) {
        Some(s) => {
            o.set(key, Json::Text(text::trim(s)));
        },
        None => {},
    }
}

fn set_reading(o: &mut Object, key: &str, value: Option<Reading>)
    ensures
        final(o)@ == put(old(o)@, key@, reading_json(value)),
{
    match value {
        Some(r) => {
            o.set(key, Json::from_double(r.value));
        },
        None => {},
    }
}

fn set_powers(o: &mut Object, key: &str, diag: Option<&Json>, name: &str)
    ensures
        final(o)@ == put(old(o)@, key@, powers_json(json::option_view(diag), name@)),
{
    match json::get_in(diag, name) {
        Some(j) => match j.as_array() {
            Some(a) => {
                let readings = collect_readings(a);
                o.set(key, make_readings_json(&readings));
            },
            None => {},
        },
        None => {},
    }
}

fn summarise_port(port: &Json) -> (r: Json)
    ensures
        r@ == port_summary(port@),
{
    let value = port.get("value");
    let diag = find_diagnostics(port);
    let mut o = Object::new();
    o.set("port", Json::Text(json::string_or(port.get("key"), "")));
    set_trimmed(&mut o, "vendor", json::get_in(value, "vendorName"));
    set_trimmed(&mut o, "part_number", json::get_in(value, "vendorPN"));
    set_trimmed(&mut o, "serial", json::get_in(value, "vendorSN"));
    set_reading(&mut o, "temp_c", find_reading(diag, "temp"));
    set_reading(&mut o, "vcc_v", find_reading(diag, "vcc"));
    set_powers(&mut o, "rx_power_mw", diag, "rxPwr");
    set_powers(&mut o, "tx_power_mw", diag, "txPwr");
    Json::Object(o)
}

/// What is reported of the ports of a card.
pub open spec fn port_summaries(status: JsonView) -> Seq<JsonView> {
    port_entries(status).map_values(|p: JsonView| port_summary(p))
}

/// The least light and the highest temperature of a card's optics, and what is reported of each.
pub fn extract_sfp_signals(status: &Json) -> (r: (Option<Double>, Option<Double>, Vec<Json>))
    ensures
        r.0 == worst_light(port_entries(status@)),
        r.1 == worst_heat(port_entries(status@)),
        json::items_view(r.2@) == port_summaries(status@),
{
    let ports = list_ports(status);
    let ghost all = port_entries(status@);
    let mut out: Vec<Json> = Vec::new();
    for i in 0..ports.len()
        invariant
            ports@.len() == all.len(),
            forall|k: int| 0 <= k < ports@.len() ==> (#[trigger] ports@[k])@ == all[k],
            out@.len() == i,
            forall|k: int| 0 <= k < i ==> (#[trigger] out@[k])@ == port_summary(all[k]),
    {
        out.push(summarise_port(ports[i]));
    }
    assert(json::items_view(out@) == port_summaries(status@));
    (min_rx_dbm(status), max_temp(status), out)
}

/// Whether two texts are the same but for the case of Latin letters.
pub open spec fn same_but_case(a: Seq<char>, b: Seq<char>) -> bool {
    text::ascii_lowered(a) == text::ascii_lowered(b)
}

/// Whether two texts are the same but for the case of Latin letters.
pub fn eq_ignore_ascii_case(a: &str, b: &str) -> (r: bool)
    ensures
        r == same_but_case(a@, b@),
{
    let x = text::chars_of(a);
    let y = text::chars_of(b);
    let ghost lx = text::ascii_lowered(a@);
    let ghost ly = text::ascii_lowered(b@);
    if x.len() != y.len() {
        assert(lx.len() != ly.len());
        return false;
    }
    for i in 0..x.len()
        invariant
            x@ == a@,
            y@ == b@,
            x@.len() == y@.len(),
            lx == text::ascii_lowered(a@),
            ly == text::ascii_lowered(b@),
            forall|k: int| 0 <= k < i ==> lx[k] == #[trigger] ly[k],
    {
        if text::to_ascii_lower(x[i]) != text::to_ascii_lower(y[i]) {
            assert(lx[i as int] != ly[i as int]);
            return false;
        }
    }
    assert(lx == ly);
    true
}

/// What one card's state says.
#[verifier::ext_equal]
pub struct SlotSignals {
    pub ptp_locked: Option<bool>,
    pub ptp_state: Option<Seq<char>>,
    pub nmos: Option<bool>,
    pub rx_min: Option<Double>,
    pub temp_max: Option<Double>,
    pub ports: Seq<JsonView>,
}

/// What one card's state says.
pub open spec fn signals_of(status: JsonView) -> SlotSignals {
    SlotSignals {
        ptp_locked: match ptp_state(status) {
            Some(s) => Some(same_but_case(s, "LOCKED"@)),
            None => None,
        },
        ptp_state: ptp_state(status),
        nmos: nmos_connected(status),
        rx_min: worst_light(port_entries(status)),
        temp_max: worst_heat(port_entries(status)),
        ports: port_summaries(status),
    }
}

/// A truth value that may be absent.
pub open spec fn bool_json(o: Option<bool>) -> Option<JsonView> {
    match o {
        Some(b) => Some(JsonView::Bool(b)),
        None => None,
    }
}

/// A number that may be absent.
pub open spec fn double_json(o: Option<Double>) -> Option<JsonView> {
    match o {
        Some(d) => Some(JsonView::of_double(d)),
        None => None,
    }
}

impl SlotSignals {
    /// What is reported of one card.
    pub open spec fn to_json(self) -> JsonView {
        let m = Map::empty();
        let m = put(m, "ptp_locked"@, bool_json(self.ptp_locked));
        let m = put(
            m,
            "ptp_state"@,
            match self.ptp_state {
                Some(s) => Some(JsonView::Text(s)),
                None => None,
            },
        );
        let m = put(m, "nmos_registered"@, bool_json(self.nmos));
        let m = put(m, "qsfp_rx_power_dbm_min"@, double_json(self.rx_min));
        let m = put(m, "qsfp_temp_c_max"@, double_json(self.temp_max));
        JsonView::Object(
            put(
                m,
                "qsfp_ports"@,
                if self.ports.len() == 0 {
                    None
                } else {
                    Some(JsonView::Array(self.ports))
                },
            ),
        )
    }
}

/// What the cards together say.
#[verifier::ext_equal]
pub struct Rollup {
    /// What is reported of each card, by its slot number.
    pub by_slot: Map<Seq<char>, JsonView>,
    /// Whether all clocks that are known of are locked.
    pub ptp: Option<bool>,
    /// Whether all registries that are known of are connected.
    pub nmos: Option<bool>,
    pub rx_min: Option<Double>,
    pub temp_max: Option<Double>,
}

/// Both, of two truth values of which either may be absent.
pub open spec fn both(a: Option<bool>, b: Option<bool>) -> Option<bool> {
    match b {
        Some(y) => match a {
            Some(x) => Some(x && y),
            None => Some(y),
        },
        None => a,
    }
}

/// The lower of two numbers of which either may be absent.
pub open spec fn lower_both(a: Option<Double>, b: Option<Double>) -> Option<Double> {
    match b {
        Some(d) => lower_of(a, d),
        None => a,
    }
}

/// The higher of two numbers of which either may be absent.
pub open spec fn higher_both(a: Option<Double>, b: Option<Double>) -> Option<Double> {
    match b {
        Some(d) => higher_of(a, d),
        None => a,
    }
}

/// Adds one card.
pub open spec fn roll_up() -> spec_fn(Rollup, u32, JsonView) -> Rollup {
    |r: Rollup, slot: u32, status: JsonView|
        {
            let s = signals_of(status);
            Rollup {
                by_slot: r.by_slot.insert(text::decimal(slot as nat), s.to_json()),
                ptp: both(r.ptp, s.ptp_locked),
                nmos: both(r.nmos, s.nmos),
                rx_min: lower_both(r.rx_min, s.rx_min),
                temp_max: higher_both(r.temp_max, s.temp_max),
            }
        }
}

/// Nothing, before the first card.
pub open spec fn no_signals() -> Rollup {
    Rollup { by_slot: Map::empty(), ptp: None, nmos: None, rx_min: None, temp_max: None }
}

/// What the cards together say.
pub open spec fn rollup_of(m: Map<u32, JsonView>) -> Rollup {
    slots::fold_slots(m, slots::slot_limit(), no_signals(), roll_up())
}

impl Rollup {
    /// What is reported of all cards together.
    pub open spec fn global(self) -> Map<Seq<char>, JsonView> {
        let m = Map::empty();
        let m = put(m, "ptp_locked"@, bool_json(self.ptp));
        let m = put(m, "nmos_registered"@, bool_json(self.nmos));
        let m = put(m, "qsfp_rx_power_dbm_min"@, double_json(self.rx_min));
        put(m, "qsfp_temp_c_max"@, double_json(self.temp_max))
    }
}

/// What is reported of the cards.
pub open spec fn health_signals(m: Map<u32, JsonView>) -> JsonView {
    let r = rollup_of(m);
    JsonView::Object(
        Map::empty().insert("by_slot"@, JsonView::Object(r.by_slot)).insert(
            "global"@,
            JsonView::Object(r.global()),
        ),
    )
}

fn set_bool(o: &mut Object, key: &str, value: Option<bool>)
    ensures
        final(o)@ == put(old(o)@, key@, bool_json(value)),
{
    match value {
        Some(b) => {
            o.set(key, Json::Bool(b));
        },
        None => {},
    }
}

fn set_double(o: &mut Object, key: &str, value: Option<Double>)
    ensures
        final(o)@ == put(old(o)@, key@, double_json(value)),
{
    match value {
        Some(d) => {
            o.set(key, Json::from_double(d));
        },
        None => {},
    }
}

fn both_of(a: Option<bool>, b: Option<bool>) -> (r: Option<bool>)
    ensures
        r == both(a, b),
{
    match b {
        Some(y) => match a {
            Some(x) => Some(x && y),
            None => Some(y),
        },
        None => a,
    }
}

/// What is reported of the cards: of each by its slot number, and of all together.
pub fn derive_health_signals(status_map: &BTreeMap<u32, Json>) -> (r: Json)
    ensures
        r@ == health_signals(slots::views(status_map@)),
{
    let entries = slots::entries_of(status_map);
    let mut by_slot = Object::new();
    let mut ptp: Option<bool> = None;
    let mut nmos: Option<bool> = None;
    let mut rx_min: Option<Double> = None;
    let mut temp_max: Option<Double> = None;
    let ghost m = slots::views(status_map@);
    let n: usize = entries.len();
    for i in 0..n
        invariant
            n == entries@.len(),
            slots::lists(entries@, status_map@),
            m == slots::views(status_map@),
            (Rollup { by_slot: by_slot@, ptp, nmos, rx_min, temp_max }) == slots::fold_slots(
                m,
                slots::bound(entries@, i as int),
                no_signals(),
                roll_up(),
            ),
    {
        proof {
            slots::lemma_fold_step_views(
                entries@,
                status_map@,
                i as int,
                no_signals(),
                roll_up(),
            );
        }
        let status = entries[i].1;
        let ghost s = signals_of(status@);
        let state = ptp_state_of(status);
        let locked = match &state {
            Some(st) => Some(eq_ignore_ascii_case(st.as_str(), "LOCKED")),
            None => None,
        };
        let connected = find_nmos_connected(status);
        let (rx, temp, ports) = extract_sfp_signals(status);
        let mut o = Object::new();
        set_bool(&mut o, "ptp_locked", locked);
        match state {
            Some(st) => {
                o.set("ptp_state", Json::Text(st));
            },
            None => {},
        }
        set_bool(&mut o, "nmos_registered", connected);
        set_double(&mut o, "qsfp_rx_power_dbm_min", rx);
        set_double(&mut o, "qsfp_temp_c_max", temp);
        if ports.len() > 0 {
            o.set("qsfp_ports", Json::Array(ports));
        }
        assert(o@ == s.to_json()->Object_0);
        by_slot.set(text::decimal_of(entries[i].0 as u64).as_str(), Json::Object(o));
        ptp = both_of(ptp, locked);
        nmos = both_of(nmos, connected);
        rx_min = match rx {
            Some(d) => min_of(rx_min, d),
            None => rx_min,
        };
        temp_max = match temp {
            Some(d) => max_of(temp_max, d),
            None => temp_max,
        };
    }
    proof {
        slots::lemma_fold_end_views(entries@, status_map@, no_signals(), roll_up());
    }
    let mut global = Object::new();
    set_bool(&mut global, "ptp_locked", ptp);
    set_bool(&mut global, "nmos_registered", nmos);
    set_double(&mut global, "qsfp_rx_power_dbm_min", rx_min);
    set_double(&mut global, "qsfp_temp_c_max", temp_max);
    let mut o = Object::new();
    o.set("by_slot", Json::Object(by_slot));
    o.set("global", Json::Object(global));
    Json::Object(o)
}

/// Whether a truth value sums up those of some slots: it is absent where all of theirs are, and
/// true exactly if none of theirs is false.
pub open spec fn sums_up(all: Option<bool>, m: Map<u32, JsonView>, n: nat, of: spec_fn(SlotSignals) -> Option<bool>) -> bool {
    &&& all is None <==> forall|k: u32| k < n && #[trigger] m.contains_key(k) ==> of(signals_of(m[k])) is None
    &&& all == Some(true) ==> forall|k: u32|
        k < n && #[trigger] m.contains_key(k) ==> of(signals_of(m[k])) != Some(false)
    &&& all == Some(false) ==> exists|k: u32|
        k < n && #[trigger] m.contains_key(k) && of(signals_of(m[k])) == Some(false)
}

/// Whether a number is the worst of those of some slots: it is absent where all of theirs are,
/// else it is one of them and none of them is worse.
pub open spec fn is_worst(
    worst: Option<Double>,
    m: Map<u32, JsonView>,
    n: nat,
    of: spec_fn(SlotSignals) -> Option<Double>,
    worse: spec_fn(Double, Double) -> bool,
) -> bool {
    match worst {
        None => forall|k: u32|
            k < n && #[trigger] m.contains_key(k) ==> of(signals_of(m[k])) is None,
        Some(v) => {
            &&& exists|k: u32|
                k < n && #[trigger] m.contains_key(k) && of(signals_of(m[k])) == Some(v)
            &&& forall|k: u32|
                k < n && #[trigger] m.contains_key(k) && of(signals_of(m[k])) is Some ==> !worse(
                    of(signals_of(m[k]))->0,
                    v,
                )
        },
    }
}

spec fn nan_means_all(
    worst: Option<Double>,
    m: Map<u32, JsonView>,
    n: nat,
    of: spec_fn(SlotSignals) -> Option<Double>,
) -> bool {
    worst is Some && worst->0.nan() ==> forall|k: u32|
        k < n && #[trigger] m.contains_key(k) && of(signals_of(m[k])) is Some ==> of(
            signals_of(m[k]),
        )->0.nan()
}

spec fn rolled(m: Map<u32, JsonView>, n: nat) -> Rollup {
    slots::fold_slots(m, n, no_signals(), roll_up())
}

proof fn lemma_sums_up(
    before: Option<bool>,
    after: Option<bool>,
    m: Map<u32, JsonView>,
    n: nat,
    of: spec_fn(SlotSignals) -> Option<bool>,
)
    requires
        0 < n <= slots::slot_limit(),
        sums_up(before, m, (n - 1) as nat, of),
        after == if m.contains_key((n - 1) as u32) {
            both(before, of(signals_of(m[(n - 1) as u32])))
        } else {
            before
        },
    ensures
        sums_up(after, m, n, of),
{
    let slot = (n - 1) as u32;
    if m.contains_key(slot) {
        let here = of(signals_of(m[slot]));
        if here is None && before is None {
            assert forall|k: u32| k < n && #[trigger] m.contains_key(k) implies of(
                signals_of(m[k]),
            ) is None by {
                if k < n - 1 {
                } else {
                    assert(k == slot);
                }
            }
        }
        if after == Some(true) {
            assert forall|k: u32| k < n && #[trigger] m.contains_key(k) implies of(
                signals_of(m[k]),
            ) != Some(false) by {
                if k < n - 1 {
                } else {
                    assert(k == slot);
                }
            }
        }
        if after is Some && here is None {
            let k = choose|k: u32|
                k < n - 1 && #[trigger] m.contains_key(k) && !(of(signals_of(m[k])) is None);
            assert(m.contains_key(k));
        }
    } else {
        assert forall|k: u32| k < n && #[trigger] m.contains_key(k) implies k < n - 1 by {}
        if after is Some {
            let k = choose|k: u32|
                k < n - 1 && #[trigger] m.contains_key(k) && !(of(signals_of(m[k])) is None);
            assert(m.contains_key(k));
        }
    }
}

spec fn worst_of(low: bool, a: Option<Double>, b: Option<Double>) -> Option<Double> {
    if low {
        lower_both(a, b)
    } else {
        higher_both(a, b)
    }
}

/// Whether the first of two numbers is below the second.
pub open spec fn is_lower() -> spec_fn(Double, Double) -> bool {
    |a: Double, b: Double| a.below(b)
}

/// Whether the first of two numbers is above the second.
pub open spec fn is_higher() -> spec_fn(Double, Double) -> bool {
    |a: Double, b: Double| b.below(a)
}

proof fn lemma_worst(
    low: bool,
    before: Option<Double>,
    after: Option<Double>,
    m: Map<u32, JsonView>,
    n: nat,
    of: spec_fn(SlotSignals) -> Option<Double>,
)
    requires
        0 < n <= slots::slot_limit(),
        is_worst(before, m, (n - 1) as nat, of, if low { is_lower() } else { is_higher() }),
        nan_means_all(before, m, (n - 1) as nat, of),
        after == if m.contains_key((n - 1) as u32) {
            worst_of(low, before, of(signals_of(m[(n - 1) as u32])))
        } else {
            before
        },
    ensures
        is_worst(after, m, n, of, if low { is_lower() } else { is_higher() }),
        nan_means_all(after, m, n, of),
{
    let slot = (n - 1) as u32;
    let worse = if low {
        is_lower()
    } else {
        is_higher()
    };
    assert forall|k: u32| k < n && #[trigger] m.contains_key(k) implies k < n - 1 || k == slot by {}
    if after is Some {
        let v = after->0;
        if m.contains_key(slot) && of(signals_of(m[slot])) == Some(v) {
            assert(m.contains_key(slot));
        } else {
            let k = choose|k: u32|
                k < n - 1 && #[trigger] m.contains_key(k) && of(signals_of(m[k])) == Some(v);
            assert(m.contains_key(k));
        }
        assert forall|k: u32|
            k < n && #[trigger] m.contains_key(k) && of(signals_of(m[k])) is Some implies !worse(
            of(signals_of(m[k]))->0,
            v,
        ) by {
            let d = of(signals_of(m[k]))->0;
            if k < n - 1 {
                assert(before is Some);
                assert(!worse(d, before->0));
            }
        }
    }
}

proof fn lemma_rollup(m: Map<u32, JsonView>, n: nat)
    requires
        n <= slots::slot_limit(),
    ensures
        sums_up(rolled(m, n).ptp, m, n, |s: SlotSignals| s.ptp_locked),
        sums_up(rolled(m, n).nmos, m, n, |s: SlotSignals| s.nmos),
        is_worst(rolled(m, n).rx_min, m, n, |s: SlotSignals| s.rx_min, is_lower()),
        nan_means_all(rolled(m, n).rx_min, m, n, |s: SlotSignals| s.rx_min),
        is_worst(rolled(m, n).temp_max, m, n, |s: SlotSignals| s.temp_max, is_higher()),
        nan_means_all(rolled(m, n).temp_max, m, n, |s: SlotSignals| s.temp_max),
    decreases n,
{
    if n > 0 {
        let before = rolled(m, (n - 1) as nat);
        let after = rolled(m, n);
        lemma_rollup(m, (n - 1) as nat);
        lemma_sums_up(before.ptp, after.ptp, m, n, |s: SlotSignals| s.ptp_locked);
        lemma_sums_up(before.nmos, after.nmos, m, n, |s: SlotSignals| s.nmos);
        lemma_worst(true, before.rx_min, after.rx_min, m, n, |s: SlotSignals| s.rx_min);
        lemma_worst(false, before.temp_max, after.temp_max, m, n, |s: SlotSignals| s.temp_max);
    }
}

/// All cards together are locked, or connected, exactly if each card that tells is; their light is
/// the least and their temperature the highest that any card has. Where no card tells, nothing is
/// reported.
pub proof fn law_rollup(m: Map<u32, JsonView>)
    ensures
        sums_up(rollup_of(m).ptp, m, slots::slot_limit(), |s: SlotSignals| s.ptp_locked),
        sums_up(rollup_of(m).nmos, m, slots::slot_limit(), |s: SlotSignals| s.nmos),
        is_worst(
            rollup_of(m).rx_min,
            m,
            slots::slot_limit(),
            |s: SlotSignals| s.rx_min,
            is_lower(),
        ),
        is_worst(
            rollup_of(m).temp_max,
            m,
            slots::slot_limit(),
            |s: SlotSignals| s.temp_max,
            is_higher(),
        ),
{
    lemma_rollup(m, slots::slot_limit());
}

/// A port whose light is not positive says nothing of the light, whatever else it says.
pub proof fn law_dark_port_is_skipped(least: Option<Double>, powers: Seq<Reading>)
    requires
        forall|i: int| 0 <= i < powers.len() ==> !(#[trigger] powers[i]).value.positive(),
    ensures
        least_light(least, powers) == least,
    decreases powers.len(),
{
    if powers.len() > 0 {
        let fewer = powers.drop_last();
        assert forall|i: int| 0 <= i < fewer.len() implies !(#[trigger] fewer[i]).value.positive() by {
            assert(fewer[i] == powers[i]);
        }
        law_dark_port_is_skipped(least, fewer);
        assert(!powers[powers.len() - 1].value.positive());
    }
}

/// Whether a lane of a port that receives light reads the given power.
pub open spec fn lane_reads(port: JsonView, d: Double) -> bool {
    is_lit(rx_powers(port), d)
}

/// Whether one of the readings is of light and has the given power.
pub open spec fn is_lit(powers: Seq<Reading>, d: Double) -> bool {
    exists|j: int|
        0 <= j < powers.len() && (#[trigger] powers[j]).value.positive() && powers[j].dbm == d
}

/// Whether a port has the given temperature.
pub open spec fn port_is_at(port: JsonView, d: Double) -> bool {
    reading_in(diagnostics(port), "temp"@) is Some && reading_in(
        diagnostics(port),
        "temp"@,
    )->0.value == d
}

/// Whether some port of a card has a lane that receives light of the given power.
pub open spec fn some_lane_reads(ports: Seq<JsonView>, d: Double) -> bool {
    exists|i: int| 0 <= i < ports.len() && lane_reads(#[trigger] ports[i], d)
}

/// Whether some port of a card has the given temperature.
pub open spec fn some_port_is_at(ports: Seq<JsonView>, d: Double) -> bool {
    exists|i: int| 0 <= i < ports.len() && port_is_at(#[trigger] ports[i], d)
}

/// Whether a number is the worst that is found: it is found, nothing worse is, and it stands for no
/// number only where all that is found does. There is none exactly if nothing is found.
pub open spec fn worst_found(
    worst: Option<Double>,
    found: spec_fn(Double) -> bool,
    worse: spec_fn(Double, Double) -> bool,
) -> bool {
    match worst {
        None => forall|d: Double| !#[trigger] found(d),
        Some(v) => {
            &&& found(v)
            &&& forall|d: Double| #[trigger] found(d) ==> !worse(d, v)
            &&& v.nan() ==> forall|d: Double| #[trigger] found(d) ==> d.nan()
        },
    }
}

proof fn lemma_least_light(
    least: Option<Double>,
    found: spec_fn(Double) -> bool,
    powers: Seq<Reading>,
)
    requires
        worst_found(least, found, is_lower()),
    ensures
        worst_found(
            least_light(least, powers),
            |d: Double| found(d) || is_lit(powers, d),
            is_lower(),
        ),
    decreases powers.len(),
{
    let all = |d: Double| found(d) || is_lit(powers, d);
    if powers.len() == 0 {
        assert forall|d: Double| #[trigger] all(d) == found(d) by {}
    } else {
        let fewer = powers.drop_last();
        let last = powers.last();
        lemma_least_light(least, found, fewer);
        let some = |d: Double| found(d) || is_lit(fewer, d);
        let before = least_light(least, fewer);
        assert(worst_found(before, some, is_lower()));
        assert forall|d: Double| #[trigger] all(d) == (some(d) || (last.value.positive()
            && last.dbm == d)) by {
            if is_lit(powers, d) {
                let j = choose|j: int|
                    0 <= j < powers.len() && (#[trigger] powers[j]).value.positive()
                        && powers[j].dbm == d;
                if j < fewer.len() {
                    assert(fewer[j] == powers[j]);
                }
            }
            if is_lit(fewer, d) {
                let j = choose|j: int|
                    0 <= j < fewer.len() && (#[trigger] fewer[j]).value.positive() && fewer[j].dbm
                        == d;
                assert(fewer[j] == powers[j]);
            }
            if last.value.positive() && last.dbm == d {
                assert(powers[powers.len() - 1] == last);
            }
        }
        if least_light(least, powers) is Some {
            assert(all(least_light(least, powers)->0));
        }
    }
}

/// The least light of a card is that of a lane of one of its ports, and no lane that receives light
/// has less.
proof fn lemma_worst_light(ports: Seq<JsonView>)
    ensures
        worst_found(worst_light(ports), |d: Double| some_lane_reads(ports, d), is_lower()),
    decreases ports.len(),
{
    let all = |d: Double| some_lane_reads(ports, d);
    if ports.len() == 0 {
        assert forall|d: Double| !#[trigger] all(d) by {}
    } else {
        let fewer = ports.drop_last();
        lemma_worst_light(fewer);
        let some = |d: Double| some_lane_reads(fewer, d);
        let powers = rx_powers(ports.last());
        lemma_least_light(worst_light(fewer), some, powers);
        let both = |d: Double| some(d) || is_lit(powers, d);
        assert forall|d: Double| #[trigger] all(d) == both(d) by {
            if some_lane_reads(ports, d) {
                let i = choose|i: int| 0 <= i < ports.len() && lane_reads(#[trigger] ports[i], d);
                if i < fewer.len() {
                    assert(fewer[i] == ports[i]);
                }
            }
            if some_lane_reads(fewer, d) {
                let i = choose|i: int| 0 <= i < fewer.len() && lane_reads(#[trigger] fewer[i], d);
                assert(fewer[i] == ports[i]);
            }
            if is_lit(powers, d) {
                assert(lane_reads(ports[ports.len() - 1], d));
            }
        }
        assert(all =~= both);
    }
}

/// The highest temperature of a card is that of one of its ports, and no port is warmer.
proof fn lemma_worst_heat(ports: Seq<JsonView>)
    ensures
        worst_found(worst_heat(ports), |d: Double| some_port_is_at(ports, d), is_higher()),
    decreases ports.len(),
{
    let all = |d: Double| some_port_is_at(ports, d);
    if ports.len() == 0 {
        assert forall|d: Double| !#[trigger] all(d) by {}
    } else {
        let fewer = ports.drop_last();
        lemma_worst_heat(fewer);
        let some = |d: Double| some_port_is_at(fewer, d);
        assert(worst_found(worst_heat(fewer), some, is_higher()));
        let last = ports.last();
        assert forall|d: Double| #[trigger] all(d) == (some(d) || port_is_at(last, d)) by {
            if some_port_is_at(ports, d) {
                let i = choose|i: int| 0 <= i < ports.len() && port_is_at(#[trigger] ports[i], d);
                if i < fewer.len() {
                    assert(fewer[i] == ports[i]);
                }
            }
            if some_port_is_at(fewer, d) {
                let i = choose|i: int| 0 <= i < fewer.len() && port_is_at(#[trigger] fewer[i], d);
                assert(fewer[i] == ports[i]);
            }
            if port_is_at(last, d) {
                assert(port_is_at(ports[ports.len() - 1], d));
            }
        }
        if worst_heat(ports) is Some {
            assert(all(worst_heat(ports)->0));
        }
    }
}

/// The least light of a card is that of a lane of one of its ports, and no lane that receives light
/// has less. Its highest temperature is that of one of its ports, and no port is warmer.
pub proof fn law_worst_port(ports: Seq<JsonView>)
    ensures
        worst_found(worst_light(ports), |d: Double| some_lane_reads(ports, d), is_lower()),
        worst_found(worst_heat(ports), |d: Double| some_port_is_at(ports, d), is_higher()),
{
    lemma_worst_light(ports);
    lemma_worst_heat(ports);
}

} // verus!
