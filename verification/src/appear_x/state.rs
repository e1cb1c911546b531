//! The latest state of the unit, as the polls found it.
//!
//! Each poll writes its part. A snapshot of all parts goes to the manager as one message.

use std::collections::BTreeMap;
use std::time::Instant;
use vstd::prelude::*;

use crate::appear_x::capabilities::{
    self, DeviceCapabilities, DeviceView, DiscoveredInterfaceRecord, RecordView, SlotCapabilities,
    SlotView,
};
use crate::appear_x::health;
use crate::json::{self, Json, JsonView, Object};
use crate::slots;
use crate::text;

verus! {

broadcast use vstd::std_specs::btree::group_btree_axioms;

/// A list of JSON values.
#[derive(Debug)]
pub struct Items {
    pub list: Vec<Json>,
}

impl View for Items {
    type V = Seq<JsonView>;

    open spec fn view(&self) -> Seq<JsonView> {
        json::items_view(self.list@)
    }
}

/// The latest state of the unit.
#[derive(Debug)]
pub struct AppearXState {
    pub alarms: Vec<Json>,
    /// The identifiers of the alarms at the last poll, each once.
    pub prev_alarm_ids: Vec<String>,
    /// `ok`, `degraded` or `critical`.
    pub status: String,
    pub chassis: Option<Json>,
    pub chassis_info: Option<Json>,
    pub card_states: Vec<Json>,
    /// The inputs of an IP gateway board.
    pub inputs: BTreeMap<u32, Items>,
    /// The outputs of an IP gateway board.
    pub outputs: BTreeMap<u32, Items>,
    /// The network interfaces of an IP gateway board.
    pub ip_interfaces: BTreeMap<u32, Items>,
    /// The encoder and decoder services of a card.
    pub coder_services: BTreeMap<u32, Items>,
    /// The multi services of a card.
    pub multi_services: BTreeMap<u32, Items>,
    /// The audio profiles of a card.
    pub audio_profiles: BTreeMap<u32, Items>,
    /// The network interfaces of a card.
    pub xger_ip_interfaces: BTreeMap<u32, Items>,
    /// The pool allocations of a card.
    pub card_allocations: BTreeMap<u32, Items>,
    /// The transport bindings of a card.
    pub ip_connections: BTreeMap<u32, Items>,
    /// The redundancy groups of a card.
    pub redundancy_groups: BTreeMap<u32, Items>,
    /// The output services of a board.
    pub output_services: BTreeMap<u32, Items>,
    /// The state of a card.
    pub card_status: BTreeMap<u32, Json>,
    /// The pool configuration of a card.
    pub pool_config: BTreeMap<u32, Json>,
    /// The state of the redundancy groups of a card.
    pub redundancy_group_status: BTreeMap<u32, Json>,
    /// The configuration of the encoders in a slot.
    pub hip_encoders: BTreeMap<u32, Json>,
    /// The configuration of the decoders in a slot.
    pub hip_decoders: BTreeMap<u32, Json>,
    /// The state of program insertion on a card.
    pub dpi_status: BTreeMap<u32, Json>,
    /// The state of event signalling on a card.
    pub esam_status: BTreeMap<u32, Json>,
    /// The state of the placement servers on a card.
    pub pois_server_status: BTreeMap<u32, Json>,
    /// Whether the inputs of a card are locked.
    pub lock_status: BTreeMap<u32, Json>,
    /// The tables that a card decoded.
    pub psi_status: BTreeMap<u32, Json>,
}

/// What an [`AppearXState`] holds.
#[verifier::ext_equal]
pub struct StateView {
    pub alarms: Seq<JsonView>,
    pub prev_alarm_ids: Set<Seq<char>>,
    pub status: Seq<char>,
    pub chassis: Option<JsonView>,
    pub chassis_info: Option<JsonView>,
    pub card_states: Seq<JsonView>,
    pub inputs: Map<u32, Seq<JsonView>>,
    pub outputs: Map<u32, Seq<JsonView>>,
    pub ip_interfaces: Map<u32, Seq<JsonView>>,
    pub coder_services: Map<u32, Seq<JsonView>>,
    pub multi_services: Map<u32, Seq<JsonView>>,
    pub audio_profiles: Map<u32, Seq<JsonView>>,
    pub xger_ip_interfaces: Map<u32, Seq<JsonView>>,
    pub card_allocations: Map<u32, Seq<JsonView>>,
    pub ip_connections: Map<u32, Seq<JsonView>>,
    pub redundancy_groups: Map<u32, Seq<JsonView>>,
    pub output_services: Map<u32, Seq<JsonView>>,
    pub card_status: Map<u32, JsonView>,
    pub pool_config: Map<u32, JsonView>,
    pub redundancy_group_status: Map<u32, JsonView>,
    pub hip_encoders: Map<u32, JsonView>,
    pub hip_decoders: Map<u32, JsonView>,
    pub dpi_status: Map<u32, JsonView>,
    pub esam_status: Map<u32, JsonView>,
    pub pois_server_status: Map<u32, JsonView>,
    pub lock_status: Map<u32, JsonView>,
    pub psi_status: Map<u32, JsonView>,
}

/// What a value that may be absent stands for.
pub open spec fn owned_view(o: Option<Json>) -> Option<JsonView> {
    match o {
        Some(j) => Some(j@),
        None => None,
    }
}

impl View for AppearXState {
    type V = StateView;

    open spec fn view(&self) -> StateView {
        StateView {
            alarms: json::items_view(self.alarms@),
            prev_alarm_ids: json::strings_view(self.prev_alarm_ids@).to_set(),
            status: self.status@,
            chassis: owned_view(self.chassis),
            chassis_info: owned_view(self.chassis_info),
            card_states: json::items_view(self.card_states@),
            inputs: slots::views(self.inputs@),
            outputs: slots::views(self.outputs@),
            ip_interfaces: slots::views(self.ip_interfaces@),
            coder_services: slots::views(self.coder_services@),
            multi_services: slots::views(self.multi_services@),
            audio_profiles: slots::views(self.audio_profiles@),
            xger_ip_interfaces: slots::views(self.xger_ip_interfaces@),
            card_allocations: slots::views(self.card_allocations@),
            ip_connections: slots::views(self.ip_connections@),
            redundancy_groups: slots::views(self.redundancy_groups@),
            output_services: slots::views(self.output_services@),
            card_status: slots::views(self.card_status@),
            pool_config: slots::views(self.pool_config@),
            redundancy_group_status: slots::views(self.redundancy_group_status@),
            hip_encoders: slots::views(self.hip_encoders@),
            hip_decoders: slots::views(self.hip_decoders@),
            dpi_status: slots::views(self.dpi_status@),
            esam_status: slots::views(self.esam_status@),
            pois_server_status: slots::views(self.pois_server_status@),
            lock_status: slots::views(self.lock_status@),
            psi_status: slots::views(self.psi_status@),
        }
    }
}

/// The state before the first poll.
pub open spec fn initial_state() -> StateView {
    StateView {
        alarms: Seq::empty(),
        prev_alarm_ids: Set::empty(),
        status: "ok"@,
        chassis: None,
        chassis_info: None,
        card_states: Seq::empty(),
        inputs: Map::empty(),
        outputs: Map::empty(),
        ip_interfaces: Map::empty(),
        coder_services: Map::empty(),
        multi_services: Map::empty(),
        audio_profiles: Map::empty(),
        xger_ip_interfaces: Map::empty(),
        card_allocations: Map::empty(),
        ip_connections: Map::empty(),
        redundancy_groups: Map::empty(),
        output_services: Map::empty(),
        card_status: Map::empty(),
        pool_config: Map::empty(),
        redundancy_group_status: Map::empty(),
        hip_encoders: Map::empty(),
        hip_decoders: Map::empty(),
        dpi_status: Map::empty(),
        esam_status: Map::empty(),
        pois_server_status: Map::empty(),
        lock_status: Map::empty(),
        psi_status: Map::empty(),
    }
}

/// The type of std for a point on the machine's own clock.
#[verifier::external_type_specification]
#[verifier::external_body]
pub struct ExInstant(std::time::Instant);

/// Calls `std::time::Instant::now`. Nothing is known of the result.
#[verifier::external_body]
fn start_clock() -> Instant {
    Instant::now()
}

/// Calls `std::time::Instant::elapsed` and takes the whole seconds of the result. Nothing is known
/// of them.
#[verifier::external_body]
fn elapsed_secs(since: &Instant) -> u64 {
    since.elapsed().as_secs()
}

/// The state of the unit together with what was found out about it.
#[derive(Debug)]
pub struct SharedAppearXState {
    inner: AppearXState,
    caps: DeviceCapabilities,
    started_at: Instant,
    version: &'static str,
    appear_x_address: String,
}

/// What a [`SharedAppearXState`] holds.
#[verifier::ext_equal]
pub struct SharedView {
    pub state: StateView,
    pub caps: DeviceView,
    pub started_at: Instant,
    pub version: Seq<char>,
    pub address: Seq<char>,
}

impl View for SharedAppearXState {
    type V = SharedView;

    closed spec fn view(&self) -> SharedView {
        SharedView {
            state: self.inner@,
            caps: self.caps@,
            started_at: self.started_at,
            version: self.version@,
            address: self.appear_x_address@,
        }
    }
}

/// The identifier of an alarm.
pub open spec fn alarm_id(alarm: JsonView) -> Option<Seq<char>> {
    json::text_of(alarm.get("alarmId"@))
}

/// The identifiers of some alarms.
pub open spec fn alarm_ids(alarms: Seq<JsonView>) -> Set<Seq<char>> {
    Set::new(
        |id: Seq<char>|
            exists|i: int| 0 <= i < alarms.len() && alarm_id(#[trigger] alarms[i]) == Some(id),
    )
}

/// The alarms that have an identifier which is not among the given ones.
pub open spec fn alarms_not_in(alarms: Seq<JsonView>, known: Set<Seq<char>>) -> Seq<JsonView>
    decreases alarms.len(),
{
    if alarms.len() == 0 {
        Seq::empty()
    } else {
        let before = alarms_not_in(alarms.drop_last(), known);
        match alarm_id(alarms.last()) {
            Some(id) => if known.contains(id) {
                before
            } else {
                before.push(alarms.last())
            },
            None => before,
        }
    }
}

fn holds(list: &Vec<String>, s: &str) -> (r: bool)
    ensures
        r == json::strings_view(list@).to_set().contains(s@),
{
    let wanted = s.to_owned();
    let ghost all = json::strings_view(list@);
    for i in 0..list.len()
        invariant
            wanted@ == s@,
            all == json::strings_view(list@),
            forall|k: int| 0 <= k < i ==> (#[trigger] all[k]) != s@,
    {
        if list[i] == wanted {
            assert(all[i as int] == s@);
            return true;
        }
        assert(all[i as int] == list@[i as int]@);
    }
    false
}

fn collect_ids(alarms: &Vec<Json>) -> (r: Vec<String>)
    ensures
        json::strings_view(r@).to_set() == alarm_ids(json::items_view(alarms@)),
        json::strings_view(r@).no_duplicates(),
{
    let mut out: Vec<String> = Vec::new();
    let ghost all = json::items_view(alarms@);
    assert(alarm_ids(all.take(0)) == Set::<Seq<char>>::empty());
    assert(json::strings_view(out@).to_set() == Set::<Seq<char>>::empty());
    for i in 0..alarms.len()
        invariant
            all == json::items_view(alarms@),
            json::strings_view(out@).to_set() == alarm_ids(all.take(i as int)),
            json::strings_view(out@).no_duplicates(),
    {
        let ghost before = json::strings_view(out@);
        let ghost known = all.take(i as int);
        let ghost more = all.take(i + 1);
        assert(more.drop_last() == known);
        assert(all[i as int] == alarms@[i as int]@);
        match json::str_in(alarms[i].get("alarmId")) {
            Some(id) => {
                let fresh = !holds(&out, id);
                if fresh {
                    out.push(id.to_owned());
                    assert(json::strings_view(out@) == before.push(id@));
                }
                proof {
                    lemma_ids_grow(known, all[i as int]);
                    lemma_push_to_set(before, id@);
                    assert(more == known.push(all[i as int]));
                    if !fresh {
                        assert(before.to_set().insert(id@) == before.to_set());
                    }
                }
            },
            None => {
                proof {
                    lemma_ids_grow(known, all[i as int]);
                    assert(more == known.push(all[i as int]));
                }
            },
        }
    }
    assert(all.take(all.len() as int) == all);
    out
}

proof fn lemma_push_to_set(s: Seq<Seq<char>>, x: Seq<char>)
    ensures
        s.push(x).to_set() == s.to_set().insert(x),
        s.no_duplicates() && !s.to_set().contains(x) ==> s.push(x).no_duplicates(),
{
    let t = s.push(x);
    assert forall|e: Seq<char>| t.to_set().contains(e) == s.to_set().insert(x).contains(e) by {
        if s.contains(e) {
            let i = choose|i: int| 0 <= i < s.len() && s[i] == e;
            assert(t[i] == e);
        }
        if e == x {
            assert(t[t.len() - 1] == e);
        }
        if t.contains(e) && e != x {
            let i = choose|i: int| 0 <= i < t.len() && t[i] == e;
            assert(s[i] == e);
        }
    }
    if s.no_duplicates() && !s.to_set().contains(x) {
        assert forall|i: int, j: int| 0 <= i < t.len() && 0 <= j < t.len() && i != j implies t[i]
            != t[j] by {
            if i < s.len() && j < s.len() {
                assert(s[i] != s[j]);
            } else if i < s.len() {
                assert(s.contains(s[i]));
            } else {
                assert(s.contains(s[j]));
            }
        }
    }
}

proof fn lemma_ids_grow(alarms: Seq<JsonView>, a: JsonView)
    ensures
        alarm_ids(alarms.push(a)) == match alarm_id(a) {
            Some(id) => alarm_ids(alarms).insert(id),
            None => alarm_ids(alarms),
        },
{
    let more = alarms.push(a);
    let expected = match alarm_id(a) {
        Some(id) => alarm_ids(alarms).insert(id),
        None => alarm_ids(alarms),
    };
    assert forall|id: Seq<char>| alarm_ids(more).contains(id) == expected.contains(id) by {
        if alarm_ids(alarms).contains(id) {
            let i = choose|i: int|
                0 <= i < alarms.len() && alarm_id(#[trigger] alarms[i]) == Some(id);
            assert(alarm_id(more[i]) == Some(id));
        }
        if alarm_id(a) == Some(id) {
            assert(alarm_id(more[alarms.len() as int]) == Some(id));
        }
        if alarm_ids(more).contains(id) && alarm_id(a) != Some(id) {
            let i = choose|i: int| 0 <= i < more.len() && alarm_id(#[trigger] more[i]) == Some(id);
            assert(alarm_id(alarms[i]) == Some(id));
        }
    }
}

fn collect_new(alarms: &Vec<Json>, known: &Vec<String>) -> (r: Vec<Json>)
    ensures
        json::items_view(r@) == alarms_not_in(
            json::items_view(alarms@),
            json::strings_view(known@).to_set(),
        ),
{
    let mut out: Vec<Json> = Vec::new();
    let ghost all = json::items_view(alarms@);
    let ghost set = json::strings_view(known@).to_set();
    assert(json::items_view(out@) == Seq::<JsonView>::empty());
    for i in 0..alarms.len()
        invariant
            all == json::items_view(alarms@),
            set == json::strings_view(known@).to_set(),
            json::items_view(out@) == alarms_not_in(all.take(i as int), set),
    {
        let ghost before = out@;
        assert(all.take(i + 1).drop_last() == all.take(i as int));
        assert(all.take(i + 1).last() == alarms@[i as int]@);
        match json::str_in(alarms[i].get("alarmId")) {
            Some(id) => {
                if !holds(known, id) {
                    let ghost a = alarms@[i as int]@;
                    out.push(alarms[i].copy());
                    assert(json::items_view(out@) == json::items_view(before).push(a));
                }
            },
            None => {},
        }
    }
    assert(all.take(all.len() as int) == all);
    out
}

fn collect_gone(known: Vec<String>, current: &Vec<String>) -> (r: Vec<String>)
    requires
        json::strings_view(known@).no_duplicates(),
    ensures
        json::strings_view(r@).to_set() == json::strings_view(known@).to_set().difference(
            json::strings_view(current@).to_set(),
        ),
        json::strings_view(r@).no_duplicates(),
{
    let mut out: Vec<String> = Vec::new();
    let ghost all = json::strings_view(known@);
    let ghost now = json::strings_view(current@).to_set();
    assert(json::strings_view(out@).to_set() == all.take(0).to_set().difference(now));
    for i in 0..known.len()
        invariant
            all == json::strings_view(known@),
            all.no_duplicates(),
            now == json::strings_view(current@).to_set(),
            json::strings_view(out@).to_set() == all.take(i as int).to_set().difference(now),
            json::strings_view(out@).no_duplicates(),
    {
        let ghost before = json::strings_view(out@);
        let ghost earlier = all.take(i as int);
        let ghost id = all[i as int];
        assert(known@[i as int]@ == id);
        proof {
            assert(all.take(i + 1) == earlier.push(id));
            lemma_push_to_set(earlier, id);
            lemma_push_to_set(before, id);
            if earlier.to_set().contains(id) {
                let k = choose|k: int| 0 <= k < earlier.len() && earlier[k] == id;
                assert(all[k] != all[i as int]);
            }
        }
        if !holds(current, known[i].as_str()) {
            out.push(known[i].clone());
            assert(json::strings_view(out@) == before.push(id));
            assert(json::strings_view(out@).to_set() == all.take(i + 1).to_set().difference(now));
        } else {
            assert(json::strings_view(out@).to_set() == all.take(i + 1).to_set().difference(now));
        }
    }
    assert(all.take(all.len() as int) == all);
    out
}

impl SharedAppearXState {
    /// Whether each identifier of the last poll is kept once.
    pub closed spec fn valid(&self) -> bool {
        json::strings_view(self.inner.prev_alarm_ids@).no_duplicates()
    }

    /// The state of a unit before the first poll.
    pub fn new(caps: DeviceCapabilities, version: &'static str, appear_x_address: String) -> (r:
        SharedAppearXState)
        ensures
            r.valid(),
            r@.state == initial_state(),
            r@.caps == caps@,
            r@.version == version@,
            r@.address == appear_x_address@,
    {
        let inner = AppearXState {
            alarms: Vec::new(),
            prev_alarm_ids: Vec::new(),
            status: "ok".to_owned(),
            chassis: None,
            chassis_info: None,
            card_states: Vec::new(),
            inputs: BTreeMap::new(),
            outputs: BTreeMap::new(),
            ip_interfaces: BTreeMap::new(),
            coder_services: BTreeMap::new(),
            multi_services: BTreeMap::new(),
            audio_profiles: BTreeMap::new(),
            xger_ip_interfaces: BTreeMap::new(),
            card_allocations: BTreeMap::new(),
            ip_connections: BTreeMap::new(),
            redundancy_groups: BTreeMap::new(),
            output_services: BTreeMap::new(),
            card_status: BTreeMap::new(),
            pool_config: BTreeMap::new(),
            redundancy_group_status: BTreeMap::new(),
            hip_encoders: BTreeMap::new(),
            hip_decoders: BTreeMap::new(),
            dpi_status: BTreeMap::new(),
            esam_status: BTreeMap::new(),
            pois_server_status: BTreeMap::new(),
            lock_status: BTreeMap::new(),
            psi_status: BTreeMap::new(),
        };
        assert(inner@ == initial_state());
        SharedAppearXState { inner, caps, started_at: start_clock(), version, appear_x_address }
    }

    /// Keeps the alarms of a poll and the status that they mean. Returns the alarms whose
    /// identifiers were not there at the last poll, and the identifiers that are there no more,
    /// each once.
    pub fn set_alarms(&mut self, alarms: Vec<Json>, status: &str) -> (r: (Vec<Json>, Vec<String>))
        requires
            old(self).valid(),
        ensures
            final(self).valid(),
            final(self)@ == (SharedView {
                state: StateView {
                    alarms: json::items_view(alarms@),
                    prev_alarm_ids: alarm_ids(json::items_view(alarms@)),
                    status: status@,
                    ..old(self)@.state
                },
                ..old(self)@
            }),
            json::items_view(r.0@) == alarms_not_in(
                json::items_view(alarms@),
                old(self)@.state.prev_alarm_ids,
            ),
            json::strings_view(r.1@).to_set() == old(self)@.state.prev_alarm_ids.difference(
                alarm_ids(json::items_view(alarms@)),
            ),
            json::strings_view(r.1@).no_duplicates(),
    {
        let current = collect_ids(&alarms);
        let new_alarms = collect_new(&alarms, &self.inner.prev_alarm_ids);
        let mut known: Vec<String> = Vec::new();
        std::mem::swap(&mut known, &mut self.inner.prev_alarm_ids);
        let cleared = collect_gone(known, &current);
        self.inner.prev_alarm_ids = current;
        self.inner.alarms = alarms;
        self.inner.status = status.to_owned();
        (new_alarms, cleared)
    }

    /// Keeps the chassis model.
    pub fn set_chassis(&mut self, chassis: Json)
        ensures
            final(self).valid() == old(self).valid(),
            final(self)@ == (SharedView {
                state: StateView { chassis: Some(chassis@), ..old(self)@.state },
                ..old(self)@
            }),
    {
        self.inner.chassis = Some(chassis);
    }

    /// Keeps the chassis information and the states of the cards.
    pub fn set_cards(&mut self, info: Json, states: Json)
        ensures
            final(self).valid() == old(self).valid(),
            final(self)@ == (SharedView {
                state: StateView {
                    chassis_info: Some(info@),
                    card_states: states@.items_or_none(),
                    ..old(self)@.state
                },
                ..old(self)@
            }),
    {
        self.inner.chassis_info = Some(info);
        self.inner.card_states = states.into_items();
    }

    /// Keeps the inputs of an IP gateway board.
    pub fn set_slot_inputs(&mut self, slot: u32, items: Json)
        ensures
            final(self).valid() == old(self).valid(),
            final(self)@ == (SharedView {
                state: StateView {
                    inputs: old(self)@.state.inputs.insert(slot, items@.items_or_none()),
                    ..old(self)@.state
                },
                ..old(self)@
            }),
    {
        let ghost before = self.inner.inputs@;
        self.inner.inputs.insert(slot, Items { list: items.into_items() });
        assert(slots::views(self.inner.inputs@) == slots::views(before).insert(
            slot,
            items@.items_or_none(),
        ));
    }

    /// Keeps the outputs of an IP gateway board.
    pub fn set_slot_outputs(&mut self, slot: u32, items: Json)
        ensures
            final(self).valid() == old(self).valid(),
            final(self)@ == (SharedView {
                state: StateView {
                    outputs: old(self)@.state.outputs.insert(slot, items@.items_or_none()),
                    ..old(self)@.state
                },
                ..old(self)@
            }),
    {
        let ghost before = self.inner.outputs@;
        self.inner.outputs.insert(slot, Items { list: items.into_items() });
        assert(slots::views(self.inner.outputs@) == slots::views(before).insert(
            slot,
            items@.items_or_none(),
        ));
    }

    /// Keeps the network interfaces of an IP gateway board.
    pub fn set_slot_ip_interfaces(&mut self, slot: u32, items: Json)
        ensures
            final(self).valid() == old(self).valid(),
            final(self)@ == (SharedView {
                state: StateView {
                    ip_interfaces: old(self)@.state.ip_interfaces.insert(slot, items@.items_or_none()),
                    ..old(self)@.state
                },
                ..old(self)@
            }),
    {
        let ghost before = self.inner.ip_interfaces@;
        self.inner.ip_interfaces.insert(slot, Items { list: items.into_items() });
        assert(slots::views(self.inner.ip_interfaces@) == slots::views(before).insert(
            slot,
            items@.items_or_none(),
        ));
    }

    /// Keeps the encoder and decoder services of a card.
    pub fn set_coder_services(&mut self, slot: u32, items: Json)
        ensures
            final(self).valid() == old(self).valid(),
            final(self)@ == (SharedView {
                state: StateView {
                    coder_services: old(self)@.state.coder_services.insert(slot, items@.items_or_none()),
                    ..old(self)@.state
                },
                ..old(self)@
            }),
    {
        let ghost before = self.inner.coder_services@;
        self.inner.coder_services.insert(slot, Items { list: items.into_items() });
        assert(slots::views(self.inner.coder_services@) == slots::views(before).insert(
            slot,
            items@.items_or_none(),
        ));
    }

    /// Keeps the multi services of a card.
    pub fn set_multi_services(&mut self, slot: u32, items: Json)
        ensures
            final(self).valid() == old(self).valid(),
            final(self)@ == (SharedView {
                state: StateView {
                    multi_services: old(self)@.state.multi_services.insert(slot, items@.items_or_none()),
                    ..old(self)@.state
                },
                ..old(self)@
            }),
    {
        let ghost before = self.inner.multi_services@;
        self.inner.multi_services.insert(slot, Items { list: items.into_items() });
        assert(slots::views(self.inner.multi_services@) == slots::views(before).insert(
            slot,
            items@.items_or_none(),
        ));
    }

    /// Keeps the audio profiles of a card.
    pub fn set_audio_profiles(&mut self, slot: u32, items: Json)
        ensures
            final(self).valid() == old(self).valid(),
            final(self)@ == (SharedView {
                state: StateView {
                    audio_profiles: old(self)@.state.audio_profiles.insert(slot, items@.items_or_none()),
                    ..old(self)@.state
                },
                ..old(self)@
            }),
    {
        let ghost before = self.inner.audio_profiles@;
        self.inner.audio_profiles.insert(slot, Items { list: items.into_items() });
        assert(slots::views(self.inner.audio_profiles@) == slots::views(before).insert(
            slot,
            items@.items_or_none(),
        ));
    }

    /// Keeps the network interfaces of a card.
    pub fn set_xger_ip_interfaces(&mut self, slot: u32, items: Json)
        ensures
            final(self).valid() == old(self).valid(),
            final(self)@ == (SharedView {
                state: StateView {
                    xger_ip_interfaces: old(self)@.state.xger_ip_interfaces.insert(slot, items@.items_or_none()),
                    ..old(self)@.state
                },
                ..old(self)@
            }),
    {
        let ghost before = self.inner.xger_ip_interfaces@;
        self.inner.xger_ip_interfaces.insert(slot, Items { list: items.into_items() });
        assert(slots::views(self.inner.xger_ip_interfaces@) == slots::views(before).insert(
            slot,
            items@.items_or_none(),
        ));
    }

    /// Keeps the pool allocations of a card.
    pub fn set_card_allocations(&mut self, slot: u32, items: Json)
        ensures
            final(self).valid() == old(self).valid(),
            final(self)@ == (SharedView {
                state: StateView {
                    card_allocations: old(self)@.state.card_allocations.insert(slot, items@.items_or_none()),
                    ..old(self)@.state
                },
                ..old(self)@
            }),
    {
        let ghost before = self.inner.card_allocations@;
        self.inner.card_allocations.insert(slot, Items { list: items.into_items() });
        assert(slots::views(self.inner.card_allocations@) == slots::views(before).insert(
            slot,
            items@.items_or_none(),
        ));
    }

    /// Keeps the transport bindings of a card.
    pub fn set_ip_connections(&mut self, slot: u32, items: Json)
        ensures
            final(self).valid() == old(self).valid(),
            final(self)@ == (SharedView {
                state: StateView {
                    ip_connections: old(self)@.state.ip_connections.insert(slot, items@.items_or_none()),
                    ..old(self)@.state
                },
                ..old(self)@
            }),
    {
        let ghost before = self.inner.ip_connections@;
        self.inner.ip_connections.insert(slot, Items { list: items.into_items() });
        assert(slots::views(self.inner.ip_connections@) == slots::views(before).insert(
            slot,
            items@.items_or_none(),
        ));
    }

    /// Keeps the redundancy groups of a card.
    pub fn set_redundancy_groups(&mut self, slot: u32, items: Json)
        ensures
            final(self).valid() == old(self).valid(),
            final(self)@ == (SharedView {
                state: StateView {
                    redundancy_groups: old(self)@.state.redundancy_groups.insert(slot, items@.items_or_none()),
                    ..old(self)@.state
                },
                ..old(self)@
            }),
    {
        let ghost before = self.inner.redundancy_groups@;
        self.inner.redundancy_groups.insert(slot, Items { list: items.into_items() });
        assert(slots::views(self.inner.redundancy_groups@) == slots::views(before).insert(
            slot,
            items@.items_or_none(),
        ));
    }

    /// Keeps the output services of a board, which may stand in an envelope.
    pub fn set_output_services(&mut self, slot: u32, items: Json)
        ensures
            final(self).valid() == old(self).valid(),
            final(self)@ == (SharedView {
                state: StateView {
                    output_services: old(self)@.state.output_services.insert(
                        slot,
                        unpacked(items@).items_or_none(),
                    ),
                    ..old(self)@.state
                },
                ..old(self)@
            }),
    {
        let ghost before = self.inner.output_services@;
        let services = match items.get("data") {
            Some(data) => data.copy(),
            None => items.copy(),
        };
        self.inner.output_services.insert(slot, Items { list: services.into_items() });
        assert(slots::views(self.inner.output_services@) == slots::views(before).insert(
            slot,
            unpacked(items@).items_or_none(),
        ));
    }

    /// Keeps the state of a card. Returns the state that was kept before.
    pub fn set_card_status(&mut self, slot: u32, status: Json) -> (r: Option<Json>)
        ensures
            final(self).valid() == old(self).valid(),
            final(self)@ == (SharedView {
                state: StateView {
                    card_status: old(self)@.state.card_status.insert(slot, status@),
                    ..old(self)@.state
                },
                ..old(self)@
            }),
            owned_view(r) == if old(self)@.state.card_status.contains_key(slot) {
                Some(old(self)@.state.card_status[slot])
            } else {
                None
            },
    {
        let ghost before = self.inner.card_status@;
        let prior = self.inner.card_status.insert(slot, status);
        assert(slots::views(self.inner.card_status@) == slots::views(before).insert(slot, status@));
        prior
    }

    /// Keeps the pool configuration of a card.
    pub fn set_pool_config(&mut self, slot: u32, v: Json)
        ensures
            final(self).valid() == old(self).valid(),
            final(self)@ == (SharedView {
                state: StateView {
                    pool_config: old(self)@.state.pool_config.insert(slot, v@),
                    ..old(self)@.state
                },
                ..old(self)@
            }),
    {
        let ghost before = self.inner.pool_config@;
        self.inner.pool_config.insert(slot, v);
        assert(slots::views(self.inner.pool_config@) == slots::views(before).insert(slot, v@));
    }

    /// Keeps the state of the redundancy groups of a card.
    pub fn set_redundancy_group_status(&mut self, slot: u32, v: Json)
        ensures
            final(self).valid() == old(self).valid(),
            final(self)@ == (SharedView {
                state: StateView {
                    redundancy_group_status: old(self)@.state.redundancy_group_status.insert(slot, v@),
                    ..old(self)@.state
                },
                ..old(self)@
            }),
    {
        let ghost before = self.inner.redundancy_group_status@;
        self.inner.redundancy_group_status.insert(slot, v);
        assert(slots::views(self.inner.redundancy_group_status@) == slots::views(before).insert(slot, v@));
    }

    /// Keeps the configuration of the encoders in a slot.
    pub fn set_hip_encoders(&mut self, slot: u32, v: Json)
        ensures
            final(self).valid() == old(self).valid(),
            final(self)@ == (SharedView {
                state: StateView {
                    hip_encoders: old(self)@.state.hip_encoders.insert(slot, v@),
                    ..old(self)@.state
                },
                ..old(self)@
            }),
    {
        let ghost before = self.inner.hip_encoders@;
        self.inner.hip_encoders.insert(slot, v);
        assert(slots::views(self.inner.hip_encoders@) == slots::views(before).insert(slot, v@));
    }

    /// Keeps the configuration of the decoders in a slot.
    pub fn set_hip_decoders(&mut self, slot: u32, v: Json)
        ensures
            final(self).valid() == old(self).valid(),
            final(self)@ == (SharedView {
                state: StateView {
                    hip_decoders: old(self)@.state.hip_decoders.insert(slot, v@),
                    ..old(self)@.state
                },
                ..old(self)@
            }),
    {
        let ghost before = self.inner.hip_decoders@;
        self.inner.hip_decoders.insert(slot, v);
        assert(slots::views(self.inner.hip_decoders@) == slots::views(before).insert(slot, v@));
    }

    /// Keeps the state of program insertion on a card.
    pub fn set_dpi_status(&mut self, slot: u32, v: Json)
        ensures
            final(self).valid() == old(self).valid(),
            final(self)@ == (SharedView {
                state: StateView {
                    dpi_status: old(self)@.state.dpi_status.insert(slot, v@),
                    ..old(self)@.state
                },
                ..old(self)@
            }),
    {
        let ghost before = self.inner.dpi_status@;
        self.inner.dpi_status.insert(slot, v);
        assert(slots::views(self.inner.dpi_status@) == slots::views(before).insert(slot, v@));
    }

    /// Keeps the state of event signalling on a card.
    pub fn set_esam_status(&mut self, slot: u32, v: Json)
        ensures
            final(self).valid() == old(self).valid(),
            final(self)@ == (SharedView {
                state: StateView {
                    esam_status: old(self)@.state.esam_status.insert(slot, v@),
                    ..old(self)@.state
                },
                ..old(self)@
            }),
    {
        let ghost before = self.inner.esam_status@;
        self.inner.esam_status.insert(slot, v);
        assert(slots::views(self.inner.esam_status@) == slots::views(before).insert(slot, v@));
    }

    /// Keeps the state of the placement servers on a card.
    pub fn set_pois_server_status(&mut self, slot: u32, v: Json)
        ensures
            final(self).valid() == old(self).valid(),
            final(self)@ == (SharedView {
                state: StateView {
                    pois_server_status: old(self)@.state.pois_server_status.insert(slot, v@),
                    ..old(self)@.state
                },
                ..old(self)@
            }),
    {
        let ghost before = self.inner.pois_server_status@;
        self.inner.pois_server_status.insert(slot, v);
        assert(slots::views(self.inner.pois_server_status@) == slots::views(before).insert(slot, v@));
    }

    /// Keeps whether the inputs of a card are locked.
    pub fn set_lock_status(&mut self, slot: u32, v: Json)
        ensures
            final(self).valid() == old(self).valid(),
            final(self)@ == (SharedView {
                state: StateView {
                    lock_status: old(self)@.state.lock_status.insert(slot, v@),
                    ..old(self)@.state
                },
                ..old(self)@
            }),
    {
        let ghost before = self.inner.lock_status@;
        self.inner.lock_status.insert(slot, v);
        assert(slots::views(self.inner.lock_status@) == slots::views(before).insert(slot, v@));
    }

    /// Keeps the tables that a card decoded.
    pub fn set_psi_status(&mut self, slot: u32, v: Json)
        ensures
            final(self).valid() == old(self).valid(),
            final(self)@ == (SharedView {
                state: StateView {
                    psi_status: old(self)@.state.psi_status.insert(slot, v@),
                    ..old(self)@.state
                },
                ..old(self)@
            }),
    {
        let ghost before = self.inner.psi_status@;
        self.inner.psi_status.insert(slot, v);
        assert(slots::views(self.inner.psi_status@) == slots::views(before).insert(slot, v@));
    }

    /// The version under which a module answered on a slot when the unit was discovered.
    pub fn discovered_version(&self, slot: u32, interface: &str, module: &str) -> (r: Option<
        String,
    >)
        ensures
            json::string_view(r) == version_on(self@.caps, slot, interface@, module@),
    {
        match self.caps.slots.get(&slot) {
            Some(s) => s.module_version(interface, module),
            None => None,
        }
    }

    /// The version of the first module of an interface that answered on a slot.
    pub fn any_interface_version(&self, slot: u32, interface: &str) -> (r: Option<String>)
        ensures
            json::string_view(r) == if self@.caps.slots.contains_key(slot) {
                match capabilities::find_interface(self@.caps.slots[slot].modules, interface@) {
                    Some(rec) => Some(rec.version),
                    None => None,
                }
            } else {
                None
            },
    {
        match self.caps.slots.get(&slot) {
            Some(s) => s.any_interface_version(interface),
            None => None,
        }
    }

    /// The whole state as one message, now.
    pub fn snapshot(&self) -> (r: Json)
        ensures
            exists|uptime: u64| r@ == #[trigger] snapshot_of(self@, uptime),
    {
        let uptime: u64 = elapsed_secs(&self.started_at);
        self.snapshot_at(uptime)
    }

    /// The whole state as one message, the given number of seconds after the start.
    pub fn snapshot_at(&self, uptime: u64) -> (r: Json)
        ensures
            r@ == snapshot_of(self@, uptime),
    {
        let mut o = Object::new();
        o.set("status", Json::from_text(self.inner.status.as_str()));
        o.set("version", Json::from_text(self.version));
        o.set("uptime_secs", Json::from_u64(uptime));
        o.set("chassis_model", Json::from_text(self.caps.chassis_type.as_str()));
        o.set("appear_x_address", Json::from_text(self.appear_x_address.as_str()));
        o.set("chassis", copy_owned(&self.inner.chassis));
        o.set("chassis_info", copy_owned(&self.inner.chassis_info));
        o.set("card_states", Json::Array(json::copy_items(&self.inner.card_states)));
        o.set("slots", make_slots_json(&self.caps.slots));
        o.set("alarms", Json::Array(json::copy_items(&self.inner.alarms)));
        o.set("inputs", flatten_with_slot(&self.inner.inputs));
        o.set("outputs", flatten_with_slot(&self.inner.outputs));
        o.set("ip_interfaces", flatten_with_slot(&self.inner.ip_interfaces));
        o.set("coder_services", flatten_with_slot(&self.inner.coder_services));
        o.set("multi_services", flatten_with_slot(&self.inner.multi_services));
        o.set("audio_profiles", flatten_with_slot(&self.inner.audio_profiles));
        o.set("xger_ip_interfaces", flatten_with_slot(&self.inner.xger_ip_interfaces));
        o.set("card_allocations", flatten_with_slot(&self.inner.card_allocations));
        o.set("output_services", flatten_with_slot(&self.inner.output_services));
        o.set("ip_connections", flatten_with_slot(&self.inner.ip_connections));
        o.set("redundancy_groups", flatten_with_slot(&self.inner.redundancy_groups));
        o.set("redundancy_group_status", slot_map_to_json(&self.inner.redundancy_group_status));
        o.set("card_status", slot_map_to_json(&self.inner.card_status));
        o.set("pool_config", slot_map_to_json(&self.inner.pool_config));
        o.set("lock_status", slot_map_to_json(&self.inner.lock_status));
        o.set("psi_status", slot_map_to_json(&self.inner.psi_status));
        o.set("hip_encoders", slot_map_to_json(&self.inner.hip_encoders));
        o.set("hip_decoders", slot_map_to_json(&self.inner.hip_decoders));
        o.set("dpi_status", slot_map_to_json(&self.inner.dpi_status));
        o.set("esam_status", slot_map_to_json(&self.inner.esam_status));
        o.set("pois_server_status", slot_map_to_json(&self.inner.pois_server_status));
        o.set("health_signals", health::derive_health_signals(&self.inner.card_status));
        Json::Object(o)
    }
}

/// What an answer holds under `data`; the answer itself where it is in no such envelope.
pub open spec fn unpacked(answer: JsonView) -> JsonView {
    json::value_or(answer.get("data"@), answer)
}

/// The version under which a module answered on a slot.
pub open spec fn version_on(
    caps: DeviceView,
    slot: u32,
    interface: Seq<char>,
    module: Seq<char>,
) -> Option<Seq<char>> {
    if caps.slots.contains_key(slot) {
        caps.slots[slot].version_of(interface, module)
    } else {
        None
    }
}

/// The whole state as one message.
pub open spec fn snapshot_of(s: SharedView, uptime: u64) -> JsonView {
    let m = Map::empty();
    let m = m.insert("status"@, JsonView::Text(s.state.status));
    let m = m.insert("version"@, JsonView::Text(s.version));
    let m = m.insert("uptime_secs"@, JsonView::of_unsigned(uptime as nat));
    let m = m.insert("chassis_model"@, JsonView::Text(s.caps.chassis_type));
    let m = m.insert("appear_x_address"@, JsonView::Text(s.address));
    let m = m.insert("chassis"@, json::value_or(s.state.chassis, JsonView::Null));
    let m = m.insert("chassis_info"@, json::value_or(s.state.chassis_info, JsonView::Null));
    let m = m.insert("card_states"@, JsonView::Array(s.state.card_states));
    let m = m.insert("slots"@, JsonView::Array(slots_json(s.caps.slots)));
    let m = m.insert("alarms"@, JsonView::Array(s.state.alarms));
    let m = m.insert("inputs"@, JsonView::Array(flattened(s.state.inputs)));
    let m = m.insert("outputs"@, JsonView::Array(flattened(s.state.outputs)));
    let m = m.insert("ip_interfaces"@, JsonView::Array(flattened(s.state.ip_interfaces)));
    let m = m.insert("coder_services"@, JsonView::Array(flattened(s.state.coder_services)));
    let m = m.insert("multi_services"@, JsonView::Array(flattened(s.state.multi_services)));
    let m = m.insert("audio_profiles"@, JsonView::Array(flattened(s.state.audio_profiles)));
    let m = m.insert("xger_ip_interfaces"@, JsonView::Array(flattened(s.state.xger_ip_interfaces)));
    let m = m.insert("card_allocations"@, JsonView::Array(flattened(s.state.card_allocations)));
    let m = m.insert("output_services"@, JsonView::Array(flattened(s.state.output_services)));
    let m = m.insert("ip_connections"@, JsonView::Array(flattened(s.state.ip_connections)));
    let m = m.insert("redundancy_groups"@, JsonView::Array(flattened(s.state.redundancy_groups)));
    let m = m.insert("redundancy_group_status"@, JsonView::Object(by_slot(s.state.redundancy_group_status)));
    let m = m.insert("card_status"@, JsonView::Object(by_slot(s.state.card_status)));
    let m = m.insert("pool_config"@, JsonView::Object(by_slot(s.state.pool_config)));
    let m = m.insert("lock_status"@, JsonView::Object(by_slot(s.state.lock_status)));
    let m = m.insert("psi_status"@, JsonView::Object(by_slot(s.state.psi_status)));
    let m = m.insert("hip_encoders"@, JsonView::Object(by_slot(s.state.hip_encoders)));
    let m = m.insert("hip_decoders"@, JsonView::Object(by_slot(s.state.hip_decoders)));
    let m = m.insert("dpi_status"@, JsonView::Object(by_slot(s.state.dpi_status)));
    let m = m.insert("esam_status"@, JsonView::Object(by_slot(s.state.esam_status)));
    let m = m.insert("pois_server_status"@, JsonView::Object(by_slot(s.state.pois_server_status)));
    let m = m.insert("health_signals"@, health::health_signals(s.state.card_status));
    JsonView::Object(m)
}

/// A value with the slot that it was found on. Only objects can tell.
pub open spec fn with_slot(item: JsonView, slot: u32) -> JsonView {
    match item {
        JsonView::Object(m) => JsonView::Object(
            m.insert("slot"@, JsonView::of_unsigned(slot as nat)),
        ),
        _ => item,
    }
}

/// The values of a slot, each with the slot.
pub open spec fn slot_items(items: Seq<JsonView>, slot: u32) -> Seq<JsonView> {
    items.map_values(|j: JsonView| with_slot(j, slot))
}

/// Adds the values of one slot.
pub open spec fn add_items() -> spec_fn(Seq<JsonView>, u32, Seq<JsonView>) -> Seq<JsonView> {
    |list: Seq<JsonView>, slot: u32, items: Seq<JsonView>| list + slot_items(items, slot)
}

/// The values of all slots in slot order, each with the slot that it was found on.
pub open spec fn flattened(m: Map<u32, Seq<JsonView>>) -> Seq<JsonView> {
    slots::fold_slots(m, slots::slot_limit(), Seq::empty(), add_items())
}

/// Adds the value of one slot.
pub open spec fn add_value() -> spec_fn(Map<Seq<char>, JsonView>, u32, JsonView) -> Map<
    Seq<char>,
    JsonView,
> {
    |m: Map<Seq<char>, JsonView>, slot: u32, v: JsonView| m.insert(text::decimal(slot as nat), v)
}

/// The values of all slots, each under its slot number.
pub open spec fn by_slot(m: Map<u32, JsonView>) -> Map<Seq<char>, JsonView> {
    slots::fold_slots(m, slots::slot_limit(), Map::empty(), add_value())
}

/// A module as it is reported.
pub open spec fn module_json(r: RecordView) -> JsonView {
    JsonView::Object(
        Map::empty().insert("family"@, JsonView::Text(r.family)).insert(
            "interface"@,
            JsonView::Text(r.interface),
        ).insert("module"@, JsonView::Text(r.module)).insert("version"@, JsonView::Text(r.version)),
    )
}

/// Texts as they are reported.
pub open spec fn texts_json(s: Seq<Seq<char>>) -> JsonView {
    JsonView::Array(s.map_values(|t: Seq<char>| JsonView::Text(t)))
}

/// A slot as it is reported.
pub open spec fn slot_json(s: SlotView) -> JsonView {
    JsonView::Object(
        Map::empty().insert("slot"@, JsonView::of_unsigned(s.slot as nat)).insert(
            "name"@,
            JsonView::Text(s.name),
        ).insert("serial"@, JsonView::Text(s.serial)).insert(
            "software_id"@,
            JsonView::of_text(s.software_id),
        ).insert("software_display_name"@, JsonView::of_text(s.software_display_name)).insert(
            "software_version"@,
            JsonView::of_text(s.software_version),
        ).insert("features"@, texts_json(s.features)).insert(
            "discovered_modules"@,
            JsonView::Array(s.modules.map_values(|r: RecordView| module_json(r))),
        ),
    )
}

/// Adds one slot.
pub open spec fn add_slot_json() -> spec_fn(Seq<JsonView>, u32, SlotView) -> Seq<JsonView> {
    |list: Seq<JsonView>, slot: u32, s: SlotView| list.push(slot_json(s))
}

/// All slots as they are reported, in slot order.
pub open spec fn slots_json(m: Map<u32, SlotView>) -> Seq<JsonView> {
    slots::fold_slots(m, slots::slot_limit(), Seq::empty(), add_slot_json())
}

fn copy_owned(o: &Option<Json>) -> (r: Json)
    ensures
        r@ == json::value_or(owned_view(*o), JsonView::Null),
{
    match o {
        Some(j) => j.copy(),
        None => Json::Null,
    }
}

fn copy_with_slot(item: &Json, slot: u32) -> (r: Json)
    ensures
        r@ == with_slot(item@, slot),
{
    match item {
        Json::Object(o) => {
            let mut copy = o.copy();
            copy.set("slot", Json::from_u64(slot as u64));
            Json::Object(copy)
        },
        other => other.copy(),
    }
}

/// The values of all slots as one array, each with the slot that it was found on.
pub fn flatten_with_slot(map: &BTreeMap<u32, Items>) -> (r: Json)
    ensures
        r@ == JsonView::Array(flattened(slots::views(map@))),
{
    let entries = slots::entries_of(map);
    let mut out: Vec<Json> = Vec::new();
    let n: usize = entries.len();
    let ghost none = Seq::<JsonView>::empty();
    assert(json::items_view(out@) == none);
    for i in 0..n
        invariant
            n == entries@.len(),
            none == Seq::<JsonView>::empty(),
            slots::lists(entries@, map@),
            json::items_view(out@) == slots::fold_slots(
                slots::views(map@),
                slots::bound(entries@, i as int),
                none,
                add_items(),
            ),
    {
        proof {
            slots::lemma_fold_step_views(entries@, map@, i as int, none, add_items());
        }
        let ghost before = json::items_view(out@);
        let slot: u32 = entries[i].0;
        let items = &entries[i].1.list;
        let ghost all = slot_items(json::items_view(items@), slot);
        assert(before + all.take(0) == before);
        for j in 0..items.len()
            invariant
                all == slot_items(json::items_view(items@), slot),
                json::items_view(out@) == before + all.take(j as int),
        {
            let ghost so_far = json::items_view(out@);
            let item = copy_with_slot(&items[j], slot);
            let ghost v = item@;
            out.push(item);
            assert(json::items_view(out@) == so_far.push(v));
            assert(all.take(j + 1) == all.take(j as int).push(v));
            assert(json::items_view(out@) == before + all.take(j + 1));
        }
        assert(all.take(all.len() as int) == all);
    }
    proof {
        slots::lemma_fold_end_views(entries@, map@, none, add_items());
    }
    Json::Array(out)
}

/// The values of all slots as one object, each under its slot number.
pub fn slot_map_to_json(map: &BTreeMap<u32, Json>) -> (r: Json)
    ensures
        r@ == JsonView::Object(by_slot(slots::views(map@))),
{
    let entries = slots::entries_of(map);
    let mut out = Object::new();
    let n: usize = entries.len();
    let ghost none = Map::<Seq<char>, JsonView>::empty();
    for i in 0..n
        invariant
            n == entries@.len(),
            none == Map::<Seq<char>, JsonView>::empty(),
            slots::lists(entries@, map@),
            out@ == slots::fold_slots(
                slots::views(map@),
                slots::bound(entries@, i as int),
                none,
                add_value(),
            ),
    {
        proof {
            slots::lemma_fold_step_views(entries@, map@, i as int, none, add_value());
        }
        out.set(text::decimal_of(entries[i].0 as u64).as_str(), entries[i].1.copy());
    }
    proof {
        slots::lemma_fold_end_views(entries@, map@, none, add_value());
    }
    Json::Object(out)
}

fn make_module_json(r: &DiscoveredInterfaceRecord) -> (j: Json)
    ensures
        j@ == module_json(r@),
{
    let mut o = Object::new();
    o.set("family", Json::from_text(r.family.as_str()));
    o.set("interface", Json::from_text(r.interface.as_str()));
    o.set("module", Json::from_text(r.module.as_str()));
    o.set("version", Json::from_text(r.version.as_str()));
    Json::Object(o)
}

/// Texts as an array.
pub fn make_texts_json(texts: &Vec<String>) -> (r: Json)
    ensures
        r@ == texts_json(json::strings_view(texts@)),
{
    let mut out: Vec<Json> = Vec::new();
    for i in 0..texts.len()
        invariant
            out@.len() == i,
            forall|k: int| 0 <= k < i ==> (#[trigger] out@[k])@ == JsonView::Text(texts@[k]@),
    {
        out.push(Json::from_text(texts[i].as_str()));
    }
    assert(json::items_view(out@) == json::strings_view(texts@).map_values(
        |t: Seq<char>| JsonView::Text(t),
    ));
    Json::Array(out)
}

fn slot_to_json(s: &SlotCapabilities) -> (r: Json)
    ensures
        r@ == slot_json(s@),
{
    let mut modules: Vec<Json> = Vec::new();
    for i in 0..s.discovered_modules.len()
        invariant
            modules@.len() == i,
            forall|k: int|
                0 <= k < i ==> (#[trigger] modules@[k])@ == module_json(
                    s.discovered_modules@[k]@,
                ),
    {
        modules.push(make_module_json(&s.discovered_modules[i]));
    }
    assert(json::items_view(modules@) == s@.modules.map_values(|r: RecordView| module_json(r)));
    let mut o = Object::new();
    o.set("slot", Json::from_u64(s.slot as u64));
    o.set("name", Json::from_text(s.name.as_str()));
    o.set("serial", Json::from_text(s.serial.as_str()));
    o.set("software_id", Json::from_option(s.software_id.as_ref()));
    o.set("software_display_name", Json::from_option(s.software_display_name.as_ref()));
    o.set("software_version", Json::from_option(s.software_version.as_ref()));
    o.set("features", make_texts_json(&s.features));
    o.set("discovered_modules", Json::Array(modules));
    Json::Object(o)
}

fn make_slots_json(map: &BTreeMap<u32, SlotCapabilities>) -> (r: Json)
    ensures
        r@ == JsonView::Array(slots_json(slots::views(map@))),
{
    let entries = slots::entries_of(map);
    let mut out: Vec<Json> = Vec::new();
    let n: usize = entries.len();
    let ghost none = Seq::<JsonView>::empty();
    assert(json::items_view(out@) == none);
    for i in 0..n
        invariant
            n == entries@.len(),
            none == Seq::<JsonView>::empty(),
            slots::lists(entries@, map@),
            json::items_view(out@) == slots::fold_slots(
                slots::views(map@),
                slots::bound(entries@, i as int),
                none,
                add_slot_json(),
            ),
    {
        proof {
            slots::lemma_fold_step_views(entries@, map@, i as int, none, add_slot_json());
        }
        let ghost before = json::items_view(out@);
        let item = slot_to_json(entries[i].1);
        let ghost v = item@;
        out.push(item);
        assert(json::items_view(out@) == before.push(v));
    }
    proof {
        slots::lemma_fold_end_views(entries@, map@, none, add_slot_json());
    }
    Json::Array(out)
}

proof fn lemma_none_new(alarms: Seq<JsonView>, known: Set<Seq<char>>)
    requires
        forall|i: int|
            0 <= i < alarms.len() ==> (alarm_id(#[trigger] alarms[i]) is None || known.contains(
                alarm_id(alarms[i])->0,
            )),
    ensures
        alarms_not_in(alarms, known).len() == 0,
    decreases alarms.len(),
{
    if alarms.len() > 0 {
        let fewer = alarms.drop_last();
        assert forall|i: int| 0 <= i < fewer.len() implies (alarm_id(#[trigger] fewer[i]) is None
            || known.contains(alarm_id(fewer[i])->0)) by {
            assert(fewer[i] == alarms[i]);
        }
        lemma_none_new(fewer, known);
        assert(alarm_id(alarms[alarms.len() - 1]) is None || known.contains(
            alarm_id(alarms[alarms.len() - 1])->0,
        ));
    }
}

/// A poll that finds the alarms of the last poll again finds no new one and none that is gone.
pub proof fn law_same_alarms_change_nothing(alarms: Seq<JsonView>)
    ensures
        alarms_not_in(alarms, alarm_ids(alarms)).len() == 0,
        alarm_ids(alarms).difference(alarm_ids(alarms)) == Set::<Seq<char>>::empty(),
{
    assert forall|i: int| 0 <= i < alarms.len() implies (alarm_id(#[trigger] alarms[i]) is None
        || alarm_ids(alarms).contains(alarm_id(alarms[i])->0)) by {}
    lemma_none_new(alarms, alarm_ids(alarms));
    assert(alarm_ids(alarms).difference(alarm_ids(alarms)) =~= Set::<Seq<char>>::empty());
}

/// An alarm is new exactly if it is there, has an identifier and had not been there before.
pub proof fn law_new_alarms(alarms: Seq<JsonView>, known: Set<Seq<char>>, a: JsonView)
    ensures
        alarms_not_in(alarms, known).contains(a) <==> {
            &&& alarms.contains(a)
            &&& alarm_id(a) is Some
            &&& !known.contains(alarm_id(a)->0)
        },
    decreases alarms.len(),
{
    let new = alarms_not_in(alarms, known);
    if alarms.len() > 0 {
        let fewer = alarms.drop_last();
        let before = alarms_not_in(fewer, known);
        let last = alarms.last();
        law_new_alarms(fewer, known, a);
        if fewer.contains(a) {
            let i = choose|i: int| 0 <= i < fewer.len() && fewer[i] == a;
            assert(alarms[i] == a);
        }
        if alarms.contains(a) && a != last {
            let i = choose|i: int| 0 <= i < alarms.len() && alarms[i] == a;
            assert(fewer[i] == a);
        }
        assert(alarms[alarms.len() - 1] == last);
        if new == before.push(last) {
            if before.contains(a) {
                let i = choose|i: int| 0 <= i < before.len() && before[i] == a;
                assert(new[i] == a);
            }
            assert(new[new.len() - 1] == last);
            if new.contains(a) && a != last {
                let i = choose|i: int| 0 <= i < new.len() && new[i] == a;
                assert(before[i] == a);
            }
        }
    }
}

/// Counts the values of one slot.
pub open spec fn count_items() -> spec_fn(nat, u32, Seq<JsonView>) -> nat {
    |n: nat, slot: u32, items: Seq<JsonView>| n + items.len()
}

spec fn flat(m: Map<u32, Seq<JsonView>>, n: nat) -> Seq<JsonView> {
    slots::fold_slots(m, n, Seq::empty(), add_items())
}

proof fn lemma_flattened(m: Map<u32, Seq<JsonView>>, n: nat)
    requires
        n <= slots::slot_limit(),
    ensures
        flat(m, n).len() == slots::fold_slots(m, n, 0nat, count_items()),
        forall|at: int|
            0 <= at < flat(m, n).len() ==> exists|slot: u32, i: int|
                slot < n && m.contains_key(slot) && 0 <= i < m[slot].len() && (#[trigger] flat(
                    m,
                    n,
                )[at]) == #[trigger] with_slot(m[slot][i], slot),
        forall|slot: u32, i: int|
            slot < n && m.contains_key(slot) && 0 <= i < m[slot].len() ==> flat(m, n).contains(
                #[trigger] with_slot(m[slot][i], slot),
            ),
    decreases n,
{
    if n > 0 {
        let before = flat(m, (n - 1) as nat);
        let all = flat(m, n);
        let here = (n - 1) as u32;
        lemma_flattened(m, (n - 1) as nat);
        if m.contains_key(here) {
            let added = slot_items(m[here], here);
            assert(all == before + added);
            assert forall|at: int| 0 <= at < all.len() implies exists|slot: u32, i: int|
                slot < n && m.contains_key(slot) && 0 <= i < m[slot].len() && (
                #[trigger] all[at]) == #[trigger] with_slot(m[slot][i], slot) by {
                if at < before.len() {
                    assert(before[at] == all[at]);
                } else {
                    let i = at - before.len();
                    assert(all[at] == with_slot(m[here][i], here));
                }
            }
            assert forall|slot: u32, i: int|
                slot < n && m.contains_key(slot) && 0 <= i < m[slot].len() implies all.contains(
                #[trigger] with_slot(m[slot][i], slot),
            ) by {
                if slot < n - 1 {
                    let v = with_slot(m[slot][i], slot);
                    let at = choose|at: int| 0 <= at < before.len() && before[at] == v;
                    assert(all[at] == v);
                } else {
                    assert(slot == here);
                    assert(all[before.len() + i] == with_slot(m[slot][i], slot));
                }
            }
        } else {
            assert(all == before);
        }
    }
}

/// The flat list holds what the slots hold and nothing else, each value with its slot, and as many
/// values as the slots hold together.
pub proof fn law_flattened(m: Map<u32, Seq<JsonView>>)
    ensures
        flattened(m).len() == slots::fold_slots(m, slots::slot_limit(), 0nat, count_items()),
        forall|at: int|
            0 <= at < flattened(m).len() ==> exists|slot: u32, i: int|
                m.contains_key(slot) && 0 <= i < m[slot].len() && (#[trigger] flattened(m)[at])
                    == #[trigger] with_slot(m[slot][i], slot),
        forall|slot: u32, i: int|
            m.contains_key(slot) && 0 <= i < m[slot].len() ==> flattened(m).contains(
                #[trigger] with_slot(m[slot][i], slot),
            ),
{
    lemma_flattened(m, slots::slot_limit());
    assert(flattened(m) == flat(m, slots::slot_limit()));
    assert forall|slot: u32, i: int|
        m.contains_key(slot) && 0 <= i < m[slot].len() implies flattened(m).contains(
        #[trigger] with_slot(m[slot][i], slot),
    ) by {
        assert(slot < slots::slot_limit());
    }
}

/// How many values the slots below the given one hold.
pub open spec fn items_below(m: Map<u32, Seq<JsonView>>, slot: nat) -> nat {
    slots::fold_slots(m, slot, 0nat, count_items())
}

proof fn lemma_flat_grows(m: Map<u32, Seq<JsonView>>, low: nat, high: nat)
    requires
        low <= high <= slots::slot_limit(),
    ensures
        flat(m, low).len() == items_below(m, low),
        flat(m, low).is_prefix_of(flat(m, high)),
    decreases high,
{
    lemma_flattened(m, low);
    if low < high {
        lemma_flat_grows(m, low, (high - 1) as nat);
        let here = (high - 1) as u32;
        if m.contains_key(here) {
            assert(flat(m, high) == flat(m, (high - 1) as nat) + slot_items(m[here], here));
        } else {
            assert(flat(m, high) == flat(m, (high - 1) as nat));
        }
        assert(flat(m, low) == flat(m, high).take(flat(m, low).len() as int));
    } else {
        assert(flat(m, low) == flat(m, high).take(flat(m, low).len() as int));
    }
}

/// The flat list is in slot order: a value stands behind all values of the lower slots and behind
/// those that go before it on its own slot.
pub proof fn law_flattened_in_slot_order(m: Map<u32, Seq<JsonView>>, slot: u32, i: int)
    requires
        m.contains_key(slot),
        0 <= i < m[slot].len(),
    ensures
        items_below(m, slot as nat) + i < flattened(m).len(),
        flattened(m)[items_below(m, slot as nat) + i] == with_slot(m[slot][i], slot),
        forall|higher: u32|
            higher > slot ==> items_below(m, slot as nat) + m[slot].len() <= #[trigger] items_below(
                m,
                higher as nat,
            ),
{
    let n = (slot + 1) as nat;
    let before = flat(m, slot as nat);
    lemma_flattened(m, slot as nat);
    lemma_flattened(m, n);
    assert((n - 1) as u32 == slot);
    assert(flat(m, n) == before + slot_items(m[slot], slot));
    lemma_flat_grows(m, n, slots::slot_limit());
    let at = items_below(m, slot as nat) + i;
    assert(flat(m, n)[at] == with_slot(m[slot][i], slot));
    assert(flattened(m) == flat(m, slots::slot_limit()));
    assert(flat(m, n)[at] == flattened(m)[at]);
    assert forall|higher: u32| higher > slot implies items_below(m, slot as nat) + m[slot].len()
        <= #[trigger] items_below(m, higher as nat) by {
        lemma_flat_grows(m, n, higher as nat);
        lemma_flat_grows(m, higher as nat, higher as nat);
    }
}

/// An object in the flat list tells the slot that it was found on.
pub proof fn law_item_tells_slot(item: JsonView, slot: u32)
    requires
        item is Object,
    ensures
        with_slot(item, slot).get("slot"@) == Some(JsonView::of_unsigned(slot as nat)),
        forall|key: Seq<char>|
            key != "slot"@ ==> #[trigger] with_slot(item, slot).get(key) == item.get(key),
{
}

proof fn lemma_by_slot(m: Map<u32, JsonView>, n: nat, slot: u32)
    requires
        n <= slots::slot_limit(),
    ensures
        ({
            let all = slots::fold_slots(m, n, Map::empty(), add_value());
            let key = text::decimal(slot as nat);
            &&& all.contains_key(key) <==> slot < n && m.contains_key(slot)
            &&& slot < n && m.contains_key(slot) ==> all[key] == m[slot]
        }),
    decreases n,
{
    if n > 0 {
        lemma_by_slot(m, (n - 1) as nat, slot);
        let here = (n - 1) as u32;
        if text::decimal(here as nat) == text::decimal(slot as nat) {
            text::lemma_decimal_injective(here as nat, slot as nat);
        }
    }
}

/// What a slot holds is reported under the slot's number, and nothing is reported for a slot that
/// holds nothing.
pub proof fn law_by_slot(m: Map<u32, JsonView>, slot: u32)
    ensures
        JsonView::Object(by_slot(m)).get(text::decimal(slot as nat)) == if m.contains_key(slot) {
            Some(m[slot])
        } else {
            None
        },
{
    lemma_by_slot(m, slots::slot_limit(), slot);
}

/// Whether a list reports everything that was kept for the slots: each value with its slot, and in
/// slot order.
pub open spec fn lists_all(reported: Option<JsonView>, kept: Map<u32, Seq<JsonView>>) -> bool {
    &&& reported matches Some(JsonView::Array(list)) && list.len() == items_below(
        kept,
        slots::slot_limit(),
    )
    &&& forall|slot: u32, i: int|
        kept.contains_key(slot) && 0 <= i < kept[slot].len() ==> health::items_or_none(
            reported,
        )[items_below(kept, slot as nat) + i] == #[trigger] with_slot(kept[slot][i], slot)
}

/// Whether an object reports for each slot what was kept for it, under the slot's number, and nothing
/// for any other.
pub open spec fn tells_all(reported: Option<JsonView>, kept: Map<u32, JsonView>) -> bool {
    forall|slot: u32|
        #[trigger] json::member_of(reported, text::decimal(slot as nat))
            == if kept.contains_key(slot) {
            Some(kept[slot])
        } else {
            None
        }
}

proof fn lemma_lists_all(kept: Map<u32, Seq<JsonView>>)
    ensures
        lists_all(Some(JsonView::Array(flattened(kept))), kept),
{
    law_flattened(kept);
    let reported = Some(JsonView::Array(flattened(kept)));
    assert forall|slot: u32, i: int|
        kept.contains_key(slot) && 0 <= i < kept[slot].len() implies health::items_or_none(
        reported,
    )[items_below(kept, slot as nat) + i] == #[trigger] with_slot(kept[slot][i], slot) by {
        law_flattened_in_slot_order(kept, slot, i);
    }
}

proof fn lemma_tells_all(kept: Map<u32, JsonView>)
    ensures
        tells_all(Some(JsonView::Object(by_slot(kept))), kept),
{
    assert forall|slot: u32|
        #[trigger] json::member_of(
            Some(JsonView::Object(by_slot(kept))),
            text::decimal(slot as nat),
        ) == if kept.contains_key(slot) {
            Some(kept[slot])
        } else {
            None
        } by {
        law_by_slot(kept, slot);
    }
}

/// What was last kept for a slot is what a snapshot reports for it.
pub proof fn law_snapshot_reads_back(s: SharedView, uptime: u64)
    ensures
        lists_all(snapshot_of(s, uptime).get("inputs"@), s.state.inputs),
        lists_all(snapshot_of(s, uptime).get("outputs"@), s.state.outputs),
        lists_all(snapshot_of(s, uptime).get("ip_interfaces"@), s.state.ip_interfaces),
        lists_all(snapshot_of(s, uptime).get("coder_services"@), s.state.coder_services),
        lists_all(snapshot_of(s, uptime).get("multi_services"@), s.state.multi_services),
        lists_all(snapshot_of(s, uptime).get("audio_profiles"@), s.state.audio_profiles),
        lists_all(snapshot_of(s, uptime).get("xger_ip_interfaces"@), s.state.xger_ip_interfaces),
        lists_all(snapshot_of(s, uptime).get("card_allocations"@), s.state.card_allocations),
        lists_all(snapshot_of(s, uptime).get("output_services"@), s.state.output_services),
        lists_all(snapshot_of(s, uptime).get("ip_connections"@), s.state.ip_connections),
        lists_all(snapshot_of(s, uptime).get("redundancy_groups"@), s.state.redundancy_groups),
        tells_all(snapshot_of(s, uptime).get("redundancy_group_status"@), s.state.redundancy_group_status),
        tells_all(snapshot_of(s, uptime).get("card_status"@), s.state.card_status),
        tells_all(snapshot_of(s, uptime).get("pool_config"@), s.state.pool_config),
        tells_all(snapshot_of(s, uptime).get("lock_status"@), s.state.lock_status),
        tells_all(snapshot_of(s, uptime).get("psi_status"@), s.state.psi_status),
        tells_all(snapshot_of(s, uptime).get("hip_encoders"@), s.state.hip_encoders),
        tells_all(snapshot_of(s, uptime).get("hip_decoders"@), s.state.hip_decoders),
        tells_all(snapshot_of(s, uptime).get("dpi_status"@), s.state.dpi_status),
        tells_all(snapshot_of(s, uptime).get("esam_status"@), s.state.esam_status),
        tells_all(snapshot_of(s, uptime).get("pois_server_status"@), s.state.pois_server_status),
{
    law_snapshot_members(s, uptime);
    lemma_lists_all(s.state.inputs);
    lemma_lists_all(s.state.outputs);
    lemma_lists_all(s.state.ip_interfaces);
    lemma_lists_all(s.state.coder_services);
    lemma_lists_all(s.state.multi_services);
    lemma_lists_all(s.state.audio_profiles);
    lemma_lists_all(s.state.xger_ip_interfaces);
    lemma_lists_all(s.state.card_allocations);
    lemma_lists_all(s.state.output_services);
    lemma_lists_all(s.state.ip_connections);
    lemma_lists_all(s.state.redundancy_groups);
    lemma_tells_all(s.state.redundancy_group_status);
    lemma_tells_all(s.state.card_status);
    lemma_tells_all(s.state.pool_config);
    lemma_tells_all(s.state.lock_status);
    lemma_tells_all(s.state.psi_status);
    lemma_tells_all(s.state.hip_encoders);
    lemma_tells_all(s.state.hip_decoders);
    lemma_tells_all(s.state.dpi_status);
    lemma_tells_all(s.state.esam_status);
    lemma_tells_all(s.state.pois_server_status);
}

/// Tells the names in a snapshot apart by their length and some of their letters.
spec fn mark(name: Seq<char>) -> int {
    ((name.len() * 256 + name[0] as int) * 256 + name[4] as int) * 256 + name[name.len() - 2] as int
}

/// A snapshot reports everything that is known, each under its own name.
pub proof fn law_snapshot_members(s: SharedView, uptime: u64)
    ensures
        snapshot_of(s, uptime).get("status"@) == Some(
            JsonView::Text(s.state.status),
        ),
        snapshot_of(s, uptime).get("version"@) == Some(
            JsonView::Text(s.version),
        ),
        snapshot_of(s, uptime).get("uptime_secs"@) == Some(
            JsonView::of_unsigned(uptime as nat),
        ),
        snapshot_of(s, uptime).get("chassis_model"@) == Some(
            JsonView::Text(s.caps.chassis_type),
        ),
        snapshot_of(s, uptime).get("appear_x_address"@) == Some(
            JsonView::Text(s.address),
        ),
        snapshot_of(s, uptime).get("chassis"@) == Some(
            json::value_or(s.state.chassis, JsonView::Null),
        ),
        snapshot_of(s, uptime).get("chassis_info"@) == Some(
            json::value_or(s.state.chassis_info, JsonView::Null),
        ),
        snapshot_of(s, uptime).get("card_states"@) == Some(
            JsonView::Array(s.state.card_states),
        ),
        snapshot_of(s, uptime).get("slots"@) == Some(
            JsonView::Array(slots_json(s.caps.slots)),
        ),
        snapshot_of(s, uptime).get("alarms"@) == Some(
            JsonView::Array(s.state.alarms),
        ),
        snapshot_of(s, uptime).get("inputs"@) == Some(
            JsonView::Array(flattened(s.state.inputs)),
        ),
        snapshot_of(s, uptime).get("outputs"@) == Some(
            JsonView::Array(flattened(s.state.outputs)),
        ),
        snapshot_of(s, uptime).get("ip_interfaces"@) == Some(
            JsonView::Array(flattened(s.state.ip_interfaces)),
        ),
        snapshot_of(s, uptime).get("coder_services"@) == Some(
            JsonView::Array(flattened(s.state.coder_services)),
        ),
        snapshot_of(s, uptime).get("multi_services"@) == Some(
            JsonView::Array(flattened(s.state.multi_services)),
        ),
        snapshot_of(s, uptime).get("audio_profiles"@) == Some(
            JsonView::Array(flattened(s.state.audio_profiles)),
        ),
        snapshot_of(s, uptime).get("xger_ip_interfaces"@) == Some(
            JsonView::Array(flattened(s.state.xger_ip_interfaces)),
        ),
        snapshot_of(s, uptime).get("card_allocations"@) == Some(
            JsonView::Array(flattened(s.state.card_allocations)),
        ),
        snapshot_of(s, uptime).get("output_services"@) == Some(
            JsonView::Array(flattened(s.state.output_services)),
        ),
        snapshot_of(s, uptime).get("ip_connections"@) == Some(
            JsonView::Array(flattened(s.state.ip_connections)),
        ),
        snapshot_of(s, uptime).get("redundancy_groups"@) == Some(
            JsonView::Array(flattened(s.state.redundancy_groups)),
        ),
        snapshot_of(s, uptime).get("redundancy_group_status"@) == Some(
            JsonView::Object(by_slot(s.state.redundancy_group_status)),
        ),
        snapshot_of(s, uptime).get("card_status"@) == Some(
            JsonView::Object(by_slot(s.state.card_status)),
        ),
        snapshot_of(s, uptime).get("pool_config"@) == Some(
            JsonView::Object(by_slot(s.state.pool_config)),
        ),
        snapshot_of(s, uptime).get("lock_status"@) == Some(
            JsonView::Object(by_slot(s.state.lock_status)),
        ),
        snapshot_of(s, uptime).get("psi_status"@) == Some(
            JsonView::Object(by_slot(s.state.psi_status)),
        ),
        snapshot_of(s, uptime).get("hip_encoders"@) == Some(
            JsonView::Object(by_slot(s.state.hip_encoders)),
        ),
        snapshot_of(s, uptime).get("hip_decoders"@) == Some(
            JsonView::Object(by_slot(s.state.hip_decoders)),
        ),
        snapshot_of(s, uptime).get("dpi_status"@) == Some(
            JsonView::Object(by_slot(s.state.dpi_status)),
        ),
        snapshot_of(s, uptime).get("esam_status"@) == Some(
            JsonView::Object(by_slot(s.state.esam_status)),
        ),
        snapshot_of(s, uptime).get("pois_server_status"@) == Some(
            JsonView::Object(by_slot(s.state.pois_server_status)),
        ),
        snapshot_of(s, uptime).get("health_signals"@) == Some(
            health::health_signals(s.state.card_status),
        ),
{
    assert(mark("status"@) == 108230005) by {
        reveal_strlit("status");
    }
    assert(mark("version"@) == 125200751) by {
        reveal_strlit("version");
    }
    assert(mark("uptime_secs"@) == 192245091) by {
        reveal_strlit("uptime_secs");
    }
    assert(mark("chassis_model"@) == 224621413) by {
        reveal_strlit("chassis_model");
    }
    assert(mark("appear_x_address"@) == 274817395) by {
        reveal_strlit("appear_x_address");
    }
    assert(mark("chassis"@) == 123958121) by {
        reveal_strlit("chassis");
    }
    assert(mark("chassis_info"@) == 207844198) by {
        reveal_strlit("chassis_info");
    }
    assert(mark("card_states"@) == 191061861) by {
        reveal_strlit("card_states");
    }
    assert(mark("slots"@) == 91452276) by {
        reveal_strlit("slots");
    }
    assert(mark("alarms"@) == 107048301) by {
        reveal_strlit("alarms");
    }
    assert(mark("inputs"@) == 107574388) by {
        reveal_strlit("inputs");
    }
    assert(mark("outputs"@) == 124745076) by {
        reveal_strlit("outputs");
    }
    assert(mark("ip_interfaces"@) == 225013349) by {
        reveal_strlit("ip_interfaces");
    }
    assert(mark("coder_services"@) == 241398373) by {
        reveal_strlit("coder_services");
    }
    assert(mark("multi_services"@) == 242051429) by {
        reveal_strlit("multi_services");
    }
    assert(mark("audio_profiles"@) == 241266533) by {
        reveal_strlit("audio_profiles");
    }
    assert(mark("xger_ip_interfaces"@) == 309878629) by {
        reveal_strlit("xger_ip_interfaces");
    }
    assert(mark("card_allocations"@) == 274947950) by {
        reveal_strlit("card_allocations");
    }
    assert(mark("output_services"@) == 258962789) by {
        reveal_strlit("output_services");
    }
    assert(mark("ip_connections"@) == 241790830) by {
        reveal_strlit("ip_connections");
    }
    assert(mark("redundancy_groups"@) == 292712048) by {
        reveal_strlit("redundancy_groups");
    }
    assert(mark("redundancy_group_status"@) == 393375349) by {
        reveal_strlit("redundancy_group_status");
    }
    assert(mark("card_status"@) == 191061877) by {
        reveal_strlit("card_status");
    }
    assert(mark("pool_config"@) == 191913833) by {
        reveal_strlit("pool_config");
    }
    assert(mark("lock_status"@) == 191651701) by {
        reveal_strlit("lock_status");
    }
    assert(mark("psi_status"@) == 175141749) by {
        reveal_strlit("psi_status");
    }
    assert(mark("hip_encoders"@) == 208168306) by {
        reveal_strlit("hip_encoders");
    }
    assert(mark("hip_decoders"@) == 208168050) by {
        reveal_strlit("hip_decoders");
    }
    assert(mark("dpi_status"@) == 174355317) by {
        reveal_strlit("dpi_status");
    }
    assert(mark("esam_status"@) == 191192949) by {
        reveal_strlit("esam_status");
    }
    assert(mark("pois_server_status"@) == 309354357) by {
        reveal_strlit("pois_server_status");
    }
    assert(mark("health_signals"@) == 241726572) by {
        reveal_strlit("health_signals");
    }
}

} // verus!
