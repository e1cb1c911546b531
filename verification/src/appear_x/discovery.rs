//! Finding out what the unit and its cards can do.
//!
//! A session is opened first; [`Discovery::session_opened`] takes note of whether it could be. Then
//! [`Discovery::request`] says what to ask the unit next and [`Discovery::answer`] takes the result,
//! until there is nothing left to ask:
//!
//! 1. `cards/GetChassisInfo`, with each interface version in turn until one is answered;
//! 2. `cards/GetCardStates`, for the software on the cards;
//! 3. for each slot each card interface that is known, newest version first, until one version is
//!    answered.

use std::collections::BTreeMap;
use vstd::prelude::*;

use crate::appear_x::capabilities::{
    self, DeviceCapabilities, DeviceView, DiscoveredInterfaceRecord, RecordView, SlotCapabilities,
    SlotView,
};
use crate::appear_x::jsonrpc::{self, Endpoint, Request, RequestView};
use crate::appear_x::probe_registry::{self, ProbeEntry, ProbeView};
use crate::json::{self, Json, JsonView};
use crate::slots;

verus! {

broadcast use vstd::std_specs::btree::group_btree_axioms;

/// What is known of the software on a card: its identifier, its name and its version.
pub struct SoftwareView {
    pub id: Option<Seq<char>>,
    pub display_name: Option<Seq<char>>,
    pub version: Option<Seq<char>>,
}

/// What a card's state tells of its software: of the one that runs, else of the one that is
/// configured.
pub open spec fn software_info(state: Option<JsonView>) -> SoftwareView {
    let logical = json::value_in(state, "logical"@);
    let running = json::value_in(json::value_in(logical, "login"@), "swInfo"@);
    let info = if running is Some {
        running
    } else {
        json::value_in(logical, "configSwInfo"@)
    };
    SoftwareView {
        id: json::text_of(json::member_of(info, "softwareId"@)),
        display_name: json::text_of(json::member_of(info, "displayName"@)),
        version: json::text_of(json::member_of(info, "ver"@)),
    }
}

/// What a card's state tells of its software.
pub fn extract_software_info(state: Option<&Json>) -> (r: (
    Option<String>,
    Option<String>,
    Option<String>,
))
    ensures
        json::string_view(r.0) == software_info(json::option_view(state)).id,
        json::string_view(r.1) == software_info(json::option_view(state)).display_name,
        json::string_view(r.2) == software_info(json::option_view(state)).version,
{
    let logical = json::get_value_in(state, "logical");
    let running = json::get_value_in(json::get_value_in(logical, "login"), "swInfo");
    let info = if running.is_some() {
        running
    } else {
        json::get_value_in(logical, "configSwInfo")
    };
    (
        json::string_in(json::get_in(info, "softwareId")),
        json::string_in(json::get_in(info, "displayName")),
        json::string_in(json::get_in(info, "ver")),
    )
}

/// The slot number that a value names.
pub open spec fn slot_of(value: JsonView) -> Option<u32> {
    match value.get("slot"@) {
        Some(n) => match n.unsigned() {
            Some(s) => Some(s as u32),
            None => None,
        },
        None => None,
    }
}

fn find_slot(value: &Json) -> (r: Option<u32>)
    ensures
        r == slot_of(value@),
{
    match value.get("slot") {
        Some(n) => match n.as_u64() {
            Some(s) => Some(
                #[verifier::truncate]
                (s as u32),
            ),
            None => None,
        },
        None => None,
    }
}

/// The last of the card states that names a slot.
pub open spec fn state_of(states: Seq<JsonView>, slot: u32) -> Option<JsonView>
    decreases states.len(),
{
    if states.len() == 0 {
        None
    } else if slot_of(states.last()) == Some(slot) {
        Some(states.last())
    } else {
        state_of(states.drop_last(), slot)
    }
}

fn find_state(states: &Vec<Json>, slot: u32) -> (r: Option<&Json>)
    ensures
        json::option_view(r) == state_of(json::items_view(states@), slot),
{
    let ghost all = json::items_view(states@);
    let mut i: usize = states.len();
    assert(all.take(i as int) == all);
    while i > 0
        invariant
            i <= states@.len(),
            all == json::items_view(states@),
            state_of(all.take(i as int), slot) == state_of(all, slot),
        decreases i,
    {
        assert(all.take(i as int).drop_last() == all.take(i - 1));
        i = i - 1;
        match find_slot(&states[i]) {
            Some(s) => if s == slot {
                return Some(&states[i]);
            },
            None => {},
        }
    }
    None
}

/// The texts among some values.
pub open spec fn texts_among(values: Seq<JsonView>) -> Seq<Seq<char>>
    decreases values.len(),
{
    if values.len() == 0 {
        Seq::empty()
    } else {
        match values.last().text() {
            Some(s) => texts_among(values.drop_last()).push(s),
            None => texts_among(values.drop_last()),
        }
    }
}

fn collect_texts(values: &Vec<Json>) -> (r: Vec<String>)
    ensures
        json::strings_view(r@) == texts_among(json::items_view(values@)),
{
    let ghost all = json::items_view(values@);
    let mut out: Vec<String> = Vec::new();
    for i in 0..values.len()
        invariant
            all == json::items_view(values@),
            json::strings_view(out@) == texts_among(all.take(i as int)),
    {
        assert(all.take(i + 1).drop_last() == all.take(i as int));
        let ghost before = out@;
        match values[i].as_str() {
            Some(s) => {
                out.push(s.to_owned());
                assert(json::strings_view(out@) == json::strings_view(before).push(s@));
            },
            None => {},
        }
    }
    assert(all.take(all.len() as int) == all);
    out
}

/// The record that a card in the chassis information gives, with the software that the card
/// states tell of. A card without a slot number gives none.
pub open spec fn card_record(card: JsonView, states: Seq<JsonView>) -> Option<SlotView> {
    match card.get("value"@) {
        Some(value) => match slot_of(value) {
            Some(slot) => {
                let software = software_info(state_of(states, slot));
                Some(
                    SlotView {
                        slot,
                        name: json::text_or(json::text_of(value.get("name"@)), ""@),
                        serial: json::text_or(json::text_of(value.get("serial"@)), ""@),
                        software_id: software.id,
                        software_display_name: software.display_name,
                        software_version: software.version,
                        features: texts_among(
                            match value.get("features"@) {
                                Some(f) => f.items_or_none(),
                                None => Seq::empty(),
                            },
                        ),
                        modules: Seq::empty(),
                    },
                )
            },
            None => None,
        },
        None => None,
    }
}

fn make_card_record(card: &Json, states: &Vec<Json>) -> (r: Option<SlotCapabilities>)
    ensures
        match r {
            Some(s) => card_record(card@, json::items_view(states@)) == Some(s@),
            None => card_record(card@, json::items_view(states@)) is None,
        },
{
    let value = match card.get("value") {
        Some(v) => v,
        None => {
            return None;
        },
    };
    let slot: u32 = match find_slot(value) {
        Some(s) => s,
        None => {
            return None;
        },
    };
    let features = match value.get("features") {
        Some(f) => match f.as_array() {
            Some(a) => collect_texts(a),
            None => {
                let none: Vec<String> = Vec::new();
                assert(json::strings_view(none@) == Seq::<Seq<char>>::empty());
                none
            },
        },
        None => {
            let none: Vec<String> = Vec::new();
            assert(json::strings_view(none@) == Seq::<Seq<char>>::empty());
            none
        },
    };
    let (software_id, software_display_name, software_version) = extract_software_info(
        find_state(states, slot),
    );
    let out = SlotCapabilities {
        slot,
        name: json::string_or(value.get("name"), ""),
        serial: json::string_or(value.get("serial"), ""),
        software_id,
        software_display_name,
        software_version,
        features,
        discovered_modules: Vec::new(),
    };
    assert(capabilities::records_view(out.discovered_modules@) == Seq::<RecordView>::empty());
    Some(out)
}

/// The slots that the cards in the chassis information make. Of two cards with one slot number
/// the later counts.
pub open spec fn slots_of(cards: Seq<JsonView>, states: Seq<JsonView>) -> Map<u32, SlotView>
    decreases cards.len(),
{
    if cards.len() == 0 {
        Map::empty()
    } else {
        let before = slots_of(cards.drop_last(), states);
        match card_record(cards.last(), states) {
            Some(s) => before.insert(s.slot, s),
            None => before,
        }
    }
}

fn make_slots(cards: &Vec<Json>, states: &Vec<Json>) -> (r: BTreeMap<u32, SlotCapabilities>)
    ensures
        slots::views(r@) == slots_of(json::items_view(cards@), json::items_view(states@)),
{
    let mut out: BTreeMap<u32, SlotCapabilities> = BTreeMap::new();
    let ghost all = json::items_view(cards@);
    assert(slots::views(out@) == Map::<u32, SlotView>::empty());
    for i in 0..cards.len()
        invariant
            all == json::items_view(cards@),
            slots::views(out@) == slots_of(all.take(i as int), json::items_view(states@)),
    {
        assert(all.take(i + 1).drop_last() == all.take(i as int));
        match make_card_record(&cards[i], states) {
            Some(s) => {
                let ghost before = out@;
                let ghost sv = s@;
                out.insert(s.slot, s);
                assert(slots::views(out@) == slots::views(before).insert(sv.slot, sv));
            },
            None => {},
        }
    }
    assert(all.take(all.len() as int) == all);
    out
}

/// What is known of the unit before its cards are asked.
pub open spec fn device_of(version: Seq<char>, data: JsonView, states: JsonView) -> DeviceView {
    DeviceView {
        chassis_type: json::text_or(json::text_of(data.get("chassisType"@)), "unknown"@),
        cards_mmi_version: version,
        slots: slots_of(
            items_in(data, "cards"@),
            items_in(states, "cards"@),
        ),
    }
}

/// The elements of the array under a key; nothing where there is none.
pub open spec fn items_in(value: JsonView, key: Seq<char>) -> Seq<JsonView> {
    match value.get(key) {
        Some(a) => a.items_or_none(),
        None => Seq::empty(),
    }
}

fn make_device(version: String, data: &Json, states: &Json) -> (r: DeviceCapabilities)
    ensures
        r@ == device_of(version@, data@, states@),
{
    let none: Vec<Json> = Vec::new();
    assert(json::items_view(none@) == Seq::<JsonView>::empty());
    let cards = match data.get("cards") {
        Some(a) => match a.as_array() {
            Some(v) => v,
            None => &none,
        },
        None => &none,
    };
    let card_states = match states.get("cards") {
        Some(a) => match a.as_array() {
            Some(v) => v,
            None => &none,
        },
        None => &none,
    };
    DeviceCapabilities {
        chassis_type: json::string_or(data.get("chassisType"), "unknown"),
        cards_mmi_version: version,
        slots: make_slots(cards, card_states),
    }
}

/// Adds a slot number to a list.
pub open spec fn add_slot() -> spec_fn(Seq<u32>, u32, SlotView) -> Seq<u32> {
    |list: Seq<u32>, slot: u32, s: SlotView| list.push(slot)
}

/// The slot numbers of a table, in order.
pub open spec fn slot_order(m: Map<u32, SlotView>) -> Seq<u32> {
    slots::fold_slots(m, slots::slot_limit(), Seq::empty(), add_slot())
}

fn list_slots(m: &BTreeMap<u32, SlotCapabilities>) -> (r: Vec<u32>)
    ensures
        r@ == slot_order(slots::views(m@)),
{
    let entries = slots::entries_of(m);
    let mut out: Vec<u32> = Vec::new();
    let n: usize = entries.len();
    for i in 0..n
        invariant
            n == entries@.len(),
            slots::lists(entries@, m@),
            out@ == slots::fold_slots(
                slots::views(m@),
                slots::bound(entries@, i as int),
                Seq::empty(),
                add_slot(),
            ),
    {
        proof {
            slots::lemma_fold_step_views(entries@, m@, i as int, Seq::empty(), add_slot());
        }
        out.push(entries[i].0);
    }
    proof {
        slots::lemma_fold_end_views(entries@, m@, Seq::empty(), add_slot());
    }
    out
}

/// Which attempt is made: a slot, an entry of the registry and a version of that entry.
#[derive(Clone, Copy, Debug)]
struct Cursor {
    slot: usize,
    entry: usize,
    version: usize,
}

/// Which attempt is made.
pub struct At {
    pub slot: nat,
    pub entry: nat,
    pub version: nat,
}

impl Cursor {
    spec fn at(self) -> At {
        At { slot: self.slot as nat, entry: self.entry as nat, version: self.version as nat }
    }
}

/// The cursor itself where it points at an attempt, else the next that does. Behind the last
/// attempt it points behind the last slot.
pub open spec fn settled(slots: nat, probes: Seq<ProbeView>, at: At) -> At
    decreases slots - at.slot, probes.len() - at.entry,
{
    if at.slot >= slots {
        at
    } else if at.entry >= probes.len() {
        settled(slots, probes, At { slot: at.slot + 1, entry: 0, version: 0 })
    } else if at.version >= probes[at.entry as int].versions.len() {
        settled(slots, probes, At { slot: at.slot, entry: at.entry + 1, version: 0 })
    } else {
        at
    }
}

/// Whether a cursor points at an attempt.
pub open spec fn points(slots: nat, probes: Seq<ProbeView>, at: At) -> bool {
    &&& at.slot < slots
    &&& at.entry < probes.len()
    &&& at.version < probes[at.entry as int].versions.len()
}

fn settle(slots: usize, probes: &Vec<ProbeEntry>, from: Cursor) -> (r: Cursor)
    ensures
        r.at() == settled(slots as nat, probe_registry::entries_view(probes@), from.at()),
{
    let mut at = from;
    let ghost list = probe_registry::entries_view(probes@);
    while at.slot < slots && (at.entry >= probes.len() || at.version
        >= probes[at.entry].versions.len())
        invariant
            list == probe_registry::entries_view(probes@),
            settled(slots as nat, list, at.at()) == settled(slots as nat, list, from.at()),
        decreases slots - at.slot, list.len() - at.entry,
    {
        if at.entry >= probes.len() {
            at = Cursor { slot: at.slot + 1, entry: 0, version: 0 };
        } else {
            at = Cursor { slot: at.slot, entry: at.entry + 1, version: 0 };
        }
    }
    at
}

/// What discovery is at.
#[derive(Debug)]
enum Stage {
    /// Opening a session.
    Login,
    /// Asking for the chassis with one of the versions.
    Chassis { next: usize },
    /// Asking for the states of the cards.
    States { version: String, data: Json },
    /// Trying card interfaces.
    Probing { device: DeviceCapabilities, slots: Vec<u32>, at: Cursor },
    /// Everything was asked.
    Done(DeviceCapabilities),
    /// No session could be opened.
    Refused,
    /// No version was answered.
    NoChassis,
}

/// What a discovery is at.
#[verifier::ext_equal]
pub enum StageView {
    Login,
    Chassis { next: nat },
    States { version: Seq<char>, data: JsonView },
    Probing { device: DeviceView, slots: Seq<u32>, at: At },
    Done(DeviceView),
    Refused,
    NoChassis,
}

/// A discovery under way.
#[derive(Debug)]
pub struct Discovery {
    versions: Vec<String>,
    probes: Vec<ProbeEntry>,
    stage: Stage,
}

/// What a [`Discovery`] holds.
#[verifier::ext_equal]
pub struct DiscoveryView {
    pub versions: Seq<Seq<char>>,
    pub probes: Seq<ProbeView>,
    pub stage: StageView,
}

impl Stage {
    spec fn at(self) -> StageView {
        match self {
            Stage::Login => StageView::Login,
            Stage::Chassis { next } => StageView::Chassis { next: next as nat },
            Stage::States { version, data } => StageView::States {
                version: version@,
                data: data@,
            },
            Stage::Probing { device, slots, at } => StageView::Probing {
                device: device@,
                slots: slots@,
                at: at.at(),
            },
            Stage::Done(device) => StageView::Done(device@),
            Stage::Refused => StageView::Refused,
            Stage::NoChassis => StageView::NoChassis,
        }
    }
}

impl View for Discovery {
    type V = DiscoveryView;

    closed spec fn view(&self) -> DiscoveryView {
        DiscoveryView {
            versions: json::strings_view(self.versions@),
            probes: probe_registry::entries_view(self.probes@),
            stage: self.stage.at(),
        }
    }
}

/// The method that an attempt calls.
pub open spec fn probe_method(probe: ProbeView, version: Seq<char>) -> Seq<char> {
    jsonrpc::method_name(probe.interface, version, probe.module, probe.command)
}

/// The request that an attempt makes.
pub open spec fn attempt(slot: u32, probe: ProbeView, version: Seq<char>) -> RequestView {
    RequestView {
        endpoint: Endpoint::Board(slot),
        method: probe_method(probe, version),
        params: probe.params.body(slot),
    }
}

/// The record of a module that answered an attempt.
pub open spec fn record_of(probe: ProbeView, version: Seq<char>) -> RecordView {
    RecordView {
        family: probe.family,
        interface: probe.interface,
        module: probe.module,
        version,
        probe_method: probe_method(probe, version),
    }
}

/// The unit with one more module on a slot.
pub open spec fn with_module(device: DeviceView, slot: u32, r: RecordView) -> DeviceView {
    if device.slots.contains_key(slot) {
        let s = device.slots[slot];
        DeviceView {
            slots: device.slots.insert(
                slot,
                SlotView { modules: capabilities::with_record(s.modules, r), ..s },
            ),
            ..device
        }
    } else {
        device
    }
}

/// The request for the chassis with a version.
pub open spec fn chassis_request(version: Seq<char>) -> RequestView {
    RequestView {
        endpoint: Endpoint::Mmi,
        method: jsonrpc::method_name("mmi"@, version, "cards"@, "GetChassisInfo"@),
        params: json::no_members(),
    }
}

/// The request for the states of the cards with a version.
pub open spec fn states_request(version: Seq<char>) -> RequestView {
    RequestView {
        endpoint: Endpoint::Mmi,
        method: jsonrpc::method_name("mmi"@, version, "cards"@, "GetCardStates"@),
        params: json::no_members(),
    }
}

impl DiscoveryView {
    /// What is asked next. Nothing is asked before a session was opened and once discovery is
    /// finished.
    pub open spec fn asks(self) -> Option<RequestView> {
        match self.stage {
            StageView::Chassis { next } => if next < self.versions.len() {
                Some(chassis_request(self.versions[next as int]))
            } else {
                None
            },
            StageView::States { version, data } => Some(states_request(version)),
            StageView::Probing { device, slots, at } => if points(slots.len(), self.probes, at) {
                let probe = self.probes[at.entry as int];
                Some(attempt(slots[at.slot as int], probe, probe.versions[at.version as int]))
            } else {
                None
            },
            StageView::Login | StageView::Done(_) | StageView::Refused | StageView::NoChassis => {
                None
            },
        }
    }

    /// Goes on with the attempt that the cursor leads to.
    pub open spec fn resumed(self, device: DeviceView, slots: Seq<u32>, at: At) -> DiscoveryView {
        let next = settled(slots.len(), self.probes, at);
        DiscoveryView {
            stage: if next.slot >= slots.len() {
                StageView::Done(device)
            } else {
                StageView::Probing { device, slots, at: next }
            },
            ..self
        }
    }

    /// Where discovery stands after what it asked was answered.
    pub open spec fn answered(self, reply: Option<JsonView>) -> DiscoveryView {
        match self.stage {
            StageView::Chassis { next } => match reply {
                Some(info) => DiscoveryView {
                    stage: StageView::States {
                        version: self.versions[next as int],
                        data: json::value_or(info.get("data"@), json::no_members()),
                    },
                    ..self
                },
                None => DiscoveryView {
                    stage: if next + 1 < self.versions.len() {
                        StageView::Chassis { next: next + 1 }
                    } else {
                        StageView::NoChassis
                    },
                    ..self
                },
            },
            StageView::States { version, data } => {
                let device = device_of(version, data, json::value_or(reply, json::no_members()));
                self.resumed(
                    device,
                    slot_order(device.slots),
                    At { slot: 0, entry: 0, version: 0 },
                )
            },
            StageView::Probing { device, slots, at } => {
                let probe = self.probes[at.entry as int];
                match reply {
                    Some(_) => self.resumed(
                        with_module(
                            device,
                            slots[at.slot as int],
                            record_of(probe, probe.versions[at.version as int]),
                        ),
                        slots,
                        At { slot: at.slot, entry: at.entry + 1, version: 0 },
                    ),
                    None => self.resumed(
                        device,
                        slots,
                        At { slot: at.slot, entry: at.entry, version: at.version + 1 },
                    ),
                }
            },
            StageView::Login | StageView::Done(_) | StageView::Refused | StageView::NoChassis => {
                self
            },
        }
    }

    /// Where discovery stands after it was tried to open a session.
    pub open spec fn signed_in(self, opened: bool) -> DiscoveryView {
        DiscoveryView {
            stage: if !opened {
                StageView::Refused
            } else if self.versions.len() == 0 {
                StageView::NoChassis
            } else {
                StageView::Chassis { next: 0 }
            },
            ..self
        }
    }
}

/// Discovery before anything was asked.
pub open spec fn undiscovered(versions: Seq<Seq<char>>) -> DiscoveryView {
    DiscoveryView {
        versions,
        probes: probe_registry::all_probes(),
        stage: StageView::Login,
    }
}

/// Why discovery failed.
#[derive(Clone, Copy, Debug, PartialEq, Eq, Structural)]
pub enum DiscoveryError {
    /// No session could be opened.
    NotAuthenticated,
    /// No version was answered.
    NoChassis,
}

impl DiscoveryError {
    /// The error in words. Where no session could be opened they go before the reason for that.
    pub open spec fn words(self) -> Seq<char> {
        match self {
            DiscoveryError::NotAuthenticated => {
                "Failed to authenticate with Appear unit during discovery"@
            },
            DiscoveryError::NoChassis => no_chassis_message(),
        }
    }

    /// The error in words. Where no session could be opened they go before the reason for that.
    pub fn message(&self) -> (r: String)
        ensures
            r@ == self.words(),
    {
        match self {
            DiscoveryError::NotAuthenticated => {
                "Failed to authenticate with Appear unit during discovery".to_owned()
            },
            DiscoveryError::NoChassis => {
                "None of the configured MMI versions responded to cards/GetChassisInfo. Set polling.cards_mmi_version explicitly in config.toml.".to_owned()
            },
        }
    }
}

/// Why discovery failed, where no version was answered.
pub open spec fn no_chassis_message() -> Seq<char> {
    "None of the configured MMI versions responded to cards/GetChassisInfo. Set polling.cards_mmi_version explicitly in config.toml."@
}

/// The versions with which the chassis is asked for.
pub fn cards_mmi_versions() -> (r: Vec<String>)
    ensures
        json::strings_view(r@) == seq!["2.8"@, "2.16"@, "4.1"@, "1.0"@],
{
    let mut out: Vec<String> = Vec::new();
    out.push("2.8".to_owned());
    out.push("2.16".to_owned());
    out.push("4.1".to_owned());
    out.push("1.0".to_owned());
    assert(json::strings_view(out@) == seq!["2.8"@, "2.16"@, "4.1"@, "1.0"@]);
    out
}

/// Starts a discovery that asks for the chassis with the given versions.
pub fn discover(cards_mmi_versions: Vec<String>) -> (r: Discovery)
    ensures
        r@ == undiscovered(json::strings_view(cards_mmi_versions@)),
{
    Discovery {
        versions: cards_mmi_versions,
        probes: probe_registry::card_probes(),
        stage: Stage::Login,
    }
}

fn resume(device: DeviceCapabilities, slots: Vec<u32>, probes: &Vec<ProbeEntry>, at: Cursor) -> (r:
    Stage)
    ensures
        r.at() == (DiscoveryView {
            versions: Seq::empty(),
            probes: probe_registry::entries_view(probes@),
            stage: StageView::NoChassis,
        }).resumed(device@, slots@, at.at()).stage,
{
    let next = settle(slots.len(), probes, at);
    if next.slot >= slots.len() {
        Stage::Done(device)
    } else {
        Stage::Probing { device, slots, at: next }
    }
}

fn record_module(device: &mut DeviceCapabilities, slot: u32, rec: DiscoveredInterfaceRecord)
    ensures
        final(device)@ == with_module(old(device)@, slot, rec@),
{
    let ghost before = device.slots@;
    match device.slots.remove(&slot) {
        Some(mut s) => {
            s.record(rec);
            let ghost sv = s@;
            device.slots.insert(slot, s);
            assert(slots::views(device.slots@) == slots::views(before).insert(slot, sv));
        },
        None => {
            assert(slots::views(device.slots@) == slots::views(before));
        },
    }
}

impl Discovery {
    /// What to ask next; nothing before a session was opened and once discovery is finished.
    pub fn request(&self) -> (r: Option<Request>)
        ensures
            match r {
                Some(q) => self@.asks() == Some(q@),
                None => self@.asks() is None,
            },
    {
        match &self.stage {
            Stage::Chassis { next } => {
                if *next < self.versions.len() {
                    let version = self.versions[*next].as_str();
                    Some(
                        Request {
                            endpoint: Endpoint::Mmi,
                            method: jsonrpc::make_method_name(
                                "mmi",
                                version,
                                "cards",
                                "GetChassisInfo",
                            ),
                            params: Json::empty(),
                        },
                    )
                } else {
                    None
                }
            },
            Stage::States { version, data } => Some(
                Request {
                    endpoint: Endpoint::Mmi,
                    method: jsonrpc::make_method_name(
                        "mmi",
                        version.as_str(),
                        "cards",
                        "GetCardStates",
                    ),
                    params: Json::empty(),
                },
            ),
            Stage::Probing { device, slots, at } => {
                if at.slot < slots.len() && at.entry < self.probes.len() && at.version
                    < self.probes[at.entry].versions.len() {
                    let slot: u32 = slots[at.slot];
                    let probe = &self.probes[at.entry];
                    Some(
                        Request {
                            endpoint: Endpoint::Board(slot),
                            method: jsonrpc::make_method_name(
                                probe.interface,
                                probe.versions[at.version],
                                probe.module,
                                probe.command,
                            ),
                            params: probe.params.to_json(slot),
                        },
                    )
                } else {
                    None
                }
            },
            Stage::Login | Stage::Done(_) | Stage::Refused | Stage::NoChassis => None,
        }
    }

    /// Takes note of whether a session could be opened.
    pub fn session_opened(self, opened: bool) -> (r: Discovery)
        requires
            self@.stage is Login,
        ensures
            r@ == self@.signed_in(opened),
    {
        let Discovery { versions, probes, stage: _ } = self;
        let stage = if !opened {
            Stage::Refused
        } else if versions.len() == 0 {
            Stage::NoChassis
        } else {
            Stage::Chassis { next: 0 }
        };
        Discovery { versions, probes, stage }
    }

    /// Takes the result of what was asked; nothing where the call failed.
    pub fn answer(self, reply: Option<Json>) -> (r: Discovery)
        requires
            self@.asks() is Some,
        ensures
            r@ == self@.answered(
                match reply {
                    Some(j) => Some(j@),
                    None => None,
                },
            ),
    {
        let Discovery { versions, probes, stage } = self;
        let stage = match stage {
            Stage::Chassis { next } => match reply {
                Some(info) => Stage::States {
                    version: versions[next].clone(),
                    data: json::copy_or(info.get("data"), Json::empty()),
                },
                None => {
                    let last: usize = versions.len() - 1;
                    if next < last {
                        Stage::Chassis { next: next + 1 }
                    } else {
                        Stage::NoChassis
                    }
                },
            },
            Stage::States { version, data } => {
                let states = match reply {
                    Some(j) => j,
                    None => Json::empty(),
                };
                let device = make_device(version, &data, &states);
                let slots = list_slots(&device.slots);
                resume(device, slots, &probes, Cursor { slot: 0, entry: 0, version: 0 })
            },
            Stage::Probing { device, slots, at } => {
                let mut device = device;
                assert(at.entry < probes.len());
                assert(at.version < probes[at.entry as int].versions.len());
                match reply {
                    Some(_) => {
                        let probe = &probes[at.entry];
                        let rec = DiscoveredInterfaceRecord {
                            family: probe.family.to_owned(),
                            interface: probe.interface.to_owned(),
                            module: probe.module.to_owned(),
                            version: probe.versions[at.version].to_owned(),
                            probe_method: jsonrpc::make_method_name(
                                probe.interface,
                                probe.versions[at.version],
                                probe.module,
                                probe.command,
                            ),
                        };
                        record_module(&mut device, slots[at.slot], rec);
                        resume(
                            device,
                            slots,
                            &probes,
                            Cursor { slot: at.slot, entry: at.entry + 1, version: 0 },
                        )
                    },
                    None => resume(
                        device,
                        slots,
                        &probes,
                        Cursor { slot: at.slot, entry: at.entry, version: at.version + 1 },
                    ),
                }
            },
            other => other,
        };
        Discovery { versions, probes, stage }
    }

    /// What was found out, once everything was asked, or why nothing was; before the end there is
    /// nothing.
    pub fn finish(self) -> (r: Option<Result<DeviceCapabilities, DiscoveryError>>)
        ensures
            match r {
                Some(Ok(device)) => self@.stage == StageView::Done(device@),
                Some(Err(e)) => self@.stage == match e {
                    DiscoveryError::NotAuthenticated => StageView::Refused,
                    DiscoveryError::NoChassis => StageView::NoChassis,
                },
                None => !(self@.stage is Done || self@.stage is Refused || self@.stage is NoChassis),
            },
    {
        match self.stage {
            Stage::Done(device) => Some(Ok(device)),
            Stage::Refused => Some(Err(DiscoveryError::NotAuthenticated)),
            Stage::NoChassis => Some(Err(DiscoveryError::NoChassis)),
            _ => None,
        }
    }
}

/// What the unit would answer to each request, where the call succeeds.
pub type Oracle = spec_fn(RequestView) -> Option<JsonView>;

/// The first version of an entry, from the given one on, that a card answers.
pub open spec fn first_version(slot: u32, probe: ProbeView, from: nat, oracle: Oracle) -> Option<
    Seq<char>,
>
    decreases probe.versions.len() - from,
{
    if from >= probe.versions.len() {
        None
    } else if oracle(attempt(slot, probe, probe.versions[from as int])) is Some {
        Some(probe.versions[from as int])
    } else {
        first_version(slot, probe, from + 1, oracle)
    }
}

/// The records with the one of an entry, where a version of it from the given one on is answered.
pub open spec fn tried(
    records: Seq<RecordView>,
    slot: u32,
    probe: ProbeView,
    from: nat,
    oracle: Oracle,
) -> Seq<RecordView> {
    match first_version(slot, probe, from, oracle) {
        Some(version) => capabilities::with_record(records, record_of(probe, version)),
        None => records,
    }
}

/// The records with those of all entries from the given one on that a card answers.
pub open spec fn modules_found(
    records: Seq<RecordView>,
    slot: u32,
    probes: Seq<ProbeView>,
    from: nat,
    oracle: Oracle,
) -> Seq<RecordView>
    decreases probes.len() - from,
{
    if from >= probes.len() {
        records
    } else {
        modules_found(
            tried(records, slot, probes[from as int], 0, oracle),
            slot,
            probes,
            from + 1,
            oracle,
        )
    }
}

/// The unit with all modules that its cards answer.
pub open spec fn explored(device: DeviceView, probes: Seq<ProbeView>, oracle: Oracle) -> DeviceView {
    DeviceView {
        slots: Map::new(
            |k: u32| device.slots.contains_key(k),
            |k: u32|
                SlotView {
                    modules: modules_found(device.slots[k].modules, k, probes, 0, oracle),
                    ..device.slots[k]
                },
        ),
        ..device
    }
}

/// What a discovery of a unit that answers so ends with.
pub open spec fn discovered(versions: Seq<Seq<char>>, next: nat, oracle: Oracle) -> StageView
    decreases versions.len() - next,
{
    if next >= versions.len() {
        StageView::NoChassis
    } else {
        let version = versions[next as int];
        match oracle(chassis_request(version)) {
            Some(info) => StageView::Done(
                explored(
                    device_of(
                        version,
                        json::value_or(info.get("data"@), json::no_members()),
                        json::value_or(oracle(states_request(version)), json::no_members()),
                    ),
                    probe_registry::all_probes(),
                    oracle,
                ),
            ),
            None => discovered(versions, next + 1, oracle),
        }
    }
}

/// Where a discovery stands after at most `n` requests to a unit that answers so.
pub open spec fn driven(d: DiscoveryView, oracle: Oracle, n: nat) -> DiscoveryView
    decreases n,
{
    if n == 0 {
        d
    } else {
        match d.asks() {
            Some(request) => driven(d.answered(oracle(request)), oracle, (n - 1) as nat),
            None => d,
        }
    }
}

spec fn slot_finished(
    device: DeviceView,
    slot: u32,
    probes: Seq<ProbeView>,
    entry: nat,
    version: nat,
    oracle: Oracle,
) -> DeviceView {
    if entry >= probes.len() || !device.slots.contains_key(slot) {
        device
    } else {
        let s = device.slots[slot];
        let modules = modules_found(
            tried(s.modules, slot, probes[entry as int], version, oracle),
            slot,
            probes,
            entry + 1,
            oracle,
        );
        DeviceView { slots: device.slots.insert(slot, SlotView { modules, ..s }), ..device }
    }
}

spec fn slots_finished(
    device: DeviceView,
    slots: Seq<u32>,
    from: nat,
    probes: Seq<ProbeView>,
    oracle: Oracle,
) -> DeviceView
    decreases slots.len() - from,
{
    if from >= slots.len() {
        device
    } else {
        slots_finished(
            slot_finished(device, slots[from as int], probes, 0, 0, oracle),
            slots,
            from + 1,
            probes,
            oracle,
        )
    }
}

spec fn completed(
    device: DeviceView,
    slots: Seq<u32>,
    probes: Seq<ProbeView>,
    at: At,
    oracle: Oracle,
) -> DeviceView {
    if at.slot >= slots.len() {
        device
    } else {
        slots_finished(
            slot_finished(device, slots[at.slot as int], probes, at.entry, at.version, oracle),
            slots,
            at.slot + 1,
            probes,
            oracle,
        )
    }
}

proof fn lemma_settled(
    device: DeviceView,
    slots: Seq<u32>,
    probes: Seq<ProbeView>,
    at: At,
    oracle: Oracle,
)
    ensures
        completed(device, slots, probes, settled(slots.len(), probes, at), oracle) == completed(
            device,
            slots,
            probes,
            at,
            oracle,
        ),
        settled(slots.len(), probes, at).slot < slots.len() ==> points(
            slots.len(),
            probes,
            settled(slots.len(), probes, at),
        ),
        settled(slots.len(), probes, at).slot >= at.slot,
        settled(slots.len(), probes, at).slot == at.slot ==> settled(slots.len(), probes, at).entry
            >= at.entry,
        settled(slots.len(), probes, at).slot == at.slot && settled(slots.len(), probes, at).entry
            == at.entry ==> settled(slots.len(), probes, at).version == at.version,
    decreases slots.len() - at.slot, probes.len() - at.entry,
{
    if at.slot >= slots.len() {
    } else if at.entry >= probes.len() {
        lemma_settled(
            device,
            slots,
            probes,
            At { slot: at.slot + 1, entry: 0, version: 0 },
            oracle,
        );
    } else if at.version >= probes[at.entry as int].versions.len() {
        let next = At { slot: at.slot, entry: at.entry + 1, version: 0 };
        lemma_settled(device, slots, probes, next, oracle);
        let slot = slots[at.slot as int];
        let a = slot_finished(device, slot, probes, at.entry, at.version, oracle);
        let b = slot_finished(device, slot, probes, next.entry, 0, oracle);
        if device.slots.contains_key(slot) {
            assert(a.slots == b.slots);
        }
    }
}

proof fn lemma_probing(d: DiscoveryView, oracle: Oracle) -> (n: nat)
    requires
        d.stage matches StageView::Probing { device, slots, at } ==> points(
            slots.len(),
            d.probes,
            at,
        ),
        d.stage is Probing || d.stage is Done,
    ensures
        driven(d, oracle, n).stage == StageView::Done(
            match d.stage {
                StageView::Probing { device, slots, at } => completed(
                    device,
                    slots,
                    d.probes,
                    at,
                    oracle,
                ),
                StageView::Done(device) => device,
                _ => arbitrary(),
            },
        ),
    decreases
            match d.stage {
                StageView::Probing { device, slots, at } => slots.len() - at.slot,
                _ => 0,
            },
            match d.stage {
                StageView::Probing { device, slots, at } => d.probes.len() - at.entry,
                _ => 0,
            },
            match d.stage {
                StageView::Probing { device, slots, at } => d.probes[at.entry as int].versions.len()
                    - at.version,
                _ => 0,
            },
{
    match d.stage {
        StageView::Probing { device, slots, at } => {
            let slot = slots[at.slot as int];
            let probe = d.probes[at.entry as int];
            let version = probe.versions[at.version as int];
            let reply = oracle(attempt(slot, probe, version));
            let next = d.answered(reply);
            let (device1, at1) = match reply {
                Some(_) => (
                    with_module(device, slot, record_of(probe, version)),
                    At { slot: at.slot, entry: at.entry + 1, version: 0 },
                ),
                None => (
                    device,
                    At { slot: at.slot, entry: at.entry, version: at.version + 1 },
                ),
            };
            lemma_settled(device1, slots, d.probes, at1, oracle);
            let a = slot_finished(device, slot, d.probes, at.entry, at.version, oracle);
            let b = slot_finished(device1, slot, d.probes, at1.entry, at1.version, oracle);
            if device.slots.contains_key(slot) {
                assert(a.slots == b.slots);
            }
            let m = lemma_probing(next, oracle);
            m + 1
        },
        _ => 0,
    }
}

proof fn lemma_slot_order(m: Map<u32, SlotView>, n: nat)
    requires
        n <= slots::slot_limit(),
    ensures
        ({
            let list = slots::fold_slots(m, n, Seq::empty(), add_slot());
            &&& list.no_duplicates()
            &&& forall|k: u32| #[trigger] list.contains(k) <==> m.contains_key(k) && k < n
        }),
    decreases n,
{
    if n > 0 {
        let before = slots::fold_slots(m, (n - 1) as nat, Seq::empty(), add_slot());
        let list = slots::fold_slots(m, n, Seq::empty(), add_slot());
        let slot = (n - 1) as u32;
        lemma_slot_order(m, (n - 1) as nat);
        if m.contains_key(slot) {
            assert(list == before.push(slot));
            assert forall|k: u32| #[trigger] list.contains(k) <==> m.contains_key(k) && k < n by {
                if before.contains(k) {
                    let i = choose|i: int| 0 <= i < before.len() && before[i] == k;
                    assert(list[i] == k);
                }
                if k == slot {
                    assert(list[list.len() - 1] == k);
                }
                if list.contains(k) && k != slot {
                    let i = choose|i: int| 0 <= i < list.len() && list[i] == k;
                    assert(before[i] == k);
                }
            }
            assert forall|i: int, j: int| 0 <= i < list.len() && 0 <= j < list.len() && i
                != j implies list[i] != list[j] by {
                if i < before.len() && j < before.len() {
                    assert(before[i] != before[j]);
                } else if i < before.len() {
                    assert(before.contains(before[i]));
                } else {
                    assert(before.contains(before[j]));
                }
            }
        }
    }
}

proof fn lemma_slots_finished(
    device: DeviceView,
    slots: Seq<u32>,
    from: nat,
    probes: Seq<ProbeView>,
    oracle: Oracle,
)
    requires
        slots.no_duplicates(),
        from <= slots.len(),
        forall|i: int| from <= i < slots.len() ==> device.slots.contains_key(#[trigger] slots[i]),
    ensures
        ({
            let end = slots_finished(device, slots, from, probes, oracle);
            &&& end.chassis_type == device.chassis_type
            &&& end.cards_mmi_version == device.cards_mmi_version
            &&& end.slots.dom() == device.slots.dom()
            &&& forall|k: u32| #[trigger]
                device.slots.contains_key(k) ==> end.slots[k] == if slots.skip(
                    from as int,
                ).contains(k) {
                    explored(device, probes, oracle).slots[k]
                } else {
                    device.slots[k]
                }
        }),
    decreases slots.len() - from,
{
    if from < slots.len() {
        let slot = slots[from as int];
        let mid = slot_finished(device, slot, probes, 0, 0, oracle);
        let end = slots_finished(device, slots, from, probes, oracle);
        assert(mid.slots.dom() == device.slots.dom());
        assert(mid.slots[slot] == explored(device, probes, oracle).slots[slot]);
        lemma_slots_finished(mid, slots, from + 1, probes, oracle);
        assert forall|k: u32| #[trigger] device.slots.contains_key(k) implies end.slots[k]
            == if slots.skip(from as int).contains(k) {
            explored(device, probes, oracle).slots[k]
        } else {
            device.slots[k]
        } by {
            let rest = slots.skip(from as int);
            let after = slots.skip((from + 1) as int);
            assert(mid.slots.contains_key(k));
            if after.contains(k) {
                let i = choose|i: int| 0 <= i < after.len() && after[i] == k;
                assert(rest[i + 1] == k);
                assert(slots[from + 1 + i] == k);
                assert(k != slot);
            } else if rest.contains(k) {
                let i = choose|i: int| 0 <= i < rest.len() && rest[i] == k;
                if i > 0 {
                    assert(after[i - 1] == k);
                }
                assert(k == slot);
            } else {
                assert(rest[0] == slot);
            }
        }
    }
}

proof fn lemma_explored(device: DeviceView, probes: Seq<ProbeView>, oracle: Oracle)
    ensures
        completed(
            device,
            slot_order(device.slots),
            probes,
            At { slot: 0, entry: 0, version: 0 },
            oracle,
        ) == explored(device, probes, oracle),
{
    let slots = slot_order(device.slots);
    let at = At { slot: 0, entry: 0, version: 0 };
    lemma_slot_order(device.slots, slots::slot_limit());
    assert forall|i: int| 0 <= i < slots.len() implies device.slots.contains_key(
        #[trigger] slots[i],
    ) by {
        assert(slots.contains(slots[i]));
    }
    lemma_slots_finished(device, slots, 0, probes, oracle);
    let end = slots_finished(device, slots, 0, probes, oracle);
    assert(slots.skip(0) == slots);
    assert(end.slots == explored(device, probes, oracle).slots);
    assert(completed(device, slots, probes, at, oracle) == end);
}

proof fn lemma_chassis(versions: Seq<Seq<char>>, next: nat, oracle: Oracle) -> (n: nat)
    requires
        next < versions.len(),
    ensures
        driven(
            DiscoveryView { stage: StageView::Chassis { next }, ..undiscovered(versions) },
            oracle,
            n,
        ).stage == discovered(versions, next, oracle),
    decreases versions.len() - next,
{
    let d = DiscoveryView { stage: StageView::Chassis { next }, ..undiscovered(versions) };
    let version = versions[next as int];
    match oracle(chassis_request(version)) {
        Some(info) => {
            let data = json::value_or(info.get("data"@), json::no_members());
            let d1 = d.answered(Some(info));
            let reply = oracle(states_request(version));
            let d2 = d1.answered(reply);
            let device = device_of(version, data, json::value_or(reply, json::no_members()));
            let slots = slot_order(device.slots);
            let at = At { slot: 0, entry: 0, version: 0 };
            lemma_settled(device, slots, d.probes, at, oracle);
            lemma_explored(device, d.probes, oracle);
            let m = lemma_probing(d2, oracle);
            assert(driven(d1, oracle, m + 1) == driven(d2, oracle, m));
            assert(driven(d, oracle, m + 2) == driven(d1, oracle, m + 1));
            m + 2
        },
        None => {
            if next + 1 < versions.len() {
                let m = lemma_chassis(versions, next + 1, oracle);
                assert(driven(d, oracle, m + 1) == driven(d.answered(None), oracle, m));
                m + 1
            } else {
                assert(discovered(versions, next + 1, oracle) == StageView::NoChassis);
                assert(driven(d, oracle, 1) == driven(d.answered(None), oracle, 0));
                1
            }
        },
    }
}

/// The modules that are found stand in the order of their names, each name once.
pub proof fn law_found_modules_are_ordered(
    records: Seq<RecordView>,
    slot: u32,
    probes: Seq<ProbeView>,
    from: nat,
    oracle: Oracle,
)
    requires
        capabilities::ordered(records),
    ensures
        capabilities::ordered(modules_found(records, slot, probes, from, oracle)),
    decreases probes.len() - from,
{
    if from < probes.len() {
        let probe = probes[from as int];
        match first_version(slot, probe, 0, oracle) {
            Some(version) => {
                capabilities::law_records_stay_ordered(records, record_of(probe, version));
            },
            None => {},
        }
        law_found_modules_are_ordered(
            tried(records, slot, probe, 0, oracle),
            slot,
            probes,
            from + 1,
            oracle,
        );
    }
}

proof fn lemma_found(
    records: Seq<RecordView>,
    slot: u32,
    probes: Seq<ProbeView>,
    from: nat,
    oracle: Oracle,
    key: Seq<char>,
)
    requires
        from <= probes.len(),
        forall|i: int, j: int|
            0 <= i < probes.len() && 0 <= j < probes.len() && i != j ==> (
            #[trigger] probes[i]).key() != (#[trigger] probes[j]).key(),
    ensures
        ({
            let found = capabilities::find_record(
                modules_found(records, slot, probes, from, oracle),
                key,
            );
            &&& forall|i: int|
                from <= i < probes.len() && (#[trigger] probes[i]).key() == key ==> found
                    == match first_version(slot, probes[i], 0, oracle) {
                    Some(version) => Some(record_of(probes[i], version)),
                    None => capabilities::find_record(records, key),
                }
            &&& (forall|i: int| from <= i < probes.len() ==> (#[trigger] probes[i]).key() != key)
                ==> found == capabilities::find_record(records, key)
        }),
    decreases probes.len() - from,
{
    if from < probes.len() {
        let probe = probes[from as int];
        let next = tried(records, slot, probe, 0, oracle);
        match first_version(slot, probe, 0, oracle) {
            Some(version) => {
                capabilities::law_recorded_module_is_found(records, record_of(probe, version), key);
            },
            None => {},
        }
        lemma_found(next, slot, probes, from + 1, oracle, key);
    }
}

proof fn lemma_no_modules_yet(cards: Seq<JsonView>, states: Seq<JsonView>)
    ensures
        forall|k: u32| #[trigger]
            slots_of(cards, states).contains_key(k) ==> slots_of(cards, states)[k].modules
                == Seq::<RecordView>::empty(),
    decreases cards.len(),
{
    if cards.len() > 0 {
        lemma_no_modules_yet(cards.drop_last(), states);
    }
}

/// Whether what is recorded under a name is the first version of the entry with that name that the
/// card answers; nothing where it answers none or no entry has the name.
pub open spec fn records_first_version(
    found: Option<RecordView>,
    slot: u32,
    key: Seq<char>,
    oracle: Oracle,
) -> bool {
    let probes = probe_registry::all_probes();
    &&& forall|i: int|
        0 <= i < probes.len() && (#[trigger] probes[i]).key() == key ==> found
            == match first_version(slot, probes[i], 0, oracle) {
            Some(version) => Some(record_of(probes[i], version)),
            None => None,
        }
    &&& (forall|i: int| 0 <= i < probes.len() ==> (#[trigger] probes[i]).key() != key)
        ==> found is None
}

/// On every slot and for every entry of the registry the first version that the card answers is what
/// is recorded under the name of the entry, and nothing where it answers none. Under no other name is
/// anything recorded.
pub proof fn law_first_version_is_recorded(
    versions: Seq<Seq<char>>,
    next: nat,
    oracle: Oracle,
    slot: u32,
    key: Seq<char>,
)
    ensures
        discovered(versions, next, oracle) matches StageView::Done(device) ==> (
        device.slots.contains_key(slot) ==> records_first_version(
            capabilities::find_record(device.slots[slot].modules, key),
            slot,
            key,
            oracle,
        )),
    decreases versions.len() - next,
{
    if next < versions.len() {
        let version = versions[next as int];
        match oracle(chassis_request(version)) {
            Some(info) => {
                let data = json::value_or(info.get("data"@), json::no_members());
                let states = json::value_or(oracle(states_request(version)), json::no_members());
                lemma_no_modules_yet(items_in(data, "cards"@), items_in(states, "cards"@));
                let probes = probe_registry::all_probes();
                assert forall|i: int, j: int|
                    0 <= i < probes.len() && 0 <= j < probes.len() && i != j implies (
                #[trigger] probes[i]).key() != (#[trigger] probes[j]).key() by {
                    probe_registry::law_probe_names_differ(i, j);
                }
                lemma_found(Seq::empty(), slot, probes, 0, oracle, key);
            },
            None => {
                law_first_version_is_recorded(versions, next + 1, oracle, slot, key);
            },
        }
    }
}

/// Once a session was opened discovery always ends. It ends without a chassis exactly if no version
/// is answered; else it knows the chassis by the first version that was answered and has, for every
/// slot and every entry of the registry, recorded the first version that the card answers, and
/// nothing else.
pub proof fn law_discovery(versions: Seq<Seq<char>>, oracle: Oracle)
    ensures
        exists|n: nat|
            (#[trigger] driven(undiscovered(versions).signed_in(true), oracle, n)).stage
                == discovered(versions, 0, oracle) && driven(
                undiscovered(versions).signed_in(true),
                oracle,
                n,
            ).asks() is None,
{
    let d = undiscovered(versions).signed_in(true);
    if versions.len() == 0 {
        assert(driven(d, oracle, 0) == d);
    } else {
        let n = lemma_chassis(versions, 0, oracle);
        lemma_discovered_ends(versions, 0, oracle);
        assert(driven(d, oracle, n).asks() is None);
    }
}

/// Without a session nothing is asked and discovery fails.
pub proof fn law_no_session(versions: Seq<Seq<char>>)
    ensures
        undiscovered(versions).asks() is None,
        undiscovered(versions).signed_in(false).asks() is None,
        undiscovered(versions).signed_in(false).stage is Refused,
{
}

proof fn lemma_discovered_ends(versions: Seq<Seq<char>>, next: nat, oracle: Oracle)
    ensures
        discovered(versions, next, oracle) is Done || discovered(versions, next, oracle)
            is NoChassis,
    decreases versions.len() - next,
{
    if next < versions.len() {
        lemma_discovered_ends(versions, next + 1, oracle);
    }
}

} // verus!
