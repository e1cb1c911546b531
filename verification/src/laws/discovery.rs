//! What a discovery finds out.

use vstd::prelude::*;

use crate::appear_x::capabilities::{self, DeviceView, RecordView};
use crate::appear_x::discovery::{self, Oracle};
use crate::appear_x::jsonrpc::{Endpoint, RequestView};
use crate::appear_x::probe_registry::{self, ProbeView};
use crate::json::{self, Exact, JsonView, Number};
use crate::laws::{polling, values};

verus! {

/// A call to the chassis for its cards.
pub open spec fn cards_call(version: Seq<char>, command: Seq<char>) -> RequestView {
    RequestView {
        endpoint: Endpoint::Mmi,
        method: "mmi"@ + ":"@ + version + "/"@ + "cards"@ + "/"@ + command,
        params: JsonView::Object(Map::empty()),
    }
}

/// Whether a version is the first under which the unit tells what is in its chassis.
pub open spec fn first_answered(versions: Seq<Seq<char>>, first: int, oracle: Oracle) -> bool {
    &&& 0 <= first < versions.len()
    &&& oracle(cards_call(versions[first], "GetChassisInfo"@)) is Some
    &&& forall|i: int|
        0 <= i < first ==> oracle(cards_call(#[trigger] versions[i], "GetChassisInfo"@)) is None
}

/// Whether a value names a slot.
pub open spec fn names_slot(value: Option<JsonView>, slot: u32) -> bool {
    match values::under(value, "slot"@) {
        Some(JsonView::Number(Number { exact: Exact::Unsigned(n), reading })) => n as u32 == slot,
        _ => false,
    }
}

/// The data in the answer about the chassis.
pub open spec fn chassis_data(versions: Seq<Seq<char>>, first: int, oracle: Oracle) -> Option<
    JsonView,
> {
    values::under(oracle(cards_call(versions[first], "GetChassisInfo"@)), "data"@)
}

/// The cards in the answer about the chassis.
pub open spec fn cards(versions: Seq<Seq<char>>, first: int, oracle: Oracle) -> Seq<JsonView> {
    values::elements(values::under(chassis_data(versions, first, oracle), "cards"@))
}

/// The states of the cards.
pub open spec fn states(versions: Seq<Seq<char>>, first: int, oracle: Oracle) -> Seq<JsonView> {
    values::elements(values::under(oracle(cards_call(versions[first], "GetCardStates"@)), "cards"@))
}

/// Whether an element is the last that names a slot.
pub open spec fn last_of_slot(values: Seq<Option<JsonView>>, k: int, slot: u32) -> bool {
    &&& 0 <= k < values.len()
    &&& names_slot(values[k], slot)
    &&& forall|j: int| k < j < values.len() ==> !names_slot(#[trigger] values[j], slot)
}

/// What the cards in the answer about the chassis hold.
pub open spec fn card_values(cards: Seq<JsonView>) -> Seq<Option<JsonView>> {
    Seq::new(cards.len(), |i: int| values::under(Some(cards[i]), "value"@))
}

/// The states of the cards as they stand.
pub open spec fn state_values(states: Seq<JsonView>) -> Seq<Option<JsonView>> {
    Seq::new(states.len(), |i: int| Some(states[i]))
}

/// The texts of a list, in their order.
pub open spec fn only_texts(values: Seq<JsonView>) -> Seq<Seq<char>> {
    values.filter(|v: JsonView| v is Text).map_values(|v: JsonView| v->Text_0)
}

/// What the software of a card is told under: that which runs, else that which is configured.
pub open spec fn software(state: Option<JsonView>) -> Option<JsonView> {
    let logical = values::under(values::under(state, "logical"@), "value"@);
    let login = values::under(values::under(logical, "login"@), "value"@);
    let running = values::under(values::under(login, "swInfo"@), "value"@);
    if running is Some {
        running
    } else {
        values::under(values::under(logical, "configSwInfo"@), "value"@)
    }
}

/// The unit that a discovery ends with.
pub open spec fn unit(versions: Seq<Seq<char>>, oracle: Oracle) -> DeviceView {
    discovery::discovered(versions, 0, oracle)->Done_0
}

proof fn lemma_texts(values: Seq<JsonView>)
    ensures
        discovery::texts_among(values) == only_texts(values),
    decreases values.len(),
{
    reveal(Seq::filter);
    let p = |v: JsonView| v is Text;
    if values.len() > 0 {
        lemma_texts(values.drop_last());
        let before = values.drop_last().filter(p);
        if values.last() is Text {
            assert(values.filter(p) == before.push(values.last()));
            assert(only_texts(values) == only_texts(values.drop_last()).push(values.last()->Text_0));
        } else {
            assert(values.filter(p) == before);
        }
    }
    assert(discovery::texts_among(values) == only_texts(values));
}

proof fn lemma_state_of(states: Seq<JsonView>, slot: u32, j: int)
    ensures
        last_of_slot(state_values(states), j, slot) ==> discovery::state_of(states, slot) == Some(
            states[j],
        ),
        (forall|i: int| 0 <= i < states.len() ==> !names_slot(Some(#[trigger] states[i]), slot))
            ==> discovery::state_of(states, slot) is None,
    decreases states.len(),
{
    if states.len() > 0 {
        let fewer = states.drop_last();
        lemma_state_of(fewer, slot, j);
        assert(state_values(states)[states.len() - 1] == Some(states.last()));
        assert(states[states.len() - 1] == states.last());
        values::lemma_under(Some(states.last()), "slot"@);
        assert(discovery::slot_of(states.last()) == Some(slot) <==> names_slot(
            Some(states.last()),
            slot,
        ));
        if last_of_slot(state_values(states), j, slot) && j < fewer.len() {
            assert(!names_slot(state_values(states)[states.len() - 1], slot));
            assert(state_values(fewer)[j] == state_values(states)[j]);
            assert forall|i: int| j < i < fewer.len() implies !names_slot(
                #[trigger] state_values(fewer)[i],
                slot,
            ) by {
                assert(state_values(fewer)[i] == state_values(states)[i]);
            }
        }
        if forall|i: int| 0 <= i < states.len() ==> !names_slot(Some(#[trigger] states[i]), slot) {
            assert forall|i: int| 0 <= i < fewer.len() implies !names_slot(
                Some(#[trigger] fewer[i]),
                slot,
            ) by {
                assert(fewer[i] == states[i]);
            }
        }
    }
}

proof fn lemma_slots_of(cards: Seq<JsonView>, states: Seq<JsonView>, slot: u32, k: int)
    ensures
        last_of_slot(card_values(cards), k, slot) ==> discovery::slots_of(
            cards,
            states,
        ).contains_key(slot) && discovery::card_record(cards[k], states) == Some(
            discovery::slots_of(cards, states)[slot],
        ),
        (forall|i: int|
            0 <= i < cards.len() ==> !names_slot(#[trigger] card_values(cards)[i], slot))
            ==> !discovery::slots_of(cards, states).contains_key(slot),
    decreases cards.len(),
{
    if cards.len() > 0 {
        let fewer = cards.drop_last();
        lemma_slots_of(fewer, states, slot, k);
        let last = cards.last();
        assert(card_values(cards)[cards.len() - 1] == values::under(Some(last), "value"@));
        values::lemma_under(Some(last), "value"@);
        values::lemma_under(last.get("value"@), "slot"@);
        assert(match discovery::card_record(last, states) {
            Some(s) => names_slot(values::under(Some(last), "value"@), s.slot),
            None => !names_slot(values::under(Some(last), "value"@), slot),
        });
        assert(discovery::card_record(last, states) matches Some(s) ==> (s.slot == slot
            <==> names_slot(values::under(Some(last), "value"@), slot)));
        if last_of_slot(card_values(cards), k, slot) && k < fewer.len() {
            assert(!names_slot(card_values(cards)[cards.len() - 1], slot));
            assert(card_values(fewer)[k] == card_values(cards)[k]);
            assert(fewer[k] == cards[k]);
            assert forall|i: int| k < i < fewer.len() implies !names_slot(
                #[trigger] card_values(fewer)[i],
                slot,
            ) by {
                assert(card_values(fewer)[i] == card_values(cards)[i]);
            }
        }
        if forall|i: int|
            0 <= i < cards.len() ==> !names_slot(#[trigger] card_values(cards)[i], slot) {
            assert forall|i: int| 0 <= i < fewer.len() implies !names_slot(
                #[trigger] card_values(fewer)[i],
                slot,
            ) by {
                assert(card_values(fewer)[i] == card_values(cards)[i]);
            }
        }
    }
}

proof fn lemma_discovered(versions: Seq<Seq<char>>, next: nat, first: int, oracle: Oracle)
    requires
        first_answered(versions, first, oracle),
        next <= first,
    ensures
        discovery::discovered(versions, next, oracle) == discovery::discovered(
            versions,
            first as nat,
            oracle,
        ),
        discovery::discovered(versions, first as nat, oracle) is Done,
    decreases first - next,
{
    assert(discovery::chassis_request(versions[next as int]) == cards_call(
        versions[next as int],
        "GetChassisInfo"@,
    ));
    if next < first {
        assert(oracle(cards_call(versions[next as int], "GetChassisInfo"@)) is None);
        lemma_discovered(versions, next + 1, first, oracle);
    }
}

proof fn lemma_unit(versions: Seq<Seq<char>>, first: int, oracle: Oracle)
    requires
        first_answered(versions, first, oracle),
    ensures
        discovery::discovered(versions, 0, oracle) is Done,
        unit(versions, oracle).cards_mmi_version == versions[first],
        unit(versions, oracle).chassis_type == values::text_or(
            values::under(chassis_data(versions, first, oracle), "chassisType"@),
            "unknown"@,
        ),
        unit(versions, oracle).slots.dom() == discovery::slots_of(
            cards(versions, first, oracle),
            states(versions, first, oracle),
        ).dom(),
        forall|slot: u32| #[trigger]
            unit(versions, oracle).slots.contains_key(slot) ==> {
                let s = discovery::slots_of(
                    cards(versions, first, oracle),
                    states(versions, first, oracle),
                )[slot];
                let found = unit(versions, oracle).slots[slot];
                &&& found.slot == s.slot
                &&& found.name == s.name
                &&& found.serial == s.serial
                &&& found.features == s.features
                &&& found.software_id == s.software_id
                &&& found.software_display_name == s.software_display_name
                &&& found.software_version == s.software_version
            },
{
    lemma_discovered(versions, 0, first, oracle);
    let version = versions[first];
    let call = cards_call(version, "GetChassisInfo"@);
    assert(discovery::chassis_request(version) == call);
    assert(discovery::states_request(version) == cards_call(version, "GetCardStates"@));
    let info = oracle(call)->0;
    let data = json::value_or(info.get("data"@), json::no_members());
    let reply = json::value_or(
        oracle(cards_call(version, "GetCardStates"@)),
        json::no_members(),
    );
    values::lemma_under(Some(info), "data"@);
    values::lemma_under(Some(data), "cards"@);
    values::lemma_under(Some(data), "chassisType"@);
    values::lemma_under(Some(reply), "cards"@);
    assert(discovery::items_in(data, "cards"@) == cards(versions, first, oracle));
    assert(discovery::items_in(reply, "cards"@) == states(versions, first, oracle));
}

/// What is known of the card in a slot is what the last card that names the slot tells of itself, and
/// a slot is known exactly if some card names it.
pub proof fn law_discovered_card(
    versions: Seq<Seq<char>>,
    first: int,
    oracle: Oracle,
    slot: u32,
    k: int,
)
    requires
        first_answered(versions, first, oracle),
    ensures
        discovery::discovered(versions, 0, oracle) is Done,
        unit(versions, oracle).cards_mmi_version == versions[first],
        unit(versions, oracle).chassis_type == values::text_or(
            values::under(chassis_data(versions, first, oracle), "chassisType"@),
            "unknown"@,
        ),
        (forall|i: int|
            0 <= i < cards(versions, first, oracle).len() ==> !names_slot(
                #[trigger] card_values(cards(versions, first, oracle))[i],
                slot,
            )) ==> !unit(versions, oracle).slots.contains_key(slot),
        last_of_slot(card_values(cards(versions, first, oracle)), k, slot) ==> {
            let value = card_values(cards(versions, first, oracle))[k];
            let found = unit(versions, oracle).slots[slot];
            &&& unit(versions, oracle).slots.contains_key(slot)
            &&& found.slot == slot
            &&& found.name == values::text_or(values::under(value, "name"@), Seq::empty())
            &&& found.serial == values::text_or(values::under(value, "serial"@), Seq::empty())
            &&& found.features == only_texts(values::elements(values::under(value, "features"@)))
        },
{
    lemma_unit(versions, first, oracle);
    let all = cards(versions, first, oracle);
    lemma_slots_of(all, states(versions, first, oracle), slot, k);
    if last_of_slot(card_values(all), k, slot) {
        let value = card_values(all)[k];
        assert(value == values::under(Some(all[k]), "value"@));
        lemma_texts(values::elements(values::under(value, "features"@)));
        reveal_strlit("");
        assert(""@ == Seq::<char>::empty());
    }
}

/// What is known of the software on a card is what the last state that names its slot tells: of the
/// software that runs, else of that which is configured. Without such a state nothing is known.
pub proof fn law_discovered_software(
    versions: Seq<Seq<char>>,
    first: int,
    oracle: Oracle,
    slot: u32,
    k: int,
    j: int,
)
    requires
        first_answered(versions, first, oracle),
        last_of_slot(card_values(cards(versions, first, oracle)), k, slot),
    ensures
        ({
            let found = unit(versions, oracle).slots[slot];
            let all = states(versions, first, oracle);
            &&& last_of_slot(state_values(all), j, slot) ==> {
                let told = software(Some(all[j]));
                &&& found.software_id == values::text_in(values::under(told, "softwareId"@))
                &&& found.software_display_name == values::text_in(values::under(told, "displayName"@))
                &&& found.software_version == values::text_in(values::under(told, "ver"@))
            }
            &&& (forall|i: int| 0 <= i < all.len() ==> !names_slot(Some(#[trigger] all[i]), slot))
                ==> {
                &&& found.software_id is None
                &&& found.software_display_name is None
                &&& found.software_version is None
            }
        }),
{
    lemma_unit(versions, first, oracle);
    let all = states(versions, first, oracle);
    lemma_slots_of(cards(versions, first, oracle), all, slot, k);
    lemma_state_of(all, slot, j);
    assert(unit(versions, oracle).slots.contains_key(slot));
    let state = discovery::state_of(all, slot);
    values::lemma_under(state, "logical"@);
    let logical = values::under(values::under(state, "logical"@), "value"@);
    values::lemma_under(logical, "login"@);
    values::lemma_under(logical, "configSwInfo"@);
    let login = values::under(values::under(logical, "login"@), "value"@);
    values::lemma_under(login, "swInfo"@);
    let told = software(state);
    values::lemma_under(told, "softwareId"@);
    values::lemma_under(told, "displayName"@);
    values::lemma_under(told, "ver"@);
}

/// Where the unit tells its chassis under none of the versions, there is no unit.
pub proof fn law_no_version_answers(versions: Seq<Seq<char>>, next: nat, oracle: Oracle)
    requires
        forall|i: int|
            0 <= i < versions.len() ==> oracle(
                cards_call(#[trigger] versions[i], "GetChassisInfo"@),
            ) is None,
    ensures
        discovery::discovered(versions, next, oracle) is NoChassis,
    decreases versions.len() - next,
{
    if next < versions.len() {
        assert(discovery::chassis_request(versions[next as int]) == cards_call(
            versions[next as int],
            "GetChassisInfo"@,
        ));
        law_no_version_answers(versions, next + 1, oracle);
    }
}

/// `{"slot": <n>}`
pub open spec fn slot_only(slot: u32) -> JsonView {
    JsonView::Object(
        Map::empty().insert(
            "slot"@,
            JsonView::Number(Number { exact: Exact::Unsigned(slot as u64), reading: None }),
        ),
    )
}

/// A call to a module of a card.
pub open spec fn module_call(
    slot: u32,
    interface: Seq<char>,
    version: Seq<char>,
    module: Seq<char>,
    command: Seq<char>,
    params: JsonView,
) -> RequestView {
    RequestView {
        endpoint: Endpoint::Board(slot),
        method: interface + ":"@ + version + "/"@ + module + "/"@ + command,
        params,
    }
}

/// Whether a record is that of the first version that a card answers; there is none where it answers
/// none.
pub open spec fn records_first(
    found: Option<RecordView>,
    oracle: Oracle,
    slot: u32,
    interface: Seq<char>,
    module: Seq<char>,
    command: Seq<char>,
    tried: Seq<Seq<char>>,
    params: JsonView,
) -> bool {
    match found {
        Some(r) => {
            &&& r.family == interface
            &&& r.interface == interface
            &&& r.module == module
            &&& r.probe_method == interface + ":"@ + r.version + "/"@ + module + "/"@ + command
            &&& exists|n: int|
                0 <= n < tried.len() && #[trigger] tried[n] == r.version && oracle(
                    module_call(slot, interface, tried[n], module, command, params),
                ) is Some && forall|i: int|
                    0 <= i < n ==> oracle(
                        module_call(slot, interface, #[trigger] tried[i], module, command, params),
                    ) is None
        },
        None => forall|i: int|
            0 <= i < tried.len() ==> oracle(
                module_call(slot, interface, #[trigger] tried[i], module, command, params),
            ) is None,
    }
}

/// Whether a card is asked for a module with the given versions, the first first, and what it answers
/// is recorded.
pub open spec fn finds(
    versions: Seq<Seq<char>>,
    first: int,
    oracle: Oracle,
    slot: u32,
    interface: Seq<char>,
    module: Seq<char>,
    command: Seq<char>,
    tried: Seq<Seq<char>>,
    params: JsonView,
) -> bool {
    unit(versions, oracle).slots.contains_key(slot) ==> records_first(
        capabilities::find_record(
            unit(versions, oracle).slots[slot].modules,
            interface + "/"@ + module,
        ),
        oracle,
        slot,
        interface,
        module,
        command,
        tried,
        params,
    )
}

proof fn lemma_first_version(slot: u32, probe: ProbeView, from: nat, oracle: Oracle)
    requires
        from <= probe.versions.len(),
    ensures
        match discovery::first_version(slot, probe, from, oracle) {
            Some(v) => exists|n: int|
                from <= n < probe.versions.len() && #[trigger] probe.versions[n] == v && oracle(
                    module_call(
                        slot,
                        probe.interface,
                        probe.versions[n],
                        probe.module,
                        probe.command,
                        probe.params.body(slot),
                    ),
                ) is Some && forall|i: int|
                    from <= i < n ==> oracle(
                        module_call(
                            slot,
                            probe.interface,
                            #[trigger] probe.versions[i],
                            probe.module,
                            probe.command,
                            probe.params.body(slot),
                        ),
                    ) is None,
            None => forall|i: int|
                from <= i < probe.versions.len() ==> oracle(
                    module_call(
                        slot,
                        probe.interface,
                        #[trigger] probe.versions[i],
                        probe.module,
                        probe.command,
                        probe.params.body(slot),
                    ),
                ) is None,
        },
    decreases probe.versions.len() - from,
{
    if from < probe.versions.len() {
        assert(discovery::attempt(slot, probe, probe.versions[from as int]) == module_call(
            slot,
            probe.interface,
            probe.versions[from as int],
            probe.module,
            probe.command,
            probe.params.body(slot),
        ));
        lemma_first_version(slot, probe, from + 1, oracle);
    }
}

proof fn lemma_finds(versions: Seq<Seq<char>>, first: int, oracle: Oracle, slot: u32, i: int)
    requires
        first_answered(versions, first, oracle),
        0 <= i < probe_registry::all_probes().len(),
    ensures
        ({
            let p = probe_registry::all_probes()[i];
            p.family == p.interface ==> finds(
                versions,
                first,
                oracle,
                slot,
                p.interface,
                p.module,
                p.command,
                p.versions,
                p.params.body(slot),
            )
        }),
{
    let p = probe_registry::all_probes()[i];
    lemma_unit(versions, first, oracle);
    discovery::law_first_version_is_recorded(versions, 0, oracle, slot, p.key());
    lemma_first_version(slot, p, 0, oracle);
}

/// Which modules a card is asked for, with which versions, and what is recorded of them.
pub proof fn law_discovered_modules(
    versions: Seq<Seq<char>>,
    first: int,
    oracle: Oracle,
    slot: u32,
)
    requires
        first_answered(versions, first, oracle),
    ensures
        finds(
            versions, first, oracle, slot, "ipGateway"@, "input"@, "GetInputs"@,
            seq!["1.20"@, "1.16"@, "1.15"@, "1.14"@, "1.10"@],
            JsonView::Object(Map::empty()),
        ),
        finds(
            versions, first, oracle, slot, "ipGateway"@, "output"@, "GetOutputs"@,
            seq!["1.20"@, "1.16"@, "1.15"@, "1.14"@, "1.10"@],
            JsonView::Object(Map::empty()),
        ),
        finds(
            versions, first, oracle, slot, "ipGateway"@, "ipinterface"@, "GetIpInterfaces"@,
            seq!["1.20"@, "1.16"@, "1.15"@, "1.14"@, "1.10"@],
            JsonView::Object(Map::empty()),
        ),
        finds(
            versions, first, oracle, slot, "board"@, "services"@, "GetInputServices"@,
            seq!["2.16"@, "2.8"@, "4.1"@, "1.15"@],
            JsonView::Object(Map::empty().insert("query"@, JsonView::Object(Map::empty()))),
        ),
        finds(
            versions, first, oracle, slot, "Xger"@, "cardStatus"@, "GetCardStatus"@,
            seq!["2.55"@, "2.54"@, "2.53"@, "2.52"@, "2.49"@, "2.44"@],
            slot_only(slot),
        ),
        finds(
            versions, first, oracle, slot, "Xger"@, "cardAllocation"@, "GetCardAllocations"@,
            seq!["2.55"@, "2.54"@, "2.53"@, "2.52"@, "2.49"@],
            JsonView::Object(Map::empty()),
        ),
        finds(
            versions, first, oracle, slot, "Xger"@, "multiService"@, "GetMultiServices"@,
            seq!["2.55"@, "2.54"@, "2.53"@, "2.52"@, "2.49"@, "2.16"@],
            JsonView::Object(Map::empty()),
        ),
        finds(
            versions, first, oracle, slot, "Xger"@, "audioProfile"@, "GetAudioProfiles"@,
            seq!["2.55"@, "2.54"@, "2.53"@, "2.52"@, "2.49"@, "2.6"@],
            JsonView::Object(Map::empty()),
        ),
        finds(
            versions, first, oracle, slot, "Xger"@, "ipInterface"@, "GetIpInterfaces"@,
            seq!["2.55"@, "2.54"@, "2.53"@, "2.52"@, "2.49"@],
            JsonView::Object(Map::empty()),
        ),
        finds(
            versions, first, oracle, slot, "Xger"@, "imageUpload"@, "GetImages"@,
            seq!["2.55"@, "2.54"@, "2.53"@, "2.52"@, "2.49"@],
            JsonView::Object(Map::empty()),
        ),
        finds(
            versions, first, oracle, slot, "Xger"@, "poolConfig"@, "GetPoolConfig"@,
            seq!["2.55"@, "2.54"@, "2.53"@, "2.52"@, "2.49"@],
            JsonView::Object(Map::empty()),
        ),
        finds(
            versions, first, oracle, slot, "Xger"@, "coderService"@, "GetCoderServices"@,
            seq!["2.55"@, "2.54"@, "2.53"@, "2.52"@, "2.49"@, "2.44"@, "2.40"@],
            JsonView::Object(Map::empty()),
        ),
        finds(
            versions, first, oracle, slot, "Xger"@, "ipConnection"@, "GetIpConnections"@,
            seq!["2.55"@, "2.54"@, "2.53"@, "2.52"@, "2.49"@],
            JsonView::Object(Map::empty()),
        ),
        finds(
            versions, first, oracle, slot, "Xger"@, "lockStatus"@, "GetLockStatus"@,
            seq!["2.55"@, "2.54"@, "2.53"@, "2.52"@, "2.49"@],
            JsonView::Object(Map::empty()),
        ),
        finds(
            versions, first, oracle, slot, "Xger"@, "psiStatus"@, "GetPsiStatus"@,
            seq!["2.55"@, "2.54"@, "2.53"@, "2.52"@, "2.49"@],
            JsonView::Object(Map::empty()),
        ),
        finds(
            versions, first, oracle, slot, "hipEnc"@, "hipCardSettings"@, "GetCardSettings"@,
            seq!["1.7"@, "1.5"@, "1.2"@, "1.0"@],
            JsonView::Object(Map::empty()),
        ),
        finds(
            versions, first, oracle, slot, "hipEnc"@, "hipEncoder"@, "GetEncoders"@,
            seq!["1.7"@, "1.4"@, "1.0"@],
            JsonView::Object(Map::empty()),
        ),
        finds(
            versions, first, oracle, slot, "hipEnc"@, "hipEncStatus"@, "GetEncoderTransportStatus"@,
            seq!["1.7"@, "1.6"@, "1.4"@, "1.0"@],
            JsonView::Object(Map::empty()),
        ),
        finds(
            versions, first, oracle, slot, "hipEnc"@, "hipIpInterface"@, "GetIpInterfaces"@,
            seq!["1.7"@, "1.2"@, "1.0"@],
            JsonView::Object(Map::empty()),
        ),
        finds(
            versions, first, oracle, slot, "hipEnc"@, "hipNetworkStatus"@, "GetNetworkStatus"@,
            seq!["1.7"@, "1.3"@, "1.0"@],
            JsonView::Object(Map::empty()),
        ),
        finds(
            versions, first, oracle, slot, "hipTsEnc"@, "hipTsEncoder"@, "GetEncoders"@,
            seq!["1.11"@, "1.7"@, "1.0"@],
            JsonView::Object(Map::empty()),
        ),
        finds(
            versions, first, oracle, slot, "hipTsEnc"@, "hipEncStatus"@, "GetEncoderTransportStatus"@,
            seq!["1.11"@, "1.6"@, "1.0"@],
            JsonView::Object(Map::empty()),
        ),
        finds(
            versions, first, oracle, slot, "sdi"@, "cardinfo"@, "GetCardInfo"@,
            seq!["1.24"@, "1.23"@, "1.18"@, "1.2"@, "1.0"@],
            JsonView::Object(Map::empty()),
        ),
        finds(
            versions, first, oracle, slot, "sdi"@, "cardsettings"@, "GetCardSettings"@,
            seq!["1.24"@, "1.23"@, "1.0"@],
            JsonView::Object(Map::empty()),
        ),
        finds(
            versions, first, oracle, slot, "sdi"@, "physicalports"@, "GetPhysicalPorts"@,
            seq!["1.24"@, "1.23"@, "1.17"@],
            JsonView::Object(Map::empty()),
        ),
        finds(
            versions, first, oracle, slot, "sdi"@, "portstatus"@, "GetPortStatus"@,
            seq!["1.24"@, "1.23"@, "1.20"@],
            JsonView::Object(Map::empty()),
        ),
        probe_registry::all_probes().len() == 26,
{
    lemma_finds(versions, first, oracle, slot, 0);
    lemma_finds(versions, first, oracle, slot, 1);
    lemma_finds(versions, first, oracle, slot, 2);
    lemma_finds(versions, first, oracle, slot, 3);
    lemma_finds(versions, first, oracle, slot, 4);
    lemma_finds(versions, first, oracle, slot, 5);
    lemma_finds(versions, first, oracle, slot, 6);
    lemma_finds(versions, first, oracle, slot, 7);
    lemma_finds(versions, first, oracle, slot, 8);
    lemma_finds(versions, first, oracle, slot, 9);
    lemma_finds(versions, first, oracle, slot, 10);
    lemma_finds(versions, first, oracle, slot, 11);
    lemma_finds(versions, first, oracle, slot, 12);
    lemma_finds(versions, first, oracle, slot, 13);
    lemma_finds(versions, first, oracle, slot, 14);
    lemma_finds(versions, first, oracle, slot, 15);
    lemma_finds(versions, first, oracle, slot, 16);
    lemma_finds(versions, first, oracle, slot, 17);
    lemma_finds(versions, first, oracle, slot, 18);
    lemma_finds(versions, first, oracle, slot, 19);
    lemma_finds(versions, first, oracle, slot, 20);
    lemma_finds(versions, first, oracle, slot, 21);
    lemma_finds(versions, first, oracle, slot, 22);
    lemma_finds(versions, first, oracle, slot, 23);
    lemma_finds(versions, first, oracle, slot, 24);
    lemma_finds(versions, first, oracle, slot, 25);
}

/// What is recorded of a card's modules are the modules that answered and no others: none is recorded
/// under any other name than that of an entry of the registry.
pub proof fn law_no_other_modules(
    versions: Seq<Seq<char>>,
    first: int,
    oracle: Oracle,
    slot: u32,
    key: Seq<char>,
)
    requires
        first_answered(versions, first, oracle),
        forall|i: int|
            0 <= i < probe_registry::all_probes().len() ==> (
            #[trigger] probe_registry::all_probes()[i]).key() != key,
        unit(versions, oracle).slots.contains_key(slot),
    ensures
        capabilities::find_record(unit(versions, oracle).slots[slot].modules, key) is None,
{
    lemma_unit(versions, first, oracle);
    discovery::law_first_version_is_recorded(versions, 0, oracle, slot, key);
}

/// Every card that was found stands under the number of its slot.
pub proof fn law_slots_agree(versions: Seq<Seq<char>>, first: int, oracle: Oracle)
    requires
        first_answered(versions, first, oracle),
    ensures
        polling::slots_agree(unit(versions, oracle)),
{
    lemma_unit(versions, first, oracle);
    lemma_own_slot(cards(versions, first, oracle), states(versions, first, oracle));
}

proof fn lemma_own_slot(cards: Seq<JsonView>, states: Seq<JsonView>)
    ensures
        forall|slot: u32| #[trigger]
            discovery::slots_of(cards, states).contains_key(slot) ==> discovery::slots_of(
                cards,
                states,
            )[slot].slot == slot,
    decreases cards.len(),
{
    if cards.len() > 0 {
        lemma_own_slot(cards.drop_last(), states);
    }
}

} // verus!
