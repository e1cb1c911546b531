//! What the unit is polled for, and where the results are reported.

use vstd::prelude::*;

use crate::appear_x::capabilities::DeviceView;
use crate::appear_x::jsonrpc::{Endpoint, RequestView};
use crate::appear_x::polling::{self, Sink, Subject, TaskView};
use crate::appear_x::state::{self, SharedView};
use crate::config::PollingConfig;
use crate::json::{Exact, JsonView, Number};
use crate::text;

verus! {

/// `{}`
pub open spec fn nothing() -> JsonView {
    JsonView::Object(Map::empty())
}

/// `{"slot": <n>}`
pub open spec fn slot_only(slot: u32) -> JsonView {
    JsonView::Object(
        Map::empty().insert(
            "slot"@,
            JsonView::Number(Number { exact: Exact::Unsigned(slot as u64), reading: None }),
        ),
    )
}

/// Whether what is known of each card stands under the number of its slot.
pub open spec fn slots_agree(caps: DeviceView) -> bool {
    forall|slot: u32| #[trigger] caps.slots.contains_key(slot) ==> caps.slots[slot].slot == slot
}

/// Whether a poll calls a module of a card under the version with which it answered.
pub open spec fn polls(
    t: TaskView,
    caps: DeviceView,
    slot: u32,
    name: Seq<char>,
    interface: Seq<char>,
    module: Seq<char>,
    command: Seq<char>,
    interval_secs: nat,
    params: JsonView,
) -> bool {
    match state::version_on(caps, slot, interface, module) {
        Some(v) => {
            &&& t.requests.len() == 1
            &&& t.requests[0].endpoint == Endpoint::Board(slot)
            &&& t.requests[0].method == interface + ":"@ + v + "/"@ + module + "/"@ + command
            &&& t.requests[0].params == params
            &&& t.interval_secs == interval_secs
            &&& t.name == name + "-slot"@ + text::decimal(slot as nat)
        },
        None => false,
    }
}

/// Whether a poll asks for what its result is kept as.
pub open spec fn fits(c: PollingConfig, caps: DeviceView, t: TaskView) -> bool {
    match t.subject {
        Subject::Card { slot, sink } => match sink {
            Sink::Inputs => polls(
                t, caps, slot, "ipgw-inputs"@, "ipGateway"@, "input"@, "GetInputs"@, c.inputs_interval_secs as nat, nothing(),
            ),
            Sink::Outputs => polls(
                t, caps, slot, "ipgw-outputs"@, "ipGateway"@, "output"@, "GetOutputs"@, c.outputs_interval_secs as nat, nothing(),
            ),
            Sink::IpInterfaces => polls(
                t, caps, slot, "ipgw-ifaces"@, "ipGateway"@, "ipinterface"@, "GetIpInterfaces"@, 2 * c.inputs_interval_secs as nat, nothing(),
            ),
            Sink::CardStatus => polls(
                t, caps, slot, "xger-cardstatus"@, "Xger"@, "cardStatus"@, "GetCardStatus"@, c.card_status_interval_secs as nat, slot_only(slot),
            ),
            Sink::CoderServices => polls(
                t, caps, slot, "xger-coderService"@, "Xger"@, "coderService"@, "GetCoderServices"@, c.xger_config_interval_secs as nat, nothing(),
            ),
            Sink::MultiServices => polls(
                t, caps, slot, "xger-multiService"@, "Xger"@, "multiService"@, "GetMultiServices"@, c.xger_config_interval_secs as nat, nothing(),
            ),
            Sink::AudioProfiles => polls(
                t, caps, slot, "xger-audioProfile"@, "Xger"@, "audioProfile"@, "GetAudioProfiles"@, c.xger_config_interval_secs as nat, nothing(),
            ),
            Sink::XgerIpInterfaces => polls(
                t, caps, slot, "xger-ipInterface"@, "Xger"@, "ipInterface"@, "GetIpInterfaces"@, c.xger_config_interval_secs as nat, nothing(),
            ),
            Sink::CardAllocations => polls(
                t, caps, slot, "xger-cardAllocation"@, "Xger"@, "cardAllocation"@, "GetCardAllocations"@, c.xger_config_interval_secs as nat, nothing(),
            ),
            Sink::IpConnections => polls(
                t, caps, slot, "xger-ipConnection"@, "Xger"@, "ipConnection"@, "GetIpConnections"@, c.xger_config_interval_secs as nat, nothing(),
            ),
            Sink::RedundancyGroups => polls(
                t, caps, slot, "xger-redundancyGroup"@, "Xger"@, "redundancyGroup"@, "GetRedundancyGroups"@, c.xger_config_interval_secs as nat, nothing(),
            ),
            Sink::RedundancyGroupStatus => polls(
                t, caps, slot, "xger-redundancyGroupStatus"@, "Xger"@, "redundancyGroupStatus"@, "GetRedundancyGroupStatus"@, c.card_status_interval_secs as nat, nothing(),
            ),
            Sink::HipEncoders => polls(
                t, caps, slot, "hipEnc-hipEncoder"@, "hipEnc"@, "hipEncoder"@, "GetEncoders"@, c.xger_config_interval_secs as nat, nothing(),
            ) || polls(
                t, caps, slot, "hipTsEnc-hipTsEncoder"@, "hipTsEnc"@, "hipTsEncoder"@, "GetEncoders"@, c.xger_config_interval_secs as nat, nothing(),
            ),
            Sink::HipDecoders => polls(
                t, caps, slot, "hipDec-hipDecoder"@, "hipDec"@, "hipDecoder"@, "GetDecoders"@, c.xger_config_interval_secs as nat, nothing(),
            ) || polls(
                t, caps, slot, "hipTsDec-hipTsDecoder"@, "hipTsDec"@, "hipTsDecoder"@, "GetDecoders"@, c.xger_config_interval_secs as nat, nothing(),
            ),
            Sink::DpiStatus => polls(
                t, caps, slot, "xger-dpiStatus"@, "Xger"@, "dpiStatus"@, "GetDpiStatus"@, c.xger_config_interval_secs as nat, nothing(),
            ),
            Sink::EsamStatus => polls(
                t, caps, slot, "xger-esamStatus"@, "Xger"@, "esamStatus"@, "GetEsamStatus"@, c.xger_config_interval_secs as nat, nothing(),
            ),
            Sink::PoisServerStatus => polls(
                t, caps, slot, "xger-poisServerStatus"@, "Xger"@, "poisServerStatus"@, "GetPoisServerStatus"@, c.xger_config_interval_secs as nat, nothing(),
            ),
            Sink::PoolConfig => polls(
                t, caps, slot, "xger-poolConfig"@, "Xger"@, "poolConfig"@, "GetPoolConfig"@, c.xger_config_interval_secs as nat, nothing(),
            ),
            Sink::LockStatus => polls(
                t, caps, slot, "xger-lockStatus"@, "Xger"@, "lockStatus"@, "GetLockStatus"@, c.card_status_interval_secs as nat, nothing(),
            ),
            Sink::PsiStatus => polls(
                t, caps, slot, "xger-psiStatus"@, "Xger"@, "psiStatus"@, "GetPsiStatus"@, c.xger_config_interval_secs as nat, nothing(),
            ),
            Sink::OutputServices => polls(
                t, caps, slot, "board-output-services"@, "board"@, "services"@, "GetOutputServices"@, c.xger_config_interval_secs as nat, nothing(),
            ),
        },
        _ => false,
    }
}

proof fn lemma_row_fits(c: PollingConfig, caps: DeviceView, slot: u32, i: int, t: TaskView)
    requires
        slots_agree(caps),
        polling::asks_for(c, caps, t, slot, i),
    ensures
        fits(c, caps, t),
{
    assert(caps.slots[slot].slot == slot);
    assert(state::version_on(
        caps,
        slot,
        polling::poll_rows()[i].interface,
        polling::poll_rows()[i].module,
    ) is Some);
}

/// What is kept in a place of the state is what the module for that place answers: each poll of a
/// card calls the module that belongs to where its result goes, at the interval for it.
pub proof fn law_each_poll_fits(c: PollingConfig, caps: DeviceView, k: int)
    requires
        slots_agree(caps),
        3 <= k < polling::polling_plan(c, caps).len(),
    ensures
        fits(c, caps, polling::polling_plan(c, caps)[k]),
{
    polling::law_only_discovered_modules_are_polled(c, caps);
    let t = polling::polling_plan(c, caps)[k];
    assert(polling::of_a_card(c, caps, t));
    let (slot, i) = choose|slot: u32, i: int| polling::asks_for(c, caps, t, slot, i);
    lemma_row_fits(c, caps, slot, i, t);
}

/// Whether a result is kept for the slot under which a card is known. The others are kept for the slot
/// that the card itself tells.
pub open spec fn by_place(sink: Sink) -> bool {
    sink == Sink::Inputs || sink == Sink::Outputs || sink == Sink::IpInterfaces || sink
        == Sink::CardStatus || sink == Sink::OutputServices
}

/// Whether a poll is of the card that is known under a slot.
pub open spec fn of_slot(t: TaskView, caps: DeviceView, slot: u32) -> bool {
    match t.subject {
        Subject::Card { slot: asked, sink } => {
            &&& caps.slots.contains_key(slot)
            &&& asked == (if by_place(sink) {
                slot
            } else {
                caps.slots[slot].slot
            })
            &&& t.requests.len() == 1
            &&& t.requests[0].endpoint == Endpoint::Board(asked)
        },
        _ => false,
    }
}

/// Each poll after those of the chassis is of a card, and there are twenty-three different ones.
pub proof fn law_each_poll_is_of_a_card(c: PollingConfig, caps: DeviceView, k: int)
    requires
        3 <= k < polling::polling_plan(c, caps).len(),
    ensures
        exists|slot: u32| of_slot(polling::polling_plan(c, caps)[k], caps, slot),
        polling::poll_rows().len() == 23,
{
    polling::law_only_discovered_modules_are_polled(c, caps);
    let t = polling::polling_plan(c, caps)[k];
    assert(polling::of_a_card(c, caps, t));
    let (slot, i) = choose|slot: u32, i: int| polling::asks_for(c, caps, t, slot, i);
    assert(of_slot(t, caps, slot));
}

/// Whether a module that answered on a slot is polled, and its result kept in the given place.
pub open spec fn is_polled(
    c: PollingConfig,
    caps: DeviceView,
    slot: u32,
    name: Seq<char>,
    interface: Seq<char>,
    module: Seq<char>,
    command: Seq<char>,
    interval_secs: nat,
    params: JsonView,
    sink: Sink,
) -> bool {
    state::version_on(caps, slot, interface, module) is Some ==> exists|k: int|
        3 <= k < polling::polling_plan(c, caps).len() && (#[trigger] polling::polling_plan(
            c,
            caps,
        )[k]).subject == (Subject::Card { slot, sink }) && polls(
            polling::polling_plan(c, caps)[k],
            caps,
            slot,
            name,
            interface,
            module,
            command,
            interval_secs,
            params,
        )
}

proof fn lemma_is_polled(c: PollingConfig, caps: DeviceView, slot: u32, i: int)
    requires
        slots_agree(caps),
        0 <= i < polling::poll_rows().len(),
    ensures
        ({
            let r = polling::poll_rows()[i];
            is_polled(
                c,
                caps,
                slot,
                r.name,
                r.interface,
                r.module,
                r.command,
                polling::interval_of(c, r.pace),
                if r.sink == Sink::CardStatus {
                    slot_only(slot)
                } else {
                    nothing()
                },
                r.sink,
            )
        }),
{
    let r = polling::poll_rows()[i];
    if state::version_on(caps, slot, r.interface, r.module) is Some {
        polling::law_only_discovered_modules_are_polled(c, caps);
        let version = caps.slots[slot].version_of(r.interface, r.module)->0;
        let t = polling::row_task(c, slot, caps.slots[slot], r, version);
        let plan = polling::polling_plan(c, caps);
        assert(caps.slots[slot].version_of(
            polling::poll_rows()[i].interface,
            polling::poll_rows()[i].module,
        ) is Some);
        assert(plan.contains(t));
        let k = choose|k: int| 0 <= k < plan.len() && plan[k] == t;
        assert(caps.slots[slot].slot == slot);
        assert(plan[k].subject == (Subject::Card { slot, sink: r.sink }));
        assert(k >= 3) by {
            assert(plan[0].subject == Subject::Alarms);
            assert(plan[1].subject == Subject::Chassis);
            assert(plan[2].subject == Subject::Cards);
        }
    }
}

/// Each module that answered on a card is polled with its own command, at its own interval, and its
/// result is kept in its own place.
pub proof fn law_each_module_is_polled(c: PollingConfig, caps: DeviceView, slot: u32)
    requires
        slots_agree(caps),
    ensures
        is_polled(
            c, caps, slot, "ipgw-inputs"@, "ipGateway"@, "input"@, "GetInputs"@, c.inputs_interval_secs as nat, nothing(), Sink::Inputs,
        ),
        is_polled(
            c, caps, slot, "ipgw-outputs"@, "ipGateway"@, "output"@, "GetOutputs"@, c.outputs_interval_secs as nat, nothing(), Sink::Outputs,
        ),
        is_polled(
            c, caps, slot, "ipgw-ifaces"@, "ipGateway"@, "ipinterface"@, "GetIpInterfaces"@, 2 * c.inputs_interval_secs as nat, nothing(), Sink::IpInterfaces,
        ),
        is_polled(
            c, caps, slot, "xger-cardstatus"@, "Xger"@, "cardStatus"@, "GetCardStatus"@, c.card_status_interval_secs as nat, slot_only(slot), Sink::CardStatus,
        ),
        is_polled(
            c, caps, slot, "xger-coderService"@, "Xger"@, "coderService"@, "GetCoderServices"@, c.xger_config_interval_secs as nat, nothing(), Sink::CoderServices,
        ),
        is_polled(
            c, caps, slot, "xger-multiService"@, "Xger"@, "multiService"@, "GetMultiServices"@, c.xger_config_interval_secs as nat, nothing(), Sink::MultiServices,
        ),
        is_polled(
            c, caps, slot, "xger-audioProfile"@, "Xger"@, "audioProfile"@, "GetAudioProfiles"@, c.xger_config_interval_secs as nat, nothing(), Sink::AudioProfiles,
        ),
        is_polled(
            c, caps, slot, "xger-ipInterface"@, "Xger"@, "ipInterface"@, "GetIpInterfaces"@, c.xger_config_interval_secs as nat, nothing(), Sink::XgerIpInterfaces,
        ),
        is_polled(
            c, caps, slot, "xger-cardAllocation"@, "Xger"@, "cardAllocation"@, "GetCardAllocations"@, c.xger_config_interval_secs as nat, nothing(), Sink::CardAllocations,
        ),
        is_polled(
            c, caps, slot, "xger-ipConnection"@, "Xger"@, "ipConnection"@, "GetIpConnections"@, c.xger_config_interval_secs as nat, nothing(), Sink::IpConnections,
        ),
        is_polled(
            c, caps, slot, "xger-redundancyGroup"@, "Xger"@, "redundancyGroup"@, "GetRedundancyGroups"@, c.xger_config_interval_secs as nat, nothing(), Sink::RedundancyGroups,
        ),
        is_polled(
            c, caps, slot, "xger-redundancyGroupStatus"@, "Xger"@, "redundancyGroupStatus"@, "GetRedundancyGroupStatus"@, c.card_status_interval_secs as nat, nothing(), Sink::RedundancyGroupStatus,
        ),
        is_polled(
            c, caps, slot, "hipEnc-hipEncoder"@, "hipEnc"@, "hipEncoder"@, "GetEncoders"@, c.xger_config_interval_secs as nat, nothing(), Sink::HipEncoders,
        ),
        is_polled(
            c, caps, slot, "hipTsEnc-hipTsEncoder"@, "hipTsEnc"@, "hipTsEncoder"@, "GetEncoders"@, c.xger_config_interval_secs as nat, nothing(), Sink::HipEncoders,
        ),
        is_polled(
            c, caps, slot, "hipDec-hipDecoder"@, "hipDec"@, "hipDecoder"@, "GetDecoders"@, c.xger_config_interval_secs as nat, nothing(), Sink::HipDecoders,
        ),
        is_polled(
            c, caps, slot, "hipTsDec-hipTsDecoder"@, "hipTsDec"@, "hipTsDecoder"@, "GetDecoders"@, c.xger_config_interval_secs as nat, nothing(), Sink::HipDecoders,
        ),
        is_polled(
            c, caps, slot, "xger-dpiStatus"@, "Xger"@, "dpiStatus"@, "GetDpiStatus"@, c.xger_config_interval_secs as nat, nothing(), Sink::DpiStatus,
        ),
        is_polled(
            c, caps, slot, "xger-esamStatus"@, "Xger"@, "esamStatus"@, "GetEsamStatus"@, c.xger_config_interval_secs as nat, nothing(), Sink::EsamStatus,
        ),
        is_polled(
            c, caps, slot, "xger-poisServerStatus"@, "Xger"@, "poisServerStatus"@, "GetPoisServerStatus"@, c.xger_config_interval_secs as nat, nothing(), Sink::PoisServerStatus,
        ),
        is_polled(
            c, caps, slot, "xger-poolConfig"@, "Xger"@, "poolConfig"@, "GetPoolConfig"@, c.xger_config_interval_secs as nat, nothing(), Sink::PoolConfig,
        ),
        is_polled(
            c, caps, slot, "xger-lockStatus"@, "Xger"@, "lockStatus"@, "GetLockStatus"@, c.card_status_interval_secs as nat, nothing(), Sink::LockStatus,
        ),
        is_polled(
            c, caps, slot, "xger-psiStatus"@, "Xger"@, "psiStatus"@, "GetPsiStatus"@, c.xger_config_interval_secs as nat, nothing(), Sink::PsiStatus,
        ),
        is_polled(
            c, caps, slot, "board-output-services"@, "board"@, "services"@, "GetOutputServices"@, c.xger_config_interval_secs as nat, nothing(), Sink::OutputServices,
        ),
{
    lemma_is_polled(c, caps, slot, 0);
    lemma_is_polled(c, caps, slot, 1);
    lemma_is_polled(c, caps, slot, 2);
    lemma_is_polled(c, caps, slot, 3);
    lemma_is_polled(c, caps, slot, 4);
    lemma_is_polled(c, caps, slot, 5);
    lemma_is_polled(c, caps, slot, 6);
    lemma_is_polled(c, caps, slot, 7);
    lemma_is_polled(c, caps, slot, 8);
    lemma_is_polled(c, caps, slot, 9);
    lemma_is_polled(c, caps, slot, 10);
    lemma_is_polled(c, caps, slot, 11);
    lemma_is_polled(c, caps, slot, 12);
    lemma_is_polled(c, caps, slot, 13);
    lemma_is_polled(c, caps, slot, 14);
    lemma_is_polled(c, caps, slot, 15);
    lemma_is_polled(c, caps, slot, 16);
    lemma_is_polled(c, caps, slot, 17);
    lemma_is_polled(c, caps, slot, 18);
    lemma_is_polled(c, caps, slot, 19);
    lemma_is_polled(c, caps, slot, 20);
    lemma_is_polled(c, caps, slot, 21);
    lemma_is_polled(c, caps, slot, 22);
}

/// Whether a poll calls the chassis.
pub open spec fn asks_chassis(
    q: RequestView,
    version: Seq<char>,
    module: Seq<char>,
    command: Seq<char>,
    params: JsonView,
) -> bool {
    &&& q.endpoint == Endpoint::Mmi
    &&& q.method == "mmi"@ + ":"@ + version + "/"@ + module + "/"@ + command
    &&& q.params == params
}

/// The chassis is polled for its alarms, its model, its information and the states of its cards, each
/// under the version and at the interval of the settings.
pub proof fn law_chassis_polls(c: PollingConfig, caps: DeviceView)
    ensures
        ({
            let plan = polling::polling_plan(c, caps);
            &&& plan.len() >= 3
            &&& plan[0].subject == Subject::Alarms
            &&& plan[0].name == "alarms"@
            &&& plan[0].interval_secs == c.alarms_interval_secs
            &&& plan[0].requests.len() == 1
            &&& asks_chassis(
                plan[0].requests[0],
                c.alarms_mmi_version@,
                "alarms"@,
                "GetActiveAlarms"@,
                JsonView::Object(Map::empty().insert("query"@, nothing())),
            )
            &&& plan[1].subject == Subject::Chassis
            &&& plan[1].name == "chassis"@
            &&& plan[1].interval_secs == c.chassis_interval_secs
            &&& plan[1].requests.len() == 1
            &&& asks_chassis(
                plan[1].requests[0],
                c.chassis_mmi_version@,
                "chassisModel"@,
                "GetGraph"@,
                nothing(),
            )
            &&& plan[2].subject == Subject::Cards
            &&& plan[2].name == "cards"@
            &&& plan[2].interval_secs == c.cards_interval_secs
            &&& plan[2].requests.len() == 2
            &&& asks_chassis(
                plan[2].requests[0],
                c.cards_mmi_version@,
                "cards"@,
                "GetChassisInfo"@,
                nothing(),
            )
            &&& asks_chassis(
                plan[2].requests[1],
                c.cards_mmi_version@,
                "cards"@,
                "GetCardStates"@,
                nothing(),
            )
        }),
{
    polling::law_only_discovered_modules_are_polled(c, caps);
}

/// What is known after a poll of a card.
pub open spec fn after_poll(s: SharedView, sink: Sink, slot: u32, result: JsonView) -> SharedView {
    SharedView { state: polling::applied(s.state, sink, slot, result), ..s }
}

/// The elements of an array; nothing of any other value.
pub open spec fn elements(o: Option<JsonView>) -> Seq<JsonView> {
    match o {
        Some(JsonView::Array(a)) => a,
        _ => Seq::empty(),
    }
}

/// The list in the result of a poll. Output services may stand in a second envelope.
pub open spec fn list_in(sink: Sink, result: JsonView) -> Seq<JsonView> {
    match result.get("data"@) {
        Some(data) => if sink == Sink::OutputServices && data.get("data"@) is Some {
            elements(data.get("data"@))
        } else {
            elements(Some(data))
        },
        None => Seq::empty(),
    }
}

/// Whether snapshots before and after tell the same but for one member.
pub open spec fn differs_in(s: SharedView, after: SharedView, uptime: u64, name: Seq<char>) -> bool {
    forall|k: Seq<char>|
        k != name && k != "health_signals"@ ==> #[trigger] state::snapshot_of(after, uptime).get(k)
            == state::snapshot_of(s, uptime).get(k)
}

/// Whether the list that a poll found is what the snapshot then lists for the slot, under the given
/// name, with what the other slots had, and nothing else is changed.
pub open spec fn lists_result(
    s: SharedView,
    slot: u32,
    result: JsonView,
    uptime: u64,
    sink: Sink,
    name: Seq<char>,
    kept: Map<u32, Seq<JsonView>>,
) -> bool {
    let after = after_poll(s, sink, slot, result);
    &&& state::lists_all(
        state::snapshot_of(after, uptime).get(name),
        kept.insert(slot, list_in(sink, result)),
    )
    &&& differs_in(s, after, uptime, name)
    &&& state::snapshot_of(after, uptime).get("health_signals"@) == state::snapshot_of(
        s,
        uptime,
    ).get("health_signals"@)
}

/// Whether what a poll found is what the snapshot then tells for the slot, under the given name, with
/// what the other slots had, and nothing else is changed.
pub open spec fn tells_result(
    s: SharedView,
    slot: u32,
    result: JsonView,
    uptime: u64,
    sink: Sink,
    name: Seq<char>,
    kept: Map<u32, JsonView>,
) -> bool {
    let after = after_poll(s, sink, slot, result);
    &&& state::tells_all(
        state::snapshot_of(after, uptime).get(name),
        kept.insert(slot, result),
    )
    &&& differs_in(s, after, uptime, name)
    &&& sink != Sink::CardStatus ==> state::snapshot_of(after, uptime).get("health_signals"@)
        == state::snapshot_of(s, uptime).get("health_signals"@)
}

proof fn lemma_same_list(sink: Sink, slot: u32, result: JsonView)
    ensures
        sink != Sink::OutputServices ==> polling::data_in(result).items_or_none() == list_in(
            sink,
            result,
        ),
        sink == Sink::OutputServices ==> state::unpacked(
            polling::data_in(result),
        ).items_or_none() == list_in(sink, result),
{
    if result.get("data"@) is None {
        assert(polling::data_in(result).items_or_none() == Seq::<JsonView>::empty());
    }
}

#[verifier::rlimit(40)]
proof fn lemma_lists_inputs(s: SharedView, slot: u32, result: JsonView, uptime: u64)
    ensures
        lists_result(s, slot, result, uptime, Sink::Inputs, "inputs"@, s.state.inputs),
{
    lemma_same_list(Sink::Inputs, slot, result);
    state::law_snapshot_members(s, uptime);
    state::law_snapshot_reads_back(after_poll(s, Sink::Inputs, slot, result), uptime);
    state::law_snapshot_members(after_poll(s, Sink::Inputs, slot, result), uptime);
}

#[verifier::rlimit(40)]
proof fn lemma_lists_outputs(s: SharedView, slot: u32, result: JsonView, uptime: u64)
    ensures
        lists_result(s, slot, result, uptime, Sink::Outputs, "outputs"@, s.state.outputs),
{
    lemma_same_list(Sink::Outputs, slot, result);
    state::law_snapshot_members(s, uptime);
    state::law_snapshot_reads_back(after_poll(s, Sink::Outputs, slot, result), uptime);
    state::law_snapshot_members(after_poll(s, Sink::Outputs, slot, result), uptime);
}

#[verifier::rlimit(40)]
proof fn lemma_lists_ip_interfaces(s: SharedView, slot: u32, result: JsonView, uptime: u64)
    ensures
        lists_result(s, slot, result, uptime, Sink::IpInterfaces, "ip_interfaces"@, s.state.ip_interfaces),
{
    lemma_same_list(Sink::IpInterfaces, slot, result);
    state::law_snapshot_members(s, uptime);
    state::law_snapshot_reads_back(after_poll(s, Sink::IpInterfaces, slot, result), uptime);
    state::law_snapshot_members(after_poll(s, Sink::IpInterfaces, slot, result), uptime);
}

#[verifier::rlimit(40)]
proof fn lemma_lists_coder_services(s: SharedView, slot: u32, result: JsonView, uptime: u64)
    ensures
        lists_result(s, slot, result, uptime, Sink::CoderServices, "coder_services"@, s.state.coder_services),
{
    lemma_same_list(Sink::CoderServices, slot, result);
    state::law_snapshot_members(s, uptime);
    state::law_snapshot_reads_back(after_poll(s, Sink::CoderServices, slot, result), uptime);
    state::law_snapshot_members(after_poll(s, Sink::CoderServices, slot, result), uptime);
}

#[verifier::rlimit(40)]
proof fn lemma_lists_multi_services(s: SharedView, slot: u32, result: JsonView, uptime: u64)
    ensures
        lists_result(s, slot, result, uptime, Sink::MultiServices, "multi_services"@, s.state.multi_services),
{
    lemma_same_list(Sink::MultiServices, slot, result);
    state::law_snapshot_members(s, uptime);
    state::law_snapshot_reads_back(after_poll(s, Sink::MultiServices, slot, result), uptime);
    state::law_snapshot_members(after_poll(s, Sink::MultiServices, slot, result), uptime);
}

#[verifier::rlimit(40)]
proof fn lemma_lists_audio_profiles(s: SharedView, slot: u32, result: JsonView, uptime: u64)
    ensures
        lists_result(s, slot, result, uptime, Sink::AudioProfiles, "audio_profiles"@, s.state.audio_profiles),
{
    lemma_same_list(Sink::AudioProfiles, slot, result);
    state::law_snapshot_members(s, uptime);
    state::law_snapshot_reads_back(after_poll(s, Sink::AudioProfiles, slot, result), uptime);
    state::law_snapshot_members(after_poll(s, Sink::AudioProfiles, slot, result), uptime);
}

#[verifier::rlimit(40)]
proof fn lemma_lists_xger_ip_interfaces(s: SharedView, slot: u32, result: JsonView, uptime: u64)
    ensures
        lists_result(s, slot, result, uptime, Sink::XgerIpInterfaces, "xger_ip_interfaces"@, s.state.xger_ip_interfaces),
{
    lemma_same_list(Sink::XgerIpInterfaces, slot, result);
    state::law_snapshot_members(s, uptime);
    state::law_snapshot_reads_back(after_poll(s, Sink::XgerIpInterfaces, slot, result), uptime);
    state::law_snapshot_members(after_poll(s, Sink::XgerIpInterfaces, slot, result), uptime);
}

#[verifier::rlimit(40)]
proof fn lemma_lists_card_allocations(s: SharedView, slot: u32, result: JsonView, uptime: u64)
    ensures
        lists_result(s, slot, result, uptime, Sink::CardAllocations, "card_allocations"@, s.state.card_allocations),
{
    lemma_same_list(Sink::CardAllocations, slot, result);
    state::law_snapshot_members(s, uptime);
    state::law_snapshot_reads_back(after_poll(s, Sink::CardAllocations, slot, result), uptime);
    state::law_snapshot_members(after_poll(s, Sink::CardAllocations, slot, result), uptime);
}

#[verifier::rlimit(40)]
proof fn lemma_lists_ip_connections(s: SharedView, slot: u32, result: JsonView, uptime: u64)
    ensures
        lists_result(s, slot, result, uptime, Sink::IpConnections, "ip_connections"@, s.state.ip_connections),
{
    lemma_same_list(Sink::IpConnections, slot, result);
    state::law_snapshot_members(s, uptime);
    state::law_snapshot_reads_back(after_poll(s, Sink::IpConnections, slot, result), uptime);
    state::law_snapshot_members(after_poll(s, Sink::IpConnections, slot, result), uptime);
}

#[verifier::rlimit(40)]
proof fn lemma_lists_redundancy_groups(s: SharedView, slot: u32, result: JsonView, uptime: u64)
    ensures
        lists_result(s, slot, result, uptime, Sink::RedundancyGroups, "redundancy_groups"@, s.state.redundancy_groups),
{
    lemma_same_list(Sink::RedundancyGroups, slot, result);
    state::law_snapshot_members(s, uptime);
    state::law_snapshot_reads_back(after_poll(s, Sink::RedundancyGroups, slot, result), uptime);
    state::law_snapshot_members(after_poll(s, Sink::RedundancyGroups, slot, result), uptime);
}

#[verifier::rlimit(40)]
proof fn lemma_lists_output_services(s: SharedView, slot: u32, result: JsonView, uptime: u64)
    ensures
        lists_result(s, slot, result, uptime, Sink::OutputServices, "output_services"@, s.state.output_services),
{
    lemma_same_list(Sink::OutputServices, slot, result);
    state::law_snapshot_members(s, uptime);
    state::law_snapshot_reads_back(after_poll(s, Sink::OutputServices, slot, result), uptime);
    state::law_snapshot_members(after_poll(s, Sink::OutputServices, slot, result), uptime);
}

#[verifier::rlimit(40)]
proof fn lemma_tells_card_status(s: SharedView, slot: u32, result: JsonView, uptime: u64)
    ensures
        tells_result(s, slot, result, uptime, Sink::CardStatus, "card_status"@, s.state.card_status),
{
    state::law_snapshot_members(s, uptime);
    state::law_snapshot_reads_back(after_poll(s, Sink::CardStatus, slot, result), uptime);
    state::law_snapshot_members(after_poll(s, Sink::CardStatus, slot, result), uptime);
}

#[verifier::rlimit(40)]
proof fn lemma_tells_redundancy_group_status(s: SharedView, slot: u32, result: JsonView, uptime: u64)
    ensures
        tells_result(s, slot, result, uptime, Sink::RedundancyGroupStatus, "redundancy_group_status"@, s.state.redundancy_group_status),
{
    state::law_snapshot_members(s, uptime);
    state::law_snapshot_reads_back(after_poll(s, Sink::RedundancyGroupStatus, slot, result), uptime);
    state::law_snapshot_members(after_poll(s, Sink::RedundancyGroupStatus, slot, result), uptime);
}

#[verifier::rlimit(40)]
proof fn lemma_tells_hip_encoders(s: SharedView, slot: u32, result: JsonView, uptime: u64)
    ensures
        tells_result(s, slot, result, uptime, Sink::HipEncoders, "hip_encoders"@, s.state.hip_encoders),
{
    state::law_snapshot_members(s, uptime);
    state::law_snapshot_reads_back(after_poll(s, Sink::HipEncoders, slot, result), uptime);
    state::law_snapshot_members(after_poll(s, Sink::HipEncoders, slot, result), uptime);
}

#[verifier::rlimit(40)]
proof fn lemma_tells_hip_decoders(s: SharedView, slot: u32, result: JsonView, uptime: u64)
    ensures
        tells_result(s, slot, result, uptime, Sink::HipDecoders, "hip_decoders"@, s.state.hip_decoders),
{
    state::law_snapshot_members(s, uptime);
    state::law_snapshot_reads_back(after_poll(s, Sink::HipDecoders, slot, result), uptime);
    state::law_snapshot_members(after_poll(s, Sink::HipDecoders, slot, result), uptime);
}

#[verifier::rlimit(40)]
proof fn lemma_tells_dpi_status(s: SharedView, slot: u32, result: JsonView, uptime: u64)
    ensures
        tells_result(s, slot, result, uptime, Sink::DpiStatus, "dpi_status"@, s.state.dpi_status),
{
    state::law_snapshot_members(s, uptime);
    state::law_snapshot_reads_back(after_poll(s, Sink::DpiStatus, slot, result), uptime);
    state::law_snapshot_members(after_poll(s, Sink::DpiStatus, slot, result), uptime);
}

#[verifier::rlimit(40)]
proof fn lemma_tells_esam_status(s: SharedView, slot: u32, result: JsonView, uptime: u64)
    ensures
        tells_result(s, slot, result, uptime, Sink::EsamStatus, "esam_status"@, s.state.esam_status),
{
    state::law_snapshot_members(s, uptime);
    state::law_snapshot_reads_back(after_poll(s, Sink::EsamStatus, slot, result), uptime);
    state::law_snapshot_members(after_poll(s, Sink::EsamStatus, slot, result), uptime);
}

#[verifier::rlimit(40)]
proof fn lemma_tells_pois_server_status(s: SharedView, slot: u32, result: JsonView, uptime: u64)
    ensures
        tells_result(s, slot, result, uptime, Sink::PoisServerStatus, "pois_server_status"@, s.state.pois_server_status),
{
    state::law_snapshot_members(s, uptime);
    state::law_snapshot_reads_back(after_poll(s, Sink::PoisServerStatus, slot, result), uptime);
    state::law_snapshot_members(after_poll(s, Sink::PoisServerStatus, slot, result), uptime);
}

#[verifier::rlimit(40)]
proof fn lemma_tells_pool_config(s: SharedView, slot: u32, result: JsonView, uptime: u64)
    ensures
        tells_result(s, slot, result, uptime, Sink::PoolConfig, "pool_config"@, s.state.pool_config),
{
    state::law_snapshot_members(s, uptime);
    state::law_snapshot_reads_back(after_poll(s, Sink::PoolConfig, slot, result), uptime);
    state::law_snapshot_members(after_poll(s, Sink::PoolConfig, slot, result), uptime);
}

#[verifier::rlimit(40)]
proof fn lemma_tells_lock_status(s: SharedView, slot: u32, result: JsonView, uptime: u64)
    ensures
        tells_result(s, slot, result, uptime, Sink::LockStatus, "lock_status"@, s.state.lock_status),
{
    state::law_snapshot_members(s, uptime);
    state::law_snapshot_reads_back(after_poll(s, Sink::LockStatus, slot, result), uptime);
    state::law_snapshot_members(after_poll(s, Sink::LockStatus, slot, result), uptime);
}

#[verifier::rlimit(40)]
proof fn lemma_tells_psi_status(s: SharedView, slot: u32, result: JsonView, uptime: u64)
    ensures
        tells_result(s, slot, result, uptime, Sink::PsiStatus, "psi_status"@, s.state.psi_status),
{
    state::law_snapshot_members(s, uptime);
    state::law_snapshot_reads_back(after_poll(s, Sink::PsiStatus, slot, result), uptime);
    state::law_snapshot_members(after_poll(s, Sink::PsiStatus, slot, result), uptime);
}

/// The list of each poll is reported under its own name and nowhere else.
pub proof fn law_polled_lists_are_reported(
    s: SharedView,
    slot: u32,
    result: JsonView,
    uptime: u64,
)
    ensures
        lists_result(s, slot, result, uptime, Sink::Inputs, "inputs"@, s.state.inputs),
        lists_result(s, slot, result, uptime, Sink::Outputs, "outputs"@, s.state.outputs),
        lists_result(s, slot, result, uptime, Sink::IpInterfaces, "ip_interfaces"@, s.state.ip_interfaces),
        lists_result(s, slot, result, uptime, Sink::CoderServices, "coder_services"@, s.state.coder_services),
        lists_result(s, slot, result, uptime, Sink::MultiServices, "multi_services"@, s.state.multi_services),
        lists_result(s, slot, result, uptime, Sink::AudioProfiles, "audio_profiles"@, s.state.audio_profiles),
        lists_result(s, slot, result, uptime, Sink::XgerIpInterfaces, "xger_ip_interfaces"@, s.state.xger_ip_interfaces),
        lists_result(s, slot, result, uptime, Sink::CardAllocations, "card_allocations"@, s.state.card_allocations),
        lists_result(s, slot, result, uptime, Sink::IpConnections, "ip_connections"@, s.state.ip_connections),
        lists_result(s, slot, result, uptime, Sink::RedundancyGroups, "redundancy_groups"@, s.state.redundancy_groups),
        lists_result(s, slot, result, uptime, Sink::OutputServices, "output_services"@, s.state.output_services),
{
    lemma_lists_inputs(s, slot, result, uptime);
    lemma_lists_outputs(s, slot, result, uptime);
    lemma_lists_ip_interfaces(s, slot, result, uptime);
    lemma_lists_coder_services(s, slot, result, uptime);
    lemma_lists_multi_services(s, slot, result, uptime);
    lemma_lists_audio_profiles(s, slot, result, uptime);
    lemma_lists_xger_ip_interfaces(s, slot, result, uptime);
    lemma_lists_card_allocations(s, slot, result, uptime);
    lemma_lists_ip_connections(s, slot, result, uptime);
    lemma_lists_redundancy_groups(s, slot, result, uptime);
    lemma_lists_output_services(s, slot, result, uptime);
}

/// The result of each poll of a state is reported under its own name and nowhere else.
pub proof fn law_polled_states_are_reported(
    s: SharedView,
    slot: u32,
    result: JsonView,
    uptime: u64,
)
    ensures
        tells_result(s, slot, result, uptime, Sink::CardStatus, "card_status"@, s.state.card_status),
        tells_result(s, slot, result, uptime, Sink::RedundancyGroupStatus, "redundancy_group_status"@, s.state.redundancy_group_status),
        tells_result(s, slot, result, uptime, Sink::HipEncoders, "hip_encoders"@, s.state.hip_encoders),
        tells_result(s, slot, result, uptime, Sink::HipDecoders, "hip_decoders"@, s.state.hip_decoders),
        tells_result(s, slot, result, uptime, Sink::DpiStatus, "dpi_status"@, s.state.dpi_status),
        tells_result(s, slot, result, uptime, Sink::EsamStatus, "esam_status"@, s.state.esam_status),
        tells_result(s, slot, result, uptime, Sink::PoisServerStatus, "pois_server_status"@, s.state.pois_server_status),
        tells_result(s, slot, result, uptime, Sink::PoolConfig, "pool_config"@, s.state.pool_config),
        tells_result(s, slot, result, uptime, Sink::LockStatus, "lock_status"@, s.state.lock_status),
        tells_result(s, slot, result, uptime, Sink::PsiStatus, "psi_status"@, s.state.psi_status),
{
    lemma_tells_card_status(s, slot, result, uptime);
    lemma_tells_redundancy_group_status(s, slot, result, uptime);
    lemma_tells_hip_encoders(s, slot, result, uptime);
    lemma_tells_hip_decoders(s, slot, result, uptime);
    lemma_tells_dpi_status(s, slot, result, uptime);
    lemma_tells_esam_status(s, slot, result, uptime);
    lemma_tells_pois_server_status(s, slot, result, uptime);
    lemma_tells_pool_config(s, slot, result, uptime);
    lemma_tells_lock_status(s, slot, result, uptime);
    lemma_tells_psi_status(s, slot, result, uptime);
}

} // verus!
