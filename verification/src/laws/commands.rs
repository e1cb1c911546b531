//! What becomes of the commands of the manager.

use vstd::prelude::*;

use crate::appear_x::capabilities::DeviceView;
use crate::appear_x::commands::{
    self, AppearXCommandHandler, CommandFault, DeferredAppearXHandler, PlanView, StagedUpgrade,
};
use crate::appear_x::jsonrpc::Endpoint;
use crate::appear_x::state;
use crate::json::{Exact, JsonView, Number};
use crate::laws::values;
use crate::text;

verus! {

/// What is done for a command.
pub open spec fn plan(h: AppearXCommandHandler, action: JsonView) -> Result<PlanView, CommandFault> {
    commands::command_plan(h.state@.caps, h.mmi, h.upgrades, action)
}

/// Whether a command names an action.
pub open spec fn asks(action: JsonView, name: Seq<char>) -> bool {
    action.get("type"@) == Some(JsonView::Text(name))
}

/// The slot in a command: the whole number under `slot`, or the first slot.
pub open spec fn sent_slot(action: JsonView) -> u32 {
    match action.get("slot"@) {
        Some(JsonView::Number(Number { exact: Exact::Unsigned(n), reading })) => n as u32,
        _ => 1,
    }
}

/// `{}`
pub open spec fn no_params() -> JsonView {
    JsonView::Object(Map::empty())
}

/// An object with one member.
pub open spec fn one(key: Seq<char>, value: JsonView) -> JsonView {
    JsonView::Object(Map::empty().insert(key, value))
}

/// A whole number.
pub open spec fn whole(n: u64) -> JsonView {
    JsonView::Number(Number { exact: Exact::Unsigned(n), reading: None })
}

/// The version under which a module answered on the slot of a command.
pub open spec fn version(
    h: AppearXCommandHandler,
    action: JsonView,
    interface: Seq<char>,
    module: Seq<char>,
) -> Option<Seq<char>> {
    state::version_on(h.state@.caps, sent_slot(action), interface, module)
}

/// Whether a command leads to exactly one call to the card in its slot.
pub open spec fn calls(
    h: AppearXCommandHandler,
    action: JsonView,
    method: Seq<char>,
    params: JsonView,
) -> bool {
    &&& plan(h, action) matches Ok(PlanView::Call(q))
    &&& q.endpoint == Endpoint::Board(sent_slot(action))
    &&& q.method == method
    &&& q.params == params
}

/// Whether a command is refused because it is not as it should be.
pub open spec fn invalid(h: AppearXCommandHandler, action: JsonView, why: Seq<char>) -> bool {
    plan(h, action) == Err::<PlanView, CommandFault>(CommandFault::Validation(why))
}

/// Whether a command is refused because the module did not answer on the slot.
pub open spec fn refused(
    h: AppearXCommandHandler,
    action: JsonView,
    name: Seq<char>,
    interface: Seq<char>,
    module: Seq<char>,
) -> bool {
    plan(h, action) == Err::<PlanView, CommandFault>(
        CommandFault::Coded {
            code: "unsupported_on_card"@,
            message: name + " requires the `"@ + (interface + "/"@ + module) + "` module on slot "@
                + text::decimal(sent_slot(action) as nat)
                + ". This card family does not expose that interface — X5 / X10 / X20 chassis speak only the Xger card-manager surface. Use the Coder Services / Multi Services / Audio Profiles sections for the Xger-native signal path, or run this command against a legacy IP Gateway board (ME-3000 / ME-4000)."@,
        },
    )
}

/// Whether an action calls a module with fixed parameters.
pub open spec fn reads(
    h: AppearXCommandHandler,
    action: JsonView,
    name: Seq<char>,
    interface: Seq<char>,
    module: Seq<char>,
    command: Seq<char>,
    params: JsonView,
) -> bool {
    asks(action, name) ==> match version(h, action, interface, module) {
        Some(v) => calls(
            h,
            action,
            interface + ":"@ + v + "/"@ + module + "/"@ + command,
            params,
        ),
        None => refused(h, action, name, interface, module),
    }
}

/// Whether an action hands a member of the command to a module as it stands.
pub open spec fn writes(
    h: AppearXCommandHandler,
    action: JsonView,
    name: Seq<char>,
    interface: Seq<char>,
    module: Seq<char>,
    command: Seq<char>,
    field: Seq<char>,
) -> bool {
    asks(action, name) ==> match version(h, action, interface, module) {
        Some(v) => match action.get(field) {
            Some(data) => calls(
                h,
                action,
                interface + ":"@ + v + "/"@ + module + "/"@ + command,
                one("data"@, data),
            ),
            None => invalid(h, action, "missing '"@ + field + "' field"@),
        },
        None => refused(h, action, name, interface, module),
    }
}

/// Whether an item of a list has a key that is not empty and a value.
pub open spec fn has_key_and_value(item: JsonView) -> bool {
    &&& item.get("key"@) matches Some(JsonView::Text(key)) && key.len() > 0
    &&& item.get("value"@) is Some
}

/// The key of an item.
pub open spec fn key_of(item: JsonView) -> Seq<char> {
    item.get("key"@)->0->Text_0
}

/// Whether members are those that a list of keys and values makes: under each key stands the value
/// of the last item with it, and there are no others.
pub open spec fn made_of(m: Map<Seq<char>, JsonView>, items: Seq<JsonView>) -> bool {
    &&& forall|i: int|
        0 <= i < items.len() && (forall|j: int|
            i < j < items.len() ==> key_of(#[trigger] items[j]) != key_of(items[i]))
            ==> m.contains_key(key_of(#[trigger] items[i])) && m[key_of(items[i])]
            == items[i].get("value"@)->0
    &&& forall|k: Seq<char>| #[trigger]
        m.contains_key(k) ==> exists|i: int|
            0 <= i < items.len() && key_of(#[trigger] items[i]) == k
}

/// Whether an action hands a list of keys and values to a module as an object, and refuses any other
/// list.
pub open spec fn writes_keyed(
    h: AppearXCommandHandler,
    action: JsonView,
    name: Seq<char>,
    interface: Seq<char>,
    module: Seq<char>,
    command: Seq<char>,
    field: Seq<char>,
) -> bool {
    asks(action, name) ==> match version(h, action, interface, module) {
        Some(v) => match action.get(field) {
            Some(JsonView::Array(items)) => if forall|i: int|
                0 <= i < items.len() ==> has_key_and_value(#[trigger] items[i]) {
                exists|m: Map<Seq<char>, JsonView>| #[trigger]
                    made_of(m, items) && calls(
                        h,
                        action,
                        interface + ":"@ + v + "/"@ + module + "/"@ + command,
                        one("data"@, JsonView::Object(m)),
                    )
            } else {
                plan(h, action) matches Err(CommandFault::Validation(_))
            },
            Some(_) => invalid(
                h,
                action,
                "'"@ + field + "' must be an array of {key, value} objects"@,
            ),
            None => invalid(h, action, "missing '"@ + field + "' field"@),
        },
        None => refused(h, action, name, interface, module),
    }
}

/// Whether an action hands the list under `ids` to a module.
pub open spec fn deletes(
    h: AppearXCommandHandler,
    action: JsonView,
    name: Seq<char>,
    interface: Seq<char>,
    module: Seq<char>,
    command: Seq<char>,
) -> bool {
    asks(action, name) ==> match version(h, action, interface, module) {
        Some(v) => match action.get("ids"@) {
            Some(JsonView::Array(ids)) => calls(
                h,
                action,
                interface + ":"@ + v + "/"@ + module + "/"@ + command,
                one("ids"@, JsonView::Array(ids)),
            ),
            Some(_) => invalid(h, action, "'ids' must be an array"@),
            None => invalid(h, action, "missing 'ids' field"@),
        },
        None => refused(h, action, name, interface, module),
    }
}

/// Tells the names apart by their length and some of their letters.
spec fn mark(name: Seq<char>) -> int {
    ((((name.len() as int) * 256 + values::letter(name, 0)) * 256 + values::letter(name, 4)) * 256 + values::letter(name, 7)) * 256 + values::letter(name, 9)
}

proof fn lemma_names()
    ensures
        mark("get_inputs"@) == 44684637555,
        mark("get_outputs"@) == 48979996788,
        mark("get_services"@) == 53275227747,
        mark("get_ip_interfaces"@) == 74749405556,
        mark("set_ip_input"@) == 53475895664,
        mark("set_ip_output"@) == 57770864500,
        mark("get_card_status"@) == 66159076467,
        mark("get_coder_services"@) == 79043978591,
        mark("get_multi_services"@) == 79044637791,
        mark("get_audio_profiles"@) == 79043848543,
        mark("get_xger_ip_interfaces"@) == 96225227369,
        mark("get_card_allocations"@) == 87633912929,
        mark("get_pool_config"@) == 66159930467,
        mark("get_lock_status"@) == 66159668083,
        mark("get_psi_status"@) == 61864959860,
        mark("get_images"@) == 44684633971,
        mark("set_coder_services"@) == 79245305183,
        mark("delete_coder_services"@) == 91879662436,
        mark("set_multi_services"@) == 79245964383,
        mark("delete_multi_services"@) == 91879665004,
        mark("set_audio_profiles"@) == 79245175135,
        mark("delete_audio_profiles"@) == 91879661924,
        mark("set_xger_ip_interfaces"@) == 96426553961,
        mark("delete_xger_ip_interfaces"@) == 109059536997,
        mark("set_card_allocations"@) == 87835239521,
        mark("set_pool_config"@) == 66361257059,
        mark("get_ip_connections"@) == 79044371310,
        mark("set_ip_connections"@) == 79245697902,
        mark("delete_ip_connections"@) == 91879663967,
        mark("get_redundancy_groups"@) == 91929867620,
        mark("set_redundancy_groups"@) == 92131194212,
        mark("delete_redundancy_groups"@) == 104764568164,
        mark("get_redundancy_group_status"@) == 117699671396,
        mark("get_dpi"@) == 31799377920,
        mark("set_dpi"@) == 32000704512,
        mark("get_dpi_status"@) == 61864173428,
        mark("get_esam_config"@) == 66159209827,
        mark("set_esam_config"@) == 66360536419,
        mark("get_esam_status"@) == 66159209843,
        mark("get_scte35_config"@) == 74750059829,
        mark("set_scte35_config"@) == 74951386421,
        mark("get_scte35_history"@) == 79045027125,
        mark("get_pois_server_status"@) == 96224703347,
        mark("get_alarms"@) == 44684112499,
        mark("get_chassis"@) == 48979211113,
        mark("get_hip_encoders"@) == 70454370158,
        mark("set_hip_encoders"@) == 70655696750,
        mark("get_hip_decoders"@) == 70454370149,
        mark("set_hip_decoders"@) == 70655696741,
        mark("clear_all_counters"@) == 78977854559,
        mark("upgrade_binary"@) == 62098857833,
        mark("status"@) == 27706851328,
        mark("from_version"@) == 53257138793,
        mark("to_version"@) == 44902476142,
        mark("channel"@) == 31732924416,
        mark("arch"@) == 18807259136,
        mark("variant"@) == 32050839552,
        mark("limit"@) == 23294377984,
        mark("since_pts"@) == 40590734336,
{
    assert(mark("get_inputs"@) == 44684637555) by {
        reveal_strlit("get_inputs");
    }
    assert(mark("get_outputs"@) == 48979996788) by {
        reveal_strlit("get_outputs");
    }
    assert(mark("get_services"@) == 53275227747) by {
        reveal_strlit("get_services");
    }
    assert(mark("get_ip_interfaces"@) == 74749405556) by {
        reveal_strlit("get_ip_interfaces");
    }
    assert(mark("set_ip_input"@) == 53475895664) by {
        reveal_strlit("set_ip_input");
    }
    assert(mark("set_ip_output"@) == 57770864500) by {
        reveal_strlit("set_ip_output");
    }
    assert(mark("get_card_status"@) == 66159076467) by {
        reveal_strlit("get_card_status");
    }
    assert(mark("get_coder_services"@) == 79043978591) by {
        reveal_strlit("get_coder_services");
    }
    assert(mark("get_multi_services"@) == 79044637791) by {
        reveal_strlit("get_multi_services");
    }
    assert(mark("get_audio_profiles"@) == 79043848543) by {
        reveal_strlit("get_audio_profiles");
    }
    assert(mark("get_xger_ip_interfaces"@) == 96225227369) by {
        reveal_strlit("get_xger_ip_interfaces");
    }
    assert(mark("get_card_allocations"@) == 87633912929) by {
        reveal_strlit("get_card_allocations");
    }
    assert(mark("get_pool_config"@) == 66159930467) by {
        reveal_strlit("get_pool_config");
    }
    assert(mark("get_lock_status"@) == 66159668083) by {
        reveal_strlit("get_lock_status");
    }
    assert(mark("get_psi_status"@) == 61864959860) by {
        reveal_strlit("get_psi_status");
    }
    assert(mark("get_images"@) == 44684633971) by {
        reveal_strlit("get_images");
    }
    assert(mark("set_coder_services"@) == 79245305183) by {
        reveal_strlit("set_coder_services");
    }
    assert(mark("delete_coder_services"@) == 91879662436) by {
        reveal_strlit("delete_coder_services");
    }
    assert(mark("set_multi_services"@) == 79245964383) by {
        reveal_strlit("set_multi_services");
    }
    assert(mark("delete_multi_services"@) == 91879665004) by {
        reveal_strlit("delete_multi_services");
    }
    assert(mark("set_audio_profiles"@) == 79245175135) by {
        reveal_strlit("set_audio_profiles");
    }
    assert(mark("delete_audio_profiles"@) == 91879661924) by {
        reveal_strlit("delete_audio_profiles");
    }
    assert(mark("set_xger_ip_interfaces"@) == 96426553961) by {
        reveal_strlit("set_xger_ip_interfaces");
    }
    assert(mark("delete_xger_ip_interfaces"@) == 109059536997) by {
        reveal_strlit("delete_xger_ip_interfaces");
    }
    assert(mark("set_card_allocations"@) == 87835239521) by {
        reveal_strlit("set_card_allocations");
    }
    assert(mark("set_pool_config"@) == 66361257059) by {
        reveal_strlit("set_pool_config");
    }
    assert(mark("get_ip_connections"@) == 79044371310) by {
        reveal_strlit("get_ip_connections");
    }
    assert(mark("set_ip_connections"@) == 79245697902) by {
        reveal_strlit("set_ip_connections");
    }
    assert(mark("delete_ip_connections"@) == 91879663967) by {
        reveal_strlit("delete_ip_connections");
    }
    assert(mark("get_redundancy_groups"@) == 91929867620) by {
        reveal_strlit("get_redundancy_groups");
    }
    assert(mark("set_redundancy_groups"@) == 92131194212) by {
        reveal_strlit("set_redundancy_groups");
    }
    assert(mark("delete_redundancy_groups"@) == 104764568164) by {
        reveal_strlit("delete_redundancy_groups");
    }
    assert(mark("get_redundancy_group_status"@) == 117699671396) by {
        reveal_strlit("get_redundancy_group_status");
    }
    assert(mark("get_dpi"@) == 31799377920) by {
        reveal_strlit("get_dpi");
    }
    assert(mark("set_dpi"@) == 32000704512) by {
        reveal_strlit("set_dpi");
    }
    assert(mark("get_dpi_status"@) == 61864173428) by {
        reveal_strlit("get_dpi_status");
    }
    assert(mark("get_esam_config"@) == 66159209827) by {
        reveal_strlit("get_esam_config");
    }
    assert(mark("set_esam_config"@) == 66360536419) by {
        reveal_strlit("set_esam_config");
    }
    assert(mark("get_esam_status"@) == 66159209843) by {
        reveal_strlit("get_esam_status");
    }
    assert(mark("get_scte35_config"@) == 74750059829) by {
        reveal_strlit("get_scte35_config");
    }
    assert(mark("set_scte35_config"@) == 74951386421) by {
        reveal_strlit("set_scte35_config");
    }
    assert(mark("get_scte35_history"@) == 79045027125) by {
        reveal_strlit("get_scte35_history");
    }
    assert(mark("get_pois_server_status"@) == 96224703347) by {
        reveal_strlit("get_pois_server_status");
    }
    assert(mark("get_alarms"@) == 44684112499) by {
        reveal_strlit("get_alarms");
    }
    assert(mark("get_chassis"@) == 48979211113) by {
        reveal_strlit("get_chassis");
    }
    assert(mark("get_hip_encoders"@) == 70454370158) by {
        reveal_strlit("get_hip_encoders");
    }
    assert(mark("set_hip_encoders"@) == 70655696750) by {
        reveal_strlit("set_hip_encoders");
    }
    assert(mark("get_hip_decoders"@) == 70454370149) by {
        reveal_strlit("get_hip_decoders");
    }
    assert(mark("set_hip_decoders"@) == 70655696741) by {
        reveal_strlit("set_hip_decoders");
    }
    assert(mark("clear_all_counters"@) == 78977854559) by {
        reveal_strlit("clear_all_counters");
    }
    assert(mark("upgrade_binary"@) == 62098857833) by {
        reveal_strlit("upgrade_binary");
    }
    assert(mark("status"@) == 27706851328) by {
        reveal_strlit("status");
    }
    assert(mark("from_version"@) == 53257138793) by {
        reveal_strlit("from_version");
    }
    assert(mark("to_version"@) == 44902476142) by {
        reveal_strlit("to_version");
    }
    assert(mark("channel"@) == 31732924416) by {
        reveal_strlit("channel");
    }
    assert(mark("arch"@) == 18807259136) by {
        reveal_strlit("arch");
    }
    assert(mark("variant"@) == 32050839552) by {
        reveal_strlit("variant");
    }
    assert(mark("limit"@) == 23294377984) by {
        reveal_strlit("limit");
    }
    assert(mark("since_pts"@) == 40590734336) by {
        reveal_strlit("since_pts");
    }
}

/// What each action that reads asks a card for.
pub proof fn law_reading_actions(h: AppearXCommandHandler, action: JsonView)
    ensures
        reads(h, action, "get_inputs"@, "ipGateway"@, "input"@, "GetInputs"@, no_params()),
        reads(h, action, "get_outputs"@, "ipGateway"@, "output"@, "GetOutputs"@, no_params()),
        reads(h, action, "get_services"@, "board"@, "services"@, "GetInputServices"@, one("query"@, no_params())),
        reads(h, action, "get_ip_interfaces"@, "ipGateway"@, "ipinterface"@, "GetIpInterfaces"@, no_params()),
        reads(h, action, "get_card_status"@, "Xger"@, "cardStatus"@, "GetCardStatus"@, one("slot"@, whole(sent_slot(action) as u64))),
        reads(h, action, "get_coder_services"@, "Xger"@, "coderService"@, "GetCoderServices"@, no_params()),
        reads(h, action, "get_multi_services"@, "Xger"@, "multiService"@, "GetMultiServices"@, no_params()),
        reads(h, action, "get_audio_profiles"@, "Xger"@, "audioProfile"@, "GetAudioProfiles"@, no_params()),
        reads(h, action, "get_xger_ip_interfaces"@, "Xger"@, "ipInterface"@, "GetIpInterfaces"@, no_params()),
        reads(h, action, "get_card_allocations"@, "Xger"@, "cardAllocation"@, "GetCardAllocations"@, no_params()),
        reads(h, action, "get_pool_config"@, "Xger"@, "poolConfig"@, "GetPoolConfig"@, no_params()),
        reads(h, action, "get_lock_status"@, "Xger"@, "lockStatus"@, "GetLockStatus"@, no_params()),
        reads(h, action, "get_psi_status"@, "Xger"@, "psiStatus"@, "GetPsiStatus"@, no_params()),
        reads(h, action, "get_images"@, "Xger"@, "imageUpload"@, "GetImages"@, no_params()),
        reads(h, action, "get_ip_connections"@, "Xger"@, "ipConnection"@, "GetIpConnections"@, no_params()),
        reads(h, action, "get_redundancy_groups"@, "Xger"@, "redundancyGroup"@, "GetRedundancyGroups"@, no_params()),
        reads(h, action, "get_redundancy_group_status"@, "Xger"@, "redundancyGroupStatus"@, "GetRedundancyGroupStatus"@, no_params()),
        reads(h, action, "get_dpi"@, "Xger"@, "dpi"@, "GetDpi"@, no_params()),
        reads(h, action, "get_dpi_status"@, "Xger"@, "dpiStatus"@, "GetDpiStatus"@, no_params()),
        reads(h, action, "get_esam_config"@, "Xger"@, "esamConfig"@, "GetEsamConfig"@, no_params()),
        reads(h, action, "get_esam_status"@, "Xger"@, "esamStatus"@, "GetEsamStatus"@, no_params()),
        reads(h, action, "get_scte35_config"@, "Xger"@, "scte35Config"@, "GetScte35Config"@, no_params()),
        reads(h, action, "get_pois_server_status"@, "Xger"@, "poisServerStatus"@, "GetPoisServerStatus"@, no_params()),
{
    lemma_names();
}

/// What each action that writes a value as it stands tells a card.
pub proof fn law_writing_actions(h: AppearXCommandHandler, action: JsonView)
    ensures
        writes(h, action, "set_ip_input"@, "ipGateway"@, "input"@, "SetInputs"@, "inputs"@),
        writes(h, action, "set_ip_output"@, "ipGateway"@, "output"@, "SetOutputs"@, "outputs"@),
        writes(h, action, "set_pool_config"@, "Xger"@, "poolConfig"@, "SetPoolConfig"@, "pool_config"@),
        writes(h, action, "set_dpi"@, "Xger"@, "dpi"@, "SetDpi"@, "dpi"@),
        writes(h, action, "set_esam_config"@, "Xger"@, "esamConfig"@, "SetEsamConfig"@, "esam_config"@),
        writes(h, action, "set_scte35_config"@, "Xger"@, "scte35Config"@, "SetScte35Config"@, "scte35_config"@),
{
    lemma_names();
}

proof fn lemma_made_of(items: Seq<JsonView>, payload: Seq<char>, n: nat)
    requires
        n <= items.len(),
        forall|i: int| 0 <= i < n ==> has_key_and_value(#[trigger] items[i]),
    ensures
        commands::keyed(items, payload, n) matches Ok(m) && made_of(m, items.take(n as int)),
    decreases n,
{
    if n > 0 {
        let k = (n - 1) as nat;
        lemma_made_of(items, payload, k);
        let before = commands::keyed(items, payload, k)->Ok_0;
        let some = items.take(k as int);
        let all = items.take(n as int);
        let item = items[k as int];
        assert(has_key_and_value(item));
        let m = commands::keyed(items, payload, n)->Ok_0;
        assert(m == before.insert(key_of(item), item.get("value"@)->0));
        assert forall|i: int|
            0 <= i < all.len() && (forall|j: int|
                i < j < all.len() ==> key_of(#[trigger] all[j]) != key_of(all[i])) implies m.contains_key(
            key_of(#[trigger] all[i]),
        ) && m[key_of(all[i])] == all[i].get("value"@)->0 by {
            if i < k {
                assert(all[k as int] == item);
                assert(some[i] == all[i]);
                assert forall|j: int| i < j < some.len() implies key_of(#[trigger] some[j]) != key_of(
                    some[i],
                ) by {
                    assert(some[j] == all[j]);
                }
            }
        }
        assert forall|key: Seq<char>| #[trigger] m.contains_key(key) implies exists|i: int|
            0 <= i < all.len() && key_of(#[trigger] all[i]) == key by {
            if key == key_of(item) {
                assert(all[k as int] == item);
            } else {
                assert(before.contains_key(key));
                let i = choose|i: int| 0 <= i < some.len() && key_of(#[trigger] some[i]) == key;
                assert(all[i] == some[i]);
            }
        }
    }
}

proof fn lemma_keyed_fails(items: Seq<JsonView>, payload: Seq<char>, n: nat)
    requires
        n <= items.len(),
        exists|i: int| 0 <= i < n && !has_key_and_value(#[trigger] items[i]),
    ensures
        commands::keyed(items, payload, n) matches Err(CommandFault::Validation(_)),
    decreases n,
{
    let bad = choose|i: int| 0 <= i < n && !has_key_and_value(#[trigger] items[i]);
    let k = (n - 1) as nat;
    if bad < k {
        lemma_keyed_fails(items, payload, k);
    } else if exists|i: int| 0 <= i < k && !has_key_and_value(#[trigger] items[i]) {
        lemma_keyed_fails(items, payload, k);
    } else {
        lemma_made_of(items, payload, k);
    }
}

proof fn lemma_keyed(items: Seq<JsonView>, payload: Seq<char>)
    ensures
        if forall|i: int| 0 <= i < items.len() ==> has_key_and_value(#[trigger] items[i]) {
            commands::keyed(items, payload, items.len()) matches Ok(m) && made_of(m, items)
        } else {
            commands::keyed(items, payload, items.len()) matches Err(CommandFault::Validation(_))
        },
{
    if forall|i: int| 0 <= i < items.len() ==> has_key_and_value(#[trigger] items[i]) {
        lemma_made_of(items, payload, items.len());
        assert(items.take(items.len() as int) == items);
    } else {
        lemma_keyed_fails(items, payload, items.len());
    }
}

proof fn lemma_writes_keyed(
    h: AppearXCommandHandler,
    action: JsonView,
    name: Seq<char>,
    interface: Seq<char>,
    module: Seq<char>,
    command: Seq<char>,
    field: Seq<char>,
)
    requires
        commands::card_command(name) == Some(
            commands::card(interface, module, command, commands::BodyView::Keyed(field)),
        ),
    ensures
        writes_keyed(h, action, name, interface, module, command, field),
{
    if let Some(JsonView::Array(items)) = action.get(field) {
        lemma_keyed(items, field);
        if asks(action, name) && version(h, action, interface, module) is Some && (forall|i: int|
            0 <= i < items.len() ==> has_key_and_value(#[trigger] items[i])) {
            let m = commands::keyed(items, field, items.len())->Ok_0;
            assert(made_of(m, items));
        }
    }
}

/// What each action that writes a list of keys and values tells a card.
pub proof fn law_keyed_actions(h: AppearXCommandHandler, action: JsonView)
    ensures
        writes_keyed(h, action, "set_coder_services"@, "Xger"@, "coderService"@, "SetCoderServices"@, "coder_services"@),
        writes_keyed(h, action, "set_multi_services"@, "Xger"@, "multiService"@, "SetMultiServices"@, "multi_services"@),
        writes_keyed(h, action, "set_audio_profiles"@, "Xger"@, "audioProfile"@, "SetAudioProfiles"@, "audio_profiles"@),
        writes_keyed(h, action, "set_xger_ip_interfaces"@, "Xger"@, "ipInterface"@, "SetIpInterfaces"@, "ip_interfaces"@),
        writes_keyed(h, action, "set_card_allocations"@, "Xger"@, "cardAllocation"@, "SetCardAllocations"@, "card_allocations"@),
        writes_keyed(h, action, "set_ip_connections"@, "Xger"@, "ipConnection"@, "SetIpConnections"@, "ip_connections"@),
        writes_keyed(h, action, "set_redundancy_groups"@, "Xger"@, "redundancyGroup"@, "SetRedundancyGroups"@, "redundancy_groups"@),
{
    lemma_names();
    lemma_writes_keyed(h, action, "set_coder_services"@, "Xger"@, "coderService"@, "SetCoderServices"@, "coder_services"@);
    lemma_writes_keyed(h, action, "set_multi_services"@, "Xger"@, "multiService"@, "SetMultiServices"@, "multi_services"@);
    lemma_writes_keyed(h, action, "set_audio_profiles"@, "Xger"@, "audioProfile"@, "SetAudioProfiles"@, "audio_profiles"@);
    lemma_writes_keyed(h, action, "set_xger_ip_interfaces"@, "Xger"@, "ipInterface"@, "SetIpInterfaces"@, "ip_interfaces"@);
    lemma_writes_keyed(h, action, "set_card_allocations"@, "Xger"@, "cardAllocation"@, "SetCardAllocations"@, "card_allocations"@);
    lemma_writes_keyed(h, action, "set_ip_connections"@, "Xger"@, "ipConnection"@, "SetIpConnections"@, "ip_connections"@);
    lemma_writes_keyed(h, action, "set_redundancy_groups"@, "Xger"@, "redundancyGroup"@, "SetRedundancyGroups"@, "redundancy_groups"@);
}

/// What each action that deletes tells a card.
pub proof fn law_deleting_actions(h: AppearXCommandHandler, action: JsonView)
    ensures
        deletes(h, action, "delete_coder_services"@, "Xger"@, "coderService"@, "DeleteCoderServices"@),
        deletes(h, action, "delete_multi_services"@, "Xger"@, "multiService"@, "DeleteMultiServices"@),
        deletes(h, action, "delete_audio_profiles"@, "Xger"@, "audioProfile"@, "DeleteAudioProfiles"@),
        deletes(h, action, "delete_xger_ip_interfaces"@, "Xger"@, "ipInterface"@, "DeleteIpInterfaces"@),
        deletes(h, action, "delete_ip_connections"@, "Xger"@, "ipConnection"@, "DeleteIpConnections"@),
        deletes(h, action, "delete_redundancy_groups"@, "Xger"@, "redundancyGroup"@, "DeleteRedundancyGroups"@),
{
    lemma_names();
    reveal_strlit("missing '");
    reveal_strlit("ids");
    reveal_strlit("' field");
    reveal_strlit("missing 'ids' field");
    assert("missing '"@ + "ids"@ + "' field"@ == "missing 'ids' field"@);
}

/// The history is asked for with the limit and the time of the command, where it has them, and with
/// nothing else.
pub proof fn law_history_action(h: AppearXCommandHandler, action: JsonView)
    requires
        asks(action, "get_scte35_history"@),
    ensures
        match version(h, action, "Xger"@, "scte35LogApi"@) {
            Some(v) => {
                &&& plan(h, action) matches Ok(PlanView::Call(q))
                &&& q.endpoint == Endpoint::Board(sent_slot(action))
                &&& q.method == "Xger"@ + ":"@ + v + "/"@ + "scte35LogApi"@ + "/"@
                    + "GetScte35History"@
                &&& q.params is Object
                &&& forall|k: Seq<char>| #[trigger]
                    q.params.get(k) == if k == "limit"@ || k == "since_pts"@ {
                        action.get(k)
                    } else {
                        None
                    }
            },
            None => refused(h, action, "get_scte35_history"@, "Xger"@, "scte35LogApi"@),
        },
{
    lemma_names();
}

/// The chassis is asked for its alarms and its model under the versions of the settings.
pub proof fn law_chassis_actions(h: AppearXCommandHandler, action: JsonView)
    ensures
        asks(action, "get_alarms"@) ==> {
            &&& plan(h, action) matches Ok(PlanView::Call(q))
            &&& q.endpoint == Endpoint::Mmi
            &&& q.method == "mmi"@ + ":"@ + h.mmi.alarms@ + "/"@ + "alarms"@ + "/"@
                + "GetActiveAlarms"@
            &&& q.params == one("query"@, no_params())
        },
        asks(action, "get_chassis"@) ==> {
            &&& plan(h, action) matches Ok(PlanView::Call(q))
            &&& q.endpoint == Endpoint::Mmi
            &&& q.method == "mmi"@ + ":"@ + h.mmi.chassis@ + "/"@ + "chassisModel"@ + "/"@
                + "GetGraph"@
            &&& q.params == no_params()
        },
{
    lemma_names();
}

/// Whether a command goes to the first of two modules that answered on the slot.
pub open spec fn calls_either(
    h: AppearXCommandHandler,
    action: JsonView,
    first: (Seq<char>, Seq<char>),
    second: (Seq<char>, Seq<char>),
    command: Seq<char>,
    params: JsonView,
) -> bool {
    match version(h, action, first.0, first.1) {
        Some(v) => calls(h, action, first.0 + ":"@ + v + "/"@ + first.1 + "/"@ + command, params),
        None => match version(h, action, second.0, second.1) {
            Some(v) => calls(
                h,
                action,
                second.0 + ":"@ + v + "/"@ + second.1 + "/"@ + command,
                params,
            ),
            None => true,
        },
    }
}

/// Whether neither of two modules answered on the slot of a command.
pub open spec fn neither(
    h: AppearXCommandHandler,
    action: JsonView,
    first: (Seq<char>, Seq<char>),
    second: (Seq<char>, Seq<char>),
) -> bool {
    version(h, action, first.0, first.1) is None && version(h, action, second.0, second.1) is None
}

/// Whether a command is refused because there is no encoder or decoder.
pub open spec fn none_there(
    h: AppearXCommandHandler,
    action: JsonView,
    before: Seq<char>,
    after: Seq<char>,
) -> bool {
    plan(h, action) == Err::<PlanView, CommandFault>(
        CommandFault::Coded {
            code: "unsupported_on_card"@,
            message: before + text::decimal(sent_slot(action) as nat) + after,
        },
    )
}

/// The configuration of encoders and decoders is read from and written to the transport stream family
/// where that answered, else to the other one. The member `config` is written as it stands.
pub proof fn law_hip_actions(h: AppearXCommandHandler, action: JsonView)
    ensures
        ({
            let ts_enc = ("hipTsEnc"@, "hipTsEncoder"@);
            let enc = ("hipEnc"@, "hipEncoder"@);
            let ts_dec = ("hipTsDec"@, "hipTsDecoder"@);
            let dec = ("hipDec"@, "hipDecoder"@);
            let no_enc =
                " exposes no encoder module (hipTsEnc / hipEnc). Commission an encoder pool first."@;
            let no_dec =
                " exposes no decoder module (hipTsDec / hipDec). Commission an decoder pool first."@;
            let no_config = "missing 'config' field for set command"@;
            &&& asks(action, "get_hip_encoders"@) ==> calls_either(
                h,
                action,
                ts_enc,
                enc,
                "GetEncoders"@,
                no_params(),
            ) && (neither(h, action, ts_enc, enc) ==> none_there(h, action, "Slot "@, no_enc))
            &&& asks(action, "get_hip_decoders"@) ==> calls_either(
                h,
                action,
                ts_dec,
                dec,
                "GetDecoders"@,
                no_params(),
            ) && (neither(h, action, ts_dec, dec) ==> none_there(h, action, "Slot "@, no_dec))
            &&& asks(action, "set_hip_encoders"@) ==> match action.get("config"@) {
                Some(config) => calls_either(
                    h,
                    action,
                    ts_enc,
                    enc,
                    "SetEncoders"@,
                    one("data"@, config),
                ),
                None => neither(h, action, ts_enc, enc) || invalid(h, action, no_config),
            } && (neither(h, action, ts_enc, enc) ==> none_there(h, action, "Slot "@, no_enc))
            &&& asks(action, "set_hip_decoders"@) ==> match action.get("config"@) {
                Some(config) => calls_either(
                    h,
                    action,
                    ts_dec,
                    dec,
                    "SetDecoders"@,
                    one("data"@, config),
                ),
                None => neither(h, action, ts_dec, dec) || invalid(h, action, no_config),
            } && (neither(h, action, ts_dec, dec) ==> none_there(h, action, "Slot "@, no_dec))
        }),
{
    lemma_names();
}

/// The counters are cleared where the state of an encoder family answered.
pub proof fn law_clearing_action(h: AppearXCommandHandler, action: JsonView)
    requires
        asks(action, "clear_all_counters"@),
    ensures
        ({
            let first = ("hipTsEnc"@, "hipEncStatus"@);
            let second = ("hipEnc"@, "hipEncStatus"@);
            &&& calls_either(h, action, first, second, "ClearAllCounters"@, no_params())
            &&& neither(h, action, first, second) ==> none_there(
                h,
                action,
                "clear_all_counters requires a hipTsEnc or hipEnc encoder on slot "@,
                ". This slot exposes no encoder-status module; commission an encoder service first."@,
            )
        }),
{
    lemma_names();
}

/// The text of a member, where it is one.
pub open spec fn text_under(action: JsonView, key: Seq<char>) -> Option<Seq<char>> {
    match action.get(key) {
        Some(JsonView::Text(s)) => Some(s),
        _ => None,
    }
}

/// Whether the outcome of a command to install another version is the right one: refused where
/// upgrades are not configured, and where the version or the channel is missing; else the version,
/// the channel, the architecture and the variant are those of the command.
pub open spec fn upgrades_right(
    configured: bool,
    action: JsonView,
    r: Result<PlanView, CommandFault>,
) -> bool {
    if !configured {
        r matches Err(e) && e.code() == "upgrade_disabled"@ && e.message()
            == "remote upgrades not configured on this gateway — add an [upgrade] section to config.toml"@
    } else if text_under(action, "version"@) is None {
        r matches Err(e) && e.code() == "upgrade_version_invalid"@ && e.message()
            == "upgrade_binary: missing 'version'"@
    } else if text_under(action, "channel"@) is None {
        r matches Err(e) && e.code() == "upgrade_channel_not_allowed"@ && e.message()
            == "upgrade_binary: missing 'channel'"@
    } else {
        &&& r matches Ok(PlanView::Upgrade { version, channel, target_arch, variant })
        &&& text_under(action, "version"@) == Some(version)
        &&& text_under(action, "channel"@) == Some(channel)
        &&& text_under(action, "target_arch"@) == target_arch
        &&& text_under(action, "variant"@) == variant
    }
}

/// Another version is installed as the command says, before and after the unit was discovered.
pub proof fn law_upgrade_action(
    h: AppearXCommandHandler,
    d: DeferredAppearXHandler,
    action: JsonView,
)
    ensures
        upgrades_right(h.upgrades, action, commands::upgrade_plan(h.upgrades, action)),
        asks(action, "upgrade_binary"@) ==> upgrades_right(h.upgrades, action, plan(h, action)),
        asks(action, "upgrade_binary"@) ==> upgrades_right(
            d.upgrades,
            action,
            commands::deferred_plan(d, action),
        ),
{
    lemma_names();
}

/// A command without an action is refused, and so is one whose action is none of those that there
/// are.
pub proof fn law_unknown_actions(h: AppearXCommandHandler, action: JsonView)
    ensures
        text_under(action, "type"@) is None ==> invalid(h, action, "missing action.type"@),
        text_under(action, "type"@) matches Some(name) ==> {
            &&& name != "get_inputs"@
            &&& name != "get_outputs"@
            &&& name != "get_services"@
            &&& name != "get_ip_interfaces"@
            &&& name != "set_ip_input"@
            &&& name != "set_ip_output"@
            &&& name != "get_card_status"@
            &&& name != "get_coder_services"@
            &&& name != "get_multi_services"@
            &&& name != "get_audio_profiles"@
            &&& name != "get_xger_ip_interfaces"@
            &&& name != "get_card_allocations"@
            &&& name != "get_pool_config"@
            &&& name != "get_lock_status"@
            &&& name != "get_psi_status"@
            &&& name != "get_images"@
            &&& name != "set_coder_services"@
            &&& name != "delete_coder_services"@
            &&& name != "set_multi_services"@
            &&& name != "delete_multi_services"@
            &&& name != "set_audio_profiles"@
            &&& name != "delete_audio_profiles"@
            &&& name != "set_xger_ip_interfaces"@
            &&& name != "delete_xger_ip_interfaces"@
            &&& name != "set_card_allocations"@
            &&& name != "set_pool_config"@
            &&& name != "get_ip_connections"@
            &&& name != "set_ip_connections"@
            &&& name != "delete_ip_connections"@
            &&& name != "get_redundancy_groups"@
            &&& name != "set_redundancy_groups"@
            &&& name != "delete_redundancy_groups"@
            &&& name != "get_redundancy_group_status"@
            &&& name != "get_dpi"@
            &&& name != "set_dpi"@
            &&& name != "get_dpi_status"@
            &&& name != "get_esam_config"@
            &&& name != "set_esam_config"@
            &&& name != "get_esam_status"@
            &&& name != "get_scte35_config"@
            &&& name != "set_scte35_config"@
            &&& name != "get_scte35_history"@
            &&& name != "get_pois_server_status"@
            &&& name != "get_alarms"@
            &&& name != "get_chassis"@
            &&& name != "get_hip_encoders"@
            &&& name != "set_hip_encoders"@
            &&& name != "get_hip_decoders"@
            &&& name != "set_hip_decoders"@
            &&& name != "clear_all_counters"@
            &&& name != "upgrade_binary"@
        } ==> plan(h, action) == Err::<PlanView, CommandFault>(
            CommandFault::UnknownAction(text_under(action, "type"@)->0),
        ),
{
}

/// The code and the words of each error.
pub proof fn law_command_errors(e: CommandFault)
    ensures
        e matches CommandFault::Coded { code, message } ==> e.code() == code && e.message() == message,
        e matches CommandFault::Validation(why) ==> e.code() == "validation_error"@ && e.message()
            == why,
        e matches CommandFault::UnknownAction(name) ==> e.code() == "unknown_action"@ && e.message()
            == "unknown action: "@ + name,
{
}

/// Before the unit was discovered a command is refused with a code of its own, but for the one to
/// install another version; afterwards the handler of the unit decides.
pub proof fn law_deferred_commands(d: DeferredAppearXHandler, action: JsonView)
    requires
        !asks(action, "upgrade_binary"@),
    ensures
        d.inner is None ==> {
            &&& commands::deferred_plan(d, action) matches Err(e)
            &&& e.code() == "discovery_in_progress"@
            &&& e.message()
                == "Appear X capability discovery has not completed — the chassis may be unreachable. Commands will be accepted once the sidecar can talk to the unit."@
        },
        d.inner matches Some(h) ==> commands::deferred_plan(d, action) == plan(h, action),
{
}

/// A version that was put in place is told with where it came from and what it is.
pub proof fn law_staged_reply(s: StagedUpgrade)
    ensures
        ({
            let told = commands::staged_reply(s);
            &&& told.get("status"@) == Some(JsonView::Text("staged"@))
            &&& told.get("from_version"@) == Some(JsonView::Text(s.from_version@))
            &&& told.get("to_version"@) == Some(JsonView::Text(s.to_version@))
            &&& told.get("channel"@) == Some(JsonView::Text(s.channel@))
            &&& told.get("arch"@) == Some(JsonView::Text(s.arch@))
            &&& told.get("variant"@) == Some(
                match s.variant {
                    Some(v) => JsonView::Text(v@),
                    None => JsonView::Null,
                },
            )
        }),
{
    lemma_names();
}

/// A module has a version on a slot exactly if the card in the slot recorded it, and it is the version
/// of the record.
pub proof fn law_version_on(
    caps: DeviceView,
    slot: u32,
    interface: Seq<char>,
    module: Seq<char>,
    k: int,
)
    ensures
        !caps.slots.contains_key(slot) ==> state::version_on(caps, slot, interface, module) is None,
        caps.slots.contains_key(slot) ==> {
            let records = caps.slots[slot].modules;
            &&& (0 <= k < records.len() && records[k].interface == interface && records[k].module
                == module && (forall|j: int|
                0 <= j < records.len() && j != k ==> (#[trigger] records[j]).interface + "/"@
                    + records[j].module != interface + "/"@ + module)) ==> state::version_on(
                caps,
                slot,
                interface,
                module,
            ) == Some(records[k].version)
            &&& (forall|j: int|
                0 <= j < records.len() ==> (#[trigger] records[j]).interface + "/"@
                    + records[j].module != interface + "/"@ + module) ==> state::version_on(
                caps,
                slot,
                interface,
                module,
            ) is None
        },
{
    if caps.slots.contains_key(slot) {
        values::lemma_find_record(caps.slots[slot].modules, interface + "/"@ + module, k);
    }
}

} // verus!
