//! What is kept of the unit, and what is reported of it.

use vstd::prelude::*;

use crate::appear_x::capabilities::{self, DeviceCapabilities, DeviceView, RecordView, SlotView};
use crate::appear_x::polling::{self, AlarmsReport, GatewayIdentity, GatewayTargetHealth};
use crate::appear_x::reachability::ReachabilityState;
use crate::appear_x::startup::DiscoveryPhase;
use crate::appear_x::state::{self, SharedAppearXState, StateView};
use crate::json::{self, Json, JsonView};
use crate::laws::values;
use crate::slots;
use crate::text;

verus! {

/// Tells the members apart by their length and some of their letters.
spec fn mark(name: Seq<char>) -> int {
    (name.len() as int) * 256 + values::letter(name, 0)
}

proof fn lemma_names()
    ensures
        mark("slot"@) == 1139,
        mark("name"@) == 1134,
        mark("serial"@) == 1651,
        mark("software_id"@) == 2931,
        mark("software_display_name"@) == 5491,
        mark("software_version"@) == 4211,
        mark("features"@) == 2150,
        mark("discovered_modules"@) == 4708,
        mark("family"@) == 1638,
        mark("interface"@) == 2409,
        mark("module"@) == 1645,
        mark("version"@) == 1910,
        mark("gateway_target"@) == 3687,
{
    assert(mark("slot"@) == 1139) by {
        reveal_strlit("slot");
    }
    assert(mark("name"@) == 1134) by {
        reveal_strlit("name");
    }
    assert(mark("serial"@) == 1651) by {
        reveal_strlit("serial");
    }
    assert(mark("software_id"@) == 2931) by {
        reveal_strlit("software_id");
    }
    assert(mark("software_display_name"@) == 5491) by {
        reveal_strlit("software_display_name");
    }
    assert(mark("software_version"@) == 4211) by {
        reveal_strlit("software_version");
    }
    assert(mark("features"@) == 2150) by {
        reveal_strlit("features");
    }
    assert(mark("discovered_modules"@) == 4708) by {
        reveal_strlit("discovered_modules");
    }
    assert(mark("family"@) == 1638) by {
        reveal_strlit("family");
    }
    assert(mark("interface"@) == 2409) by {
        reveal_strlit("interface");
    }
    assert(mark("module"@) == 1645) by {
        reveal_strlit("module");
    }
    assert(mark("version"@) == 1910) by {
        reveal_strlit("version");
    }
    assert(mark("gateway_target"@) == 3687) by {
        reveal_strlit("gateway_target");
    }
}

/// A text, or `null` where there is none.
pub open spec fn text_or_null(o: Option<Seq<char>>) -> JsonView {
    match o {
        Some(s) => JsonView::Text(s),
        None => JsonView::Null,
    }
}

/// Whether a report on a module tells what was found of it, and no more.
pub open spec fn tells_module(report: JsonView, r: RecordView) -> bool {
    let told = Some(report);
    &&& values::under(told, "family"@) == Some(JsonView::Text(r.family))
    &&& values::under(told, "interface"@) == Some(JsonView::Text(r.interface))
    &&& values::under(told, "module"@) == Some(JsonView::Text(r.module))
    &&& values::under(told, "version"@) == Some(JsonView::Text(r.version))
    &&& forall|key: Seq<char>| #[trigger]
        values::under(told, key) is Some ==> key == "family"@ || key == "interface"@ || key
            == "module"@ || key == "version"@
}

/// Whether a report on a card tells what was found of it, and no more.
pub open spec fn tells_card(report: JsonView, s: SlotView) -> bool {
    let told = Some(report);
    &&& values::under(told, "slot"@) == Some(values::number(s.slot as nat))
    &&& values::under(told, "name"@) == Some(JsonView::Text(s.name))
    &&& values::under(told, "serial"@) == Some(JsonView::Text(s.serial))
    &&& values::under(told, "software_id"@) == Some(text_or_null(s.software_id))
    &&& values::under(told, "software_display_name"@) == Some(text_or_null(s.software_display_name))
    &&& values::under(told, "software_version"@) == Some(text_or_null(s.software_version))
    &&& values::under(told, "features"@) == Some(
        JsonView::Array(Seq::new(s.features.len(), |i: int| JsonView::Text(s.features[i]))),
    )
    &&& values::elements(values::under(told, "discovered_modules"@)).len() == s.modules.len()
    &&& forall|i: int|
        0 <= i < s.modules.len() ==> tells_module(
            #[trigger] values::elements(values::under(told, "discovered_modules"@))[i],
            s.modules[i],
        )
    &&& forall|key: Seq<char>| #[trigger]
        values::under(told, key) is Some ==> key == "slot"@ || key == "name"@ || key == "serial"@
            || key == "software_id"@ || key == "software_display_name"@ || key
            == "software_version"@ || key == "features"@ || key == "discovered_modules"@
}

/// A card is reported as it was found: what it is, its software, its features and its modules.
pub proof fn law_card_report(s: SlotView)
    ensures
        tells_card(state::slot_json(s), s),
{
    lemma_names();
    let told = Some(state::slot_json(s));
    let list = values::elements(values::under(told, "discovered_modules"@));
    assert(list == s.modules.map_values(|r: RecordView| state::module_json(r)));
    assert(state::texts_json(s.features)->Array_0 == Seq::new(
        s.features.len(),
        |i: int| JsonView::Text(s.features[i]),
    ));
    assert forall|i: int| 0 <= i < s.modules.len() implies tells_module(
        #[trigger] list[i],
        s.modules[i],
    ) by {
        assert(list[i] == state::module_json(s.modules[i]));
    }
}

/// How many cards there are below a slot.
pub open spec fn cards_below(m: Map<u32, SlotView>, n: nat) -> nat
    decreases n,
{
    if n == 0 {
        0
    } else if m.contains_key((n - 1) as u32) {
        cards_below(m, (n - 1) as nat) + 1
    } else {
        cards_below(m, (n - 1) as nat)
    }
}

proof fn lemma_cards(m: Map<u32, SlotView>, n: nat, slot: u32)
    requires
        n <= slots::slot_limit(),
    ensures
        ({
            let all = slots::fold_slots(m, n, Seq::empty(), state::add_slot_json());
            &&& all.len() == cards_below(m, n)
            &&& slot < n && m.contains_key(slot) ==> cards_below(m, slot as nat) < all.len()
                && all[cards_below(m, slot as nat) as int] == state::slot_json(m[slot])
        }),
    decreases n,
{
    if n > 0 {
        lemma_cards(m, (n - 1) as nat, slot);
    }
}

/// Each card is reported once, in the order of the slots.
pub proof fn law_cards_in_order(m: Map<u32, SlotView>, slot: u32)
    ensures
        state::slots_json(m).len() == cards_below(m, 0x1_0000_0000),
        m.contains_key(slot) ==> cards_below(m, slot as nat) < state::slots_json(m).len()
            && tells_card(state::slots_json(m)[cards_below(m, slot as nat) as int], m[slot]),
{
    lemma_cards(m, slots::slot_limit(), slot);
    if m.contains_key(slot) {
        law_card_report(m[slot]);
    }
}

/// What was listed for a slot is reported with the slot in it; what is no object is reported as it is.
pub proof fn law_listed_with_slot(item: JsonView, slot: u32, key: Seq<char>)
    ensures
        item is Object ==> values::under(Some(state::with_slot(item, slot)), "slot"@) == Some(
            values::number(slot as nat),
        ),
        item is Object && key != "slot"@ ==> values::under(Some(state::with_slot(item, slot)), key)
            == values::under(Some(item), key),
        item !is Object ==> state::with_slot(item, slot) == item,
{
}

/// At first nothing is known of a unit and it is well.
pub proof fn law_nothing_known_at_first(
    caps: DeviceCapabilities,
    version: &'static str,
    address: String,
    r: SharedAppearXState,
)
    requires
        call_ensures(SharedAppearXState::new, (caps, version, address), r),
    ensures
        ({
            let s = r@.state;
            let lists = Map::<u32, Seq<JsonView>>::empty();
            let tables = Map::<u32, JsonView>::empty();
            &&& r@.caps == caps@
            &&& r@.version == version@
            &&& r@.address == address@
            &&& s.status == "ok"@
            &&& s.alarms.len() == 0
            &&& s.prev_alarm_ids == Set::<Seq<char>>::empty()
            &&& s.chassis is None
            &&& s.chassis_info is None
            &&& s.card_states.len() == 0
            &&& s.inputs == lists && s.outputs == lists && s.ip_interfaces == lists
            &&& s.coder_services == lists && s.multi_services == lists && s.audio_profiles == lists
            &&& s.xger_ip_interfaces == lists && s.card_allocations == lists
            &&& s.ip_connections == lists && s.redundancy_groups == lists
            &&& s.output_services == lists
            &&& s.card_status == tables && s.pool_config == tables && s.redundancy_group_status
                == tables
            &&& s.hip_encoders == tables && s.hip_decoders == tables && s.dpi_status == tables
            &&& s.esam_status == tables && s.pois_server_status == tables && s.lock_status == tables
            &&& s.psi_status == tables
        }),
{
}

/// The answer about the chassis is kept whole.
pub proof fn law_chassis_is_kept(state: &mut SharedAppearXState, result: Json)
    requires
        call_ensures(polling::apply_chassis, (state, result), ()),
    ensures
        final(state)@.state == (StateView { chassis: Some(result@), ..old(state)@.state }),
        final(state)@.caps == old(state)@.caps,
        final(state)@.version == old(state)@.version,
        final(state)@.address == old(state)@.address,
{
}

/// Of the answers about the cards the data of the one and the list of the other are kept.
pub proof fn law_cards_are_kept(state: &mut SharedAppearXState, info: &Json, states: &Json)
    requires
        call_ensures(polling::apply_cards, (state, info, states), ()),
    ensures
        final(state)@.state == (StateView {
            chassis_info: Some(
                match values::under(Some(info@), "data"@) {
                    Some(d) => d,
                    None => JsonView::Object(Map::empty()),
                },
            ),
            card_states: values::elements(values::under(Some(states@), "cards"@)),
            ..old(state)@.state
        }),
        final(state)@.caps == old(state)@.caps,
        final(state)@.version == old(state)@.version,
        final(state)@.address == old(state)@.address,
{
}

/// A unit whose alarms could not be polled is reported as critical without alarms, and the failure is
/// counted.
pub proof fn law_failed_poll(
    reach: &mut ReachabilityState,
    identity: &GatewayIdentity,
    version: &str,
    egress_ip: Option<String>,
    error_code: &str,
    counted_at: i64,
    decided_at: i64,
    r: AlarmsReport,
)
    requires
        call_ensures(
            polling::alarms_failed,
            (reach, identity, version, egress_ip, error_code, counted_at, decided_at),
            r,
        ),
    ensures
        r.health@ == polling::health_payload(
            "critical"@,
            JsonView::Array(Seq::empty()),
            version@,
            json::strings_view(identity.capabilities@),
        ),
        final(reach)@ == old(reach)@.after_failure(error_code@, counted_at, decided_at),
        r.target@.reachable == final(reach)@.reachable,
        r.target@.target_address == identity.target_address@,
        r.target@.last_error_code == final(reach)@.last_error_code,
        r.target@.consecutive_failures == Some(final(reach)@.consecutive_failures),
{
}

/// What the heartbeat tells of the unit is added to what it tells of the gateway.
pub proof fn law_target_is_added(health: Json, target: &GatewayTargetHealth, r: Json, key: Seq<char>)
    requires
        call_ensures(polling::health_with_target, (health, target), r),
    ensures
        health@ is Object ==> values::under(Some(r@), "gateway_target"@) == Some(
            polling::target_json(target@),
        ),
        health@ is Object && key != "gateway_target"@ ==> values::under(Some(r@), key)
            == values::under(Some(health@), key),
        health@ !is Object ==> r@ == health@,
{
}

/// While the unit was not discovered the gateway says that it is critical; afterwards nothing is said
/// here.
pub proof fn law_first_heartbeats(
    phase: &DiscoveryPhase,
    address: &str,
    host: Option<String>,
    egress_ip: Option<String>,
    version: &str,
    capabilities: &Vec<String>,
    r: Option<(Json, GatewayTargetHealth)>,
)
    requires
        call_ensures(
            DiscoveryPhase::heartbeat,
            (phase, address, host, egress_ip, version, capabilities),
            r,
        ),
    ensures
        r is Some <==> phase@.pending is Some,
        r matches Some((health, target)) ==> {
            let p = phase@.pending->0;
            &&& health@ == polling::health_payload(
                "critical"@,
                JsonView::Array(Seq::empty()),
                version@,
                json::strings_view(capabilities@),
            )
            &&& !target@.reachable
            &&& target@.target_address == address@
            &&& target@.gateway_host == json::string_view(host)
            &&& target@.gateway_egress_ip == json::string_view(egress_ip)
            &&& target@.last_successful_poll_unix is None
            &&& target@.last_error_code == Some(p.1)
            &&& target@.consecutive_failures == Some(p.0)
        },
{
}

/// The gateway can be upgraded, and no more.
pub proof fn law_capabilities(r: Vec<String>)
    requires
        call_ensures(polling::gateway_capabilities, (), r),
    ensures
        r@.len() == 1,
        r@[0]@ == "upgrade"@,
{
    let all = json::strings_view(r@);
    assert(all == seq!["upgrade"@]);
    assert(all.len() == r@.len());
    assert(all[0] == r@[0]@);
}

proof fn lemma_module_count(m: Map<u32, SlotView>, n: nat, slot: u32)
    requires
        n <= slots::slot_limit(),
    ensures
        ({
            let all = slots::fold_slots(m, n, 0nat, capabilities::add_modules());
            let fewer = slots::fold_slots(m.remove(slot), n, 0nat, capabilities::add_modules());
            &&& slot < n && m.contains_key(slot) ==> all == fewer + m[slot].modules.len()
            &&& slot >= n || !m.contains_key(slot) ==> all == fewer
        }),
    decreases n,
{
    if n > 0 {
        lemma_module_count(m, (n - 1) as nat, slot);
        if (n - 1) as u32 != slot {
            assert(m.remove(slot).contains_key((n - 1) as u32) == m.contains_key((n - 1) as u32));
        }
    }
}

proof fn lemma_no_modules(m: Map<u32, SlotView>, n: nat)
    requires
        forall|k: u32| !#[trigger] m.contains_key(k),
    ensures
        slots::fold_slots(m, n, 0nat, capabilities::add_modules()) == 0,
    decreases n,
{
    if n > 0 {
        lemma_no_modules(m, (n - 1) as nat);
    }
}

/// The summary of a unit tells its chassis, its version, how many cards it has and how many modules of
/// them answered.
pub proof fn law_summary(d: DeviceView, slot: u32)
    ensures
        capabilities::summary_of(d) == "chassis="@ + d.chassis_type + " mmi:"@ + d.cards_mmi_version
            + " slots="@ + text::decimal(d.slots.len()) + " discovered_interfaces="@
            + text::decimal(capabilities::module_count(d.slots)),
        capabilities::module_count(Map::empty()) == 0,
        d.slots.contains_key(slot) ==> capabilities::module_count(d.slots)
            == capabilities::module_count(d.slots.remove(slot)) + d.slots[slot].modules.len(),
{
    lemma_no_modules(Map::empty(), slots::slot_limit());
    lemma_module_count(d.slots, slots::slot_limit(), slot);
}

/// What stands in a list of output services, whether it came by itself or within its data.
pub proof fn law_unpacked(answer: JsonView)
    ensures
        state::unpacked(answer) == match values::under(Some(answer), "data"@) {
            Some(d) => d,
            None => answer,
        },
{
}

} // verus!
