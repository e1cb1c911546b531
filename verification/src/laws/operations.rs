//! What the operations that keep something do to it, and what the others return.

use std::collections::BTreeMap;
use vstd::prelude::*;

use crate::appear_x::capabilities::{
    self, DeviceCapabilities, DiscoveredInterfaceRecord, SlotCapabilities,
};
use crate::appear_x::commands::{
    self, AppearXCommandHandler, CommandError, DeferredAppearXHandler, Plan,
};
use crate::appear_x::discovery::{self, Discovery, DiscoveryError, StageView};
use crate::appear_x::health;
use crate::appear_x::jsonrpc::Request;
use crate::appear_x::polling::{self, AlarmsReport, GatewayIdentity, PollTask, Sink};
use crate::appear_x::reachability::{ReachView, ReachabilityState, TransitionOutcome};
use crate::appear_x::startup::{DiscoveryPhase, PhaseView};
use crate::appear_x::state::{self, SharedAppearXState};
use crate::clock::Moment;
use crate::config::{self, AppConfig, ConfigError, ManagerConfig, PollingConfig};
use crate::double::Double;
use crate::event::{self, EventSeverity, EventView, GatewayEvent, PartView};
use crate::event_gate::{EventGate, GateDecision, GateView};
use crate::json::{self, Json, JsonView};
use crate::laws::{events, probing, values};
use crate::slots;
use crate::ws::client::Reconnect;

verus! {

/// The alarms that came back are kept, those that are new or gone are told, the unit counts as reached,
/// and the heartbeat has the alarms and what follows from them.
pub proof fn law_answered_poll(
    state: &mut SharedAppearXState,
    reach: &mut ReachabilityState,
    identity: &GatewayIdentity,
    version: &str,
    egress_ip: Option<String>,
    result: &Json,
    now: i64,
    r: AlarmsReport,
)
    requires
        call_ensures(
            polling::alarms_answered,
            (state, reach, identity, version, egress_ip, result, now),
            r,
        ),
    ensures
        ({
            let alarms = events::alarms_in(result@);
            let known = old(state)@.state.prev_alarm_ids;
            &&& final(state)@.state == polling::state_after_alarms(old(state)@.state, result@)
            &&& final(state)@.caps == old(state)@.caps
            &&& final(reach)@ == old(reach)@.after_success(now)
            &&& exists|gone: Seq<Seq<char>>| #[trigger]
                polling::are_gone(gone, known, alarms) && event::events_view(r.events@)
                    == polling::alarm_events(
                    alarms.filter(|a: JsonView| events::is_new(a, known)),
                    gone,
                ) + polling::transition_events(
                    old(reach)@.success_outcome(now),
                    identity.target_address@,
                )
            &&& r.health@ == polling::health_payload(
                polling::status_of(alarms),
                match values::under(Some(result@), "data"@) {
                    Some(d) => d,
                    None => JsonView::Array(Seq::empty()),
                },
                version@,
                json::strings_view(identity.capabilities@),
            )
            &&& r.target@ == polling::target_health(
                final(reach)@,
                identity.target_address@,
                json::string_view(identity.gateway_host),
                json::string_view(egress_ip),
            )
        }),
{
    let alarms = events::alarms_in(result@);
    assert(polling::data_in(result@).items_or_none() == alarms);
    events::law_new_alarms(alarms, old(state)@.state.prev_alarm_ids);
}

/// The state of a card that came back is kept, and what it gives rise to depends on the one before.
pub proof fn law_card_status_poll(
    state: &mut SharedAppearXState,
    slot: u32,
    result: Json,
    rx_limit: Double,
    heat_limit: Double,
    r: Vec<GatewayEvent>,
)
    requires
        call_ensures(
            polling::card_status_polled,
            (state, slot, result, rx_limit, heat_limit),
            r,
        ),
    ensures
        final(state)@.state.card_status == old(state)@.state.card_status.insert(slot, result@),
        event::events_view(r@) == polling::card_events(
            slot,
            if old(state)@.state.card_status.contains_key(slot) {
                Some(old(state)@.state.card_status[slot])
            } else {
                None
            },
            result@,
            rx_limit,
            heat_limit,
        ),
{
}

/// The result of a poll is kept where it belongs, and nothing else of what is known changes.
pub proof fn law_poll_is_kept(
    state: &mut SharedAppearXState,
    sink: Sink,
    slot: u32,
    result: Json,
)
    requires
        call_ensures(polling::apply_poll, (state, sink, slot, result), ()),
    ensures
        final(state)@.state == polling::applied(old(state)@.state, sink, slot, result@),
        final(state)@.caps == old(state)@.caps,
        final(state)@.version == old(state)@.version,
        final(state)@.address == old(state)@.address,
        final(state)@.started_at == old(state)@.started_at,
{
}

/// What is polled, reported and done is what the laws of these speak of.
pub proof fn law_what_is_made(
    config: &PollingConfig,
    caps: &DeviceCapabilities,
    tasks: Vec<PollTask>,
    table: &BTreeMap<u32, Json>,
    signals: Json,
    alarm: &Json,
    raised: GatewayEvent,
    alarms: &Vec<Json>,
    status: &'static str,
    shared: &SharedAppearXState,
    uptime: u64,
    snapshot: Json,
)
    ensures
        call_ensures(polling::run_polling, (config, caps), tasks) ==> polling::tasks_view(tasks@)
            == polling::polling_plan(*config, caps@),
        call_ensures(health::derive_health_signals, (table,), signals) ==> signals@
            == health::health_signals(slots::views(table@)),
        call_ensures(polling::make_alarm_event, (alarm,), raised) ==> raised@
            == polling::alarm_events(seq![alarm@], Seq::empty())[0],
        call_ensures(polling::derive_status, (alarms,), status) ==> status@ == polling::status_of(
            json::items_view(alarms@),
        ),
        call_ensures(SharedAppearXState::snapshot_at, (shared, uptime), snapshot) ==> snapshot@
            == state::snapshot_of(shared@, uptime),
{
    assert(polling::alarm_events(seq![alarm@], Seq::empty())[0] == polling::alarm_event(alarm@));
}

/// What a command does is planned from what is known of the unit.
pub proof fn law_commands_are_planned(
    h: &AppearXCommandHandler,
    d: &DeferredAppearXHandler,
    action: &Json,
    r: Result<Plan, CommandError>,
)
    ensures
        call_ensures(AppearXCommandHandler::handle_command, (h, action), r) ==> commands::planned(r)
            == commands::command_plan(h.state@.caps, h.mmi, h.upgrades, action@),
        call_ensures(DeferredAppearXHandler::handle_command, (d, action), r) ==> commands::planned(
            r,
        ) == commands::deferred_plan(*d, action@),
{
}

/// A discovery asks what its state asks, goes on with the answer, and ends with the unit or with why
/// there is none.
pub proof fn law_discovery_runs(
    versions: Vec<String>,
    d: Discovery,
    q: Option<Request>,
    opened: bool,
    reply: Option<Json>,
    next: Discovery,
    end: Option<Result<DeviceCapabilities, DiscoveryError>>,
)
    ensures
        call_ensures(discovery::discover, (versions,), next) ==> next@ == discovery::undiscovered(
            json::strings_view(versions@),
        ),
        call_ensures(Discovery::request, (&d,), q) ==> d@.asks() == match q {
            Some(request) => Some(request@),
            None => None,
        },
        call_ensures(Discovery::session_opened, (d, opened), next) ==> next@ == d@.signed_in(opened),
        call_ensures(Discovery::answer, (d, reply), next) ==> next@ == d@.answered(
            state::owned_view(reply),
        ),
        call_ensures(Discovery::finish, (d,), end) ==> {
            &&& end matches Some(Ok(device)) ==> d@.stage == StageView::Done(device@)
            &&& end matches Some(Err(e)) ==> (e is NotAuthenticated <==> d@.stage is Refused) && (
            e is NoChassis <==> d@.stage is NoChassis)
            &&& end is None ==> d@.stage !is Done && d@.stage !is Refused && d@.stage !is NoChassis
        },
{
}

/// A module is known with the version of its record, an interface with that of its first record, and a
/// new record replaces the one of its module.
pub proof fn law_modules_of_a_card(
    s: &SlotCapabilities,
    changed: &mut SlotCapabilities,
    interface: &str,
    module: &str,
    known: bool,
    version: Option<String>,
    record: DiscoveredInterfaceRecord,
    k: int,
)
    ensures
        call_ensures(SlotCapabilities::has_module, (s, interface, module), known) ==> (known
            <==> capabilities::find_record(s@.modules, interface@ + "/"@ + module@) is Some),
        call_ensures(SlotCapabilities::module_version, (s, interface, module), version)
            ==> json::string_view(version) == match capabilities::find_record(
            s@.modules,
            interface@ + "/"@ + module@,
        ) {
            Some(r) => Some(r.version),
            None => None,
        },
        call_ensures(SlotCapabilities::any_interface_version, (s, interface), version) && probing::first_of(
            s@.modules,
            interface@,
            k,
        ) ==> json::string_view(version) == Some(s@.modules[k].version),
        call_ensures(SlotCapabilities::record, (changed, record), ()) ==> final(changed)@.modules
            == capabilities::with_record(old(changed)@.modules, record@) && final(changed)@.slot
            == old(changed)@.slot && final(changed)@.name == old(changed)@.name && final(changed)@.serial == old(changed)@.serial && final(changed)@.features == old(changed)@.features,
{
    probing::law_first_of_interface(s@.modules, interface@, k);
}

/// The versions that are known of the modules of a card.
pub proof fn law_known_versions(
    shared: &SharedAppearXState,
    slot: u32,
    interface: &str,
    module: &str,
    version: Option<String>,
    k: int,
)
    ensures
        call_ensures(
            SharedAppearXState::discovered_version,
            (shared, slot, interface, module),
            version,
        ) ==> json::string_view(version) == state::version_on(
            shared@.caps,
            slot,
            interface@,
            module@,
        ),
        call_ensures(SharedAppearXState::any_interface_version, (shared, slot, interface), version)
            && !shared@.caps.slots.contains_key(slot) ==> version is None,
        call_ensures(SharedAppearXState::any_interface_version, (shared, slot, interface), version)
            && shared@.caps.slots.contains_key(slot) && probing::first_of(
            shared@.caps.slots[slot].modules,
            interface@,
            k,
        ) ==> json::string_view(version) == Some(shared@.caps.slots[slot].modules[k].version),
{
    if shared@.caps.slots.contains_key(slot) {
        probing::law_first_of_interface(shared@.caps.slots[slot].modules, interface@, k);
    }
}

/// What an event is made of.
pub proof fn law_events_are_made(
    severity: EventSeverity,
    category: &str,
    message: String,
    e: GatewayEvent,
    details: Json,
    code: &str,
    r: GatewayEvent,
)
    ensures
        call_ensures(GatewayEvent::new, (severity, category, message), r) ==> r@ == (EventView {
            severity,
            category: category@,
            message: seq![PartView::Text(message@)],
            error_code: None,
            details: None,
        }),
        call_ensures(GatewayEvent::info, (category, message), r) ==> r@ == (EventView {
            severity: EventSeverity::Info,
            category: category@,
            message: seq![PartView::Text(message@)],
            error_code: None,
            details: None,
        }),
        call_ensures(GatewayEvent::with_details, (e, details), r) ==> r@ == (EventView {
            details: Some(details@),
            ..e@
        }),
        call_ensures(GatewayEvent::with_error_code, (e, code), r) ==> r@ == (EventView {
            error_code: Some(code@),
            ..e@
        }),
{
}

/// A discovery begins without a success, counts its failures and is over once it has succeeded.
pub proof fn law_discovery_phase(phase: &mut DiscoveryPhase, code: &str, r: DiscoveryPhase)
    ensures
        call_ensures(DiscoveryPhase::new, (), r) ==> r@ == PhaseView::fresh(),
        call_ensures(DiscoveryPhase::failed, (phase, code), ()) ==> final(phase)@ == old(phase)@.failed(code@),
        call_ensures(DiscoveryPhase::finished, (phase,), ()) ==> final(phase)@.pending is None,
{
}

/// Settings that are accepted are given back as they are; others are refused for what is wrong with
/// them.
pub proof fn law_settings_are_checked(c: AppConfig, skip: bool, r: Result<AppConfig, ConfigError>)
    requires
        call_ensures(AppConfig::load_for_command, (c, skip), r),
    ensures
        r is Ok <==> config::config_fault(c, skip) is None,
        r matches Ok(accepted) ==> accepted == c,
        r matches Err(e) ==> config::config_fault(c, skip) == Some(e@),
{
}

/// What is known of a unit's reachability is what the polls before made of it.
pub proof fn law_reachability(
    threshold: u32,
    dwell: u64,
    reach: &mut ReachabilityState,
    code: &str,
    now: i64,
    later: i64,
    r: ReachabilityState,
    outcome: TransitionOutcome,
    reachable: bool,
    failures: u32,
    last: Option<i64>,
    error: Option<String>,
)
    ensures
        call_ensures(ReachabilityState::new, (threshold, dwell), r) ==> r@ == ReachView::fresh(
            threshold,
            dwell,
        ),
        call_ensures(ReachabilityState::record_success_at, (reach, now), outcome) ==> outcome@ == old(reach)@.success_outcome(now) && final(reach)@ == old(reach)@.after_success(now),
        call_ensures(ReachabilityState::record_failure_at, (reach, code, now, later), outcome)
            ==> outcome@ == old(reach)@.failure_outcome(code@, now, later) && final(reach)@ == old(reach)@.after_failure(code@, now, later),
        call_ensures(ReachabilityState::is_reachable, (&r,), reachable) ==> reachable
            == r@.reachable,
        call_ensures(ReachabilityState::consecutive_failures, (&r,), failures) ==> failures
            == r@.consecutive_failures,
        call_ensures(ReachabilityState::last_success_unix, (&r,), last) ==> (last is None
            <==> r@.last_success_unix == 0) && (last matches Some(t) ==> t == r@.last_success_unix),
        call_ensures(ReachabilityState::last_error_code, (&r,), error) ==> json::string_view(error)
            == r@.last_error_code,
{
}

/// Each event is weighed at its moment.
pub proof fn law_gate(gate: &mut EventGate, now: Moment, r: GateDecision, made: EventGate)
    ensures
        call_ensures(EventGate::new, (), made) ==> made@ == GateView::fresh(),
        call_ensures(EventGate::check_at, (gate, now), r) ==> r@ == old(gate)@.decision(now)
            && final(gate)@ == old(gate)@.after(now),
{
}

/// Of the manager's addresses the one whose turn it is is used, and after a connection the next has its
/// turn once the wait is over.
pub proof fn law_reconnect(
    turns: &mut Reconnect,
    config: &ManagerConfig,
    url: &String,
    accepted: bool,
    wait: u64,
    made: Reconnect,
)
    ensures
        call_ensures(Reconnect::new, (), made) ==> made@.step == 0 && made@.url == 0,
        call_ensures(Reconnect::url, (&made, config), url) ==> *url == config.urls@[made@.url as int],
        call_ensures(Reconnect::ended, (turns, accepted, config), wait) ==> wait == old(turns)@.wait(
            accepted,
        ) && final(turns)@ == old(turns)@.after(accepted, config.urls@.len()),
{
}

} // verus!
