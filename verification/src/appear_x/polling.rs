//! What is asked of the unit again and again, and what the answers lead to.
//!
//! [`run_polling`] lists the polls for a unit that was discovered. Each poll makes its calls at its
//! interval and hands the result to [`apply_poll`], [`apply_chassis`], [`apply_cards`],
//! [`card_status_polled`] or [`alarms_polled`].

use vstd::prelude::*;

use crate::appear_x::capabilities::{DeviceCapabilities, DeviceView, SlotCapabilities, SlotView};
use crate::appear_x::health;
use crate::appear_x::jsonrpc::{self, Endpoint, Request, RequestView};
use crate::appear_x::probe_registry;
use crate::appear_x::reachability::{
    self, OutcomeView, ReachView, ReachabilityState, TransitionOutcome,
};
use crate::appear_x::state::{self, SharedAppearXState, SharedView, StateView};
use crate::clock;
use crate::config::PollingConfig;
use crate::double::Double;
use crate::event::{self, EventSeverity, EventView, GatewayEvent, Part, PartView};
use crate::json::{self, Json, JsonView, Object};
use crate::slots;
use crate::text;

verus! {

/// How often a snapshot of the state is sent to the manager, in seconds.
pub const STATS_EMIT_INTERVAL_SECS: u64 = 5;

/// Who the gateway is and whom it polls.
#[derive(Debug)]
pub struct GatewayIdentity {
    /// The unit's address.
    pub target_address: String,
    /// The name of the host that the gateway runs on.
    pub gateway_host: Option<String>,
    /// How many polls in a row must fail for the unit to count as unreachable.
    pub failure_threshold: u32,
    /// How long the unit must have been unreachable for an event, in seconds.
    pub event_dwell_secs: u64,
    /// What the gateway can do beyond polling.
    pub capabilities: Vec<String>,
}

/// What the gateway can do beyond polling.
pub fn gateway_capabilities() -> (r: Vec<String>)
    ensures
        json::strings_view(r@) == seq!["upgrade"@],
{
    let mut out: Vec<String> = Vec::new();
    out.push("upgrade".to_owned());
    assert(json::strings_view(out@) == seq!["upgrade"@]);
    out
}

/// How often a poll is made.
#[derive(Clone, Copy, Debug, PartialEq, Eq, Structural)]
pub enum Pace {
    /// As often as inputs.
    Inputs,
    /// Half as often as inputs.
    InputsTwice,
    /// As often as outputs.
    Outputs,
    /// As often as the state of a card.
    Status,
    /// As often as what is configured on a card.
    Slow,
}

/// Where the result of a poll of a card is kept.
#[derive(Clone, Copy, Debug, PartialEq, Eq, Structural)]
pub enum Sink {
    Inputs,
    Outputs,
    IpInterfaces,
    CoderServices,
    MultiServices,
    AudioProfiles,
    XgerIpInterfaces,
    CardAllocations,
    IpConnections,
    RedundancyGroups,
    OutputServices,
    CardStatus,
    RedundancyGroupStatus,
    HipEncoders,
    HipDecoders,
    DpiStatus,
    EsamStatus,
    PoisServerStatus,
    PoolConfig,
    LockStatus,
    PsiStatus,
}

/// A poll that a card is asked for where it has the module.
#[derive(Clone, Copy, Debug)]
pub struct PollRow {
    /// What the poll is called in the logs.
    pub name: &'static str,
    pub interface: &'static str,
    pub module: &'static str,
    pub command: &'static str,
    pub pace: Pace,
    pub sink: Sink,
    /// Whether the slot is taken from the record of the card.
    pub own_slot: bool,
}

/// What a [`PollRow`] holds.
#[verifier::ext_equal]
pub struct RowView {
    pub name: Seq<char>,
    pub interface: Seq<char>,
    pub module: Seq<char>,
    pub command: Seq<char>,
    pub pace: Pace,
    pub sink: Sink,
    pub own_slot: bool,
}

impl View for PollRow {
    type V = RowView;

    open spec fn view(&self) -> RowView {
        RowView {
            name: self.name@,
            interface: self.interface@,
            module: self.module@,
            command: self.command@,
            pace: self.pace,
            sink: self.sink,
            own_slot: self.own_slot,
        }
    }
}

/// A poll that a card is asked for where it has the module.
pub open spec fn row(
    name: Seq<char>,
    interface: Seq<char>,
    module: Seq<char>,
    command: Seq<char>,
    pace: Pace,
    sink: Sink,
    own_slot: bool,
) -> RowView {
    RowView { name, interface, module, command, pace, sink, own_slot }
}

fn make_row(
    name: &'static str,
    interface: &'static str,
    module: &'static str,
    command: &'static str,
    pace: Pace,
    sink: Sink,
    own_slot: bool,
) -> (r: PollRow)
    ensures
        r@ == row(name@, interface@, module@, command@, pace, sink, own_slot),
{
    PollRow { name, interface, module, command, pace, sink, own_slot }
}

/// What a list of rows holds.
pub open spec fn rows_view(s: Seq<PollRow>) -> Seq<RowView> {
    s.map_values(|r: PollRow| r@)
}

/// All polls that a card may be asked for.
pub open spec fn poll_rows() -> Seq<RowView> {
    seq![
        row("ipgw-inputs"@, "ipGateway"@, "input"@, "GetInputs"@, Pace::Inputs, Sink::Inputs, false),
        row("ipgw-outputs"@, "ipGateway"@, "output"@, "GetOutputs"@, Pace::Outputs, Sink::Outputs, false),
        row("ipgw-ifaces"@, "ipGateway"@, "ipinterface"@, "GetIpInterfaces"@, Pace::InputsTwice, Sink::IpInterfaces, false),
        row("xger-cardstatus"@, "Xger"@, "cardStatus"@, "GetCardStatus"@, Pace::Status, Sink::CardStatus, false),
        row("xger-coderService"@, "Xger"@, "coderService"@, "GetCoderServices"@, Pace::Slow, Sink::CoderServices, true),
        row("xger-multiService"@, "Xger"@, "multiService"@, "GetMultiServices"@, Pace::Slow, Sink::MultiServices, true),
        row("xger-audioProfile"@, "Xger"@, "audioProfile"@, "GetAudioProfiles"@, Pace::Slow, Sink::AudioProfiles, true),
        row("xger-ipInterface"@, "Xger"@, "ipInterface"@, "GetIpInterfaces"@, Pace::Slow, Sink::XgerIpInterfaces, true),
        row("xger-cardAllocation"@, "Xger"@, "cardAllocation"@, "GetCardAllocations"@, Pace::Slow, Sink::CardAllocations, true),
        row("xger-ipConnection"@, "Xger"@, "ipConnection"@, "GetIpConnections"@, Pace::Slow, Sink::IpConnections, true),
        row("xger-redundancyGroup"@, "Xger"@, "redundancyGroup"@, "GetRedundancyGroups"@, Pace::Slow, Sink::RedundancyGroups, true),
        row("xger-redundancyGroupStatus"@, "Xger"@, "redundancyGroupStatus"@, "GetRedundancyGroupStatus"@, Pace::Status, Sink::RedundancyGroupStatus, true),
        row("hipEnc-hipEncoder"@, "hipEnc"@, "hipEncoder"@, "GetEncoders"@, Pace::Slow, Sink::HipEncoders, true),
        row("hipTsEnc-hipTsEncoder"@, "hipTsEnc"@, "hipTsEncoder"@, "GetEncoders"@, Pace::Slow, Sink::HipEncoders, true),
        row("hipDec-hipDecoder"@, "hipDec"@, "hipDecoder"@, "GetDecoders"@, Pace::Slow, Sink::HipDecoders, true),
        row("hipTsDec-hipTsDecoder"@, "hipTsDec"@, "hipTsDecoder"@, "GetDecoders"@, Pace::Slow, Sink::HipDecoders, true),
        row("xger-dpiStatus"@, "Xger"@, "dpiStatus"@, "GetDpiStatus"@, Pace::Slow, Sink::DpiStatus, true),
        row("xger-esamStatus"@, "Xger"@, "esamStatus"@, "GetEsamStatus"@, Pace::Slow, Sink::EsamStatus, true),
        row("xger-poisServerStatus"@, "Xger"@, "poisServerStatus"@, "GetPoisServerStatus"@, Pace::Slow, Sink::PoisServerStatus, true),
        row("xger-poolConfig"@, "Xger"@, "poolConfig"@, "GetPoolConfig"@, Pace::Slow, Sink::PoolConfig, true),
        row("xger-lockStatus"@, "Xger"@, "lockStatus"@, "GetLockStatus"@, Pace::Status, Sink::LockStatus, true),
        row("xger-psiStatus"@, "Xger"@, "psiStatus"@, "GetPsiStatus"@, Pace::Slow, Sink::PsiStatus, true),
        row("board-output-services"@, "board"@, "services"@, "GetOutputServices"@, Pace::Slow, Sink::OutputServices, false),
    ]
}

/// All polls that a card may be asked for.
pub fn make_poll_rows() -> (r: Vec<PollRow>)
    ensures
        rows_view(r@) == poll_rows(),
{
    let mut out: Vec<PollRow> = Vec::new();
    out.push(make_row("ipgw-inputs", "ipGateway", "input", "GetInputs", Pace::Inputs, Sink::Inputs, false));
    out.push(make_row("ipgw-outputs", "ipGateway", "output", "GetOutputs", Pace::Outputs, Sink::Outputs, false));
    out.push(make_row("ipgw-ifaces", "ipGateway", "ipinterface", "GetIpInterfaces", Pace::InputsTwice, Sink::IpInterfaces, false));
    out.push(make_row("xger-cardstatus", "Xger", "cardStatus", "GetCardStatus", Pace::Status, Sink::CardStatus, false));
    out.push(make_row("xger-coderService", "Xger", "coderService", "GetCoderServices", Pace::Slow, Sink::CoderServices, true));
    out.push(make_row("xger-multiService", "Xger", "multiService", "GetMultiServices", Pace::Slow, Sink::MultiServices, true));
    out.push(make_row("xger-audioProfile", "Xger", "audioProfile", "GetAudioProfiles", Pace::Slow, Sink::AudioProfiles, true));
    out.push(make_row("xger-ipInterface", "Xger", "ipInterface", "GetIpInterfaces", Pace::Slow, Sink::XgerIpInterfaces, true));
    out.push(make_row("xger-cardAllocation", "Xger", "cardAllocation", "GetCardAllocations", Pace::Slow, Sink::CardAllocations, true));
    out.push(make_row("xger-ipConnection", "Xger", "ipConnection", "GetIpConnections", Pace::Slow, Sink::IpConnections, true));
    out.push(make_row("xger-redundancyGroup", "Xger", "redundancyGroup", "GetRedundancyGroups", Pace::Slow, Sink::RedundancyGroups, true));
    out.push(make_row("xger-redundancyGroupStatus", "Xger", "redundancyGroupStatus", "GetRedundancyGroupStatus", Pace::Status, Sink::RedundancyGroupStatus, true));
    out.push(make_row("hipEnc-hipEncoder", "hipEnc", "hipEncoder", "GetEncoders", Pace::Slow, Sink::HipEncoders, true));
    out.push(make_row("hipTsEnc-hipTsEncoder", "hipTsEnc", "hipTsEncoder", "GetEncoders", Pace::Slow, Sink::HipEncoders, true));
    out.push(make_row("hipDec-hipDecoder", "hipDec", "hipDecoder", "GetDecoders", Pace::Slow, Sink::HipDecoders, true));
    out.push(make_row("hipTsDec-hipTsDecoder", "hipTsDec", "hipTsDecoder", "GetDecoders", Pace::Slow, Sink::HipDecoders, true));
    out.push(make_row("xger-dpiStatus", "Xger", "dpiStatus", "GetDpiStatus", Pace::Slow, Sink::DpiStatus, true));
    out.push(make_row("xger-esamStatus", "Xger", "esamStatus", "GetEsamStatus", Pace::Slow, Sink::EsamStatus, true));
    out.push(make_row("xger-poisServerStatus", "Xger", "poisServerStatus", "GetPoisServerStatus", Pace::Slow, Sink::PoisServerStatus, true));
    out.push(make_row("xger-poolConfig", "Xger", "poolConfig", "GetPoolConfig", Pace::Slow, Sink::PoolConfig, true));
    out.push(make_row("xger-lockStatus", "Xger", "lockStatus", "GetLockStatus", Pace::Status, Sink::LockStatus, true));
    out.push(make_row("xger-psiStatus", "Xger", "psiStatus", "GetPsiStatus", Pace::Slow, Sink::PsiStatus, true));
    out.push(make_row("board-output-services", "board", "services", "GetOutputServices", Pace::Slow, Sink::OutputServices, false));
    assert(rows_view(out@) == poll_rows());
    out
}

/// Which part of the unit a poll asks for.
#[derive(Clone, Copy, Debug, PartialEq, Eq, Structural)]
pub enum Subject {
    /// The alarms of the chassis.
    Alarms,
    /// The model of the chassis.
    Chassis,
    /// The chassis information and the states of the cards.
    Cards,
    /// A module of the card in a slot.
    Card { slot: u32, sink: Sink },
}

/// A poll: its calls are made one after the other at every interval.
#[derive(Debug)]
pub struct PollTask {
    /// What the poll is called in the logs.
    pub name: String,
    pub interval_secs: u64,
    pub requests: Vec<Request>,
    pub subject: Subject,
}

/// What a [`PollTask`] holds.
#[verifier::ext_equal]
pub struct TaskView {
    pub name: Seq<char>,
    pub interval_secs: nat,
    pub requests: Seq<RequestView>,
    pub subject: Subject,
}

/// What a list of calls holds.
pub open spec fn requests_view(s: Seq<Request>) -> Seq<RequestView> {
    s.map_values(|q: Request| q@)
}

impl View for PollTask {
    type V = TaskView;

    open spec fn view(&self) -> TaskView {
        TaskView {
            name: self.name@,
            interval_secs: self.interval_secs as nat,
            requests: requests_view(self.requests@),
            subject: self.subject,
        }
    }
}

/// What a list of polls holds.
pub open spec fn tasks_view(s: Seq<PollTask>) -> Seq<TaskView> {
    s.map_values(|t: PollTask| t@)
}

/// A call to the chassis.
pub open spec fn mmi_request(
    version: Seq<char>,
    module: Seq<char>,
    command: Seq<char>,
    params: JsonView,
) -> RequestView {
    RequestView {
        endpoint: Endpoint::Mmi,
        method: jsonrpc::method_name("mmi"@, version, module, command),
        params,
    }
}

/// A call to the chassis.
pub fn make_mmi_request(version: &str, module: &str, command: &str, params: Json) -> (r: Request)
    ensures
        r@ == mmi_request(version@, module@, command@, params@),
{
    Request {
        endpoint: Endpoint::Mmi,
        method: jsonrpc::make_method_name("mmi", version, module, command),
        params,
    }
}

/// The poll for the alarms of the chassis.
pub open spec fn alarms_task(c: PollingConfig) -> TaskView {
    TaskView {
        name: "alarms"@,
        interval_secs: c.alarms_interval_secs as nat,
        requests: seq![
            mmi_request(
                c.alarms_mmi_version@,
                "alarms"@,
                "GetActiveAlarms"@,
                probe_registry::empty_query(),
            ),
        ],
        subject: Subject::Alarms,
    }
}

/// The poll for the model of the chassis.
pub open spec fn chassis_task(c: PollingConfig) -> TaskView {
    TaskView {
        name: "chassis"@,
        interval_secs: c.chassis_interval_secs as nat,
        requests: seq![
            mmi_request(
                c.chassis_mmi_version@,
                "chassisModel"@,
                "GetGraph"@,
                json::no_members(),
            ),
        ],
        subject: Subject::Chassis,
    }
}

/// The poll for the chassis information and the states of the cards.
pub open spec fn cards_task(c: PollingConfig) -> TaskView {
    TaskView {
        name: "cards"@,
        interval_secs: c.cards_interval_secs as nat,
        requests: seq![
            mmi_request(c.cards_mmi_version@, "cards"@, "GetChassisInfo"@, json::no_members()),
            mmi_request(c.cards_mmi_version@, "cards"@, "GetCardStates"@, json::no_members()),
        ],
        subject: Subject::Cards,
    }
}

/// How often a poll is made, in seconds.
pub open spec fn interval_of(c: PollingConfig, pace: Pace) -> nat {
    match pace {
        Pace::Inputs => c.inputs_interval_secs as nat,
        Pace::InputsTwice => c.inputs_interval_secs as nat * 2,
        Pace::Outputs => c.outputs_interval_secs as nat,
        Pace::Status => c.card_status_interval_secs as nat,
        Pace::Slow => c.xger_config_interval_secs as nat,
    }
}

/// The poll that a row means for a card, given the version under which the module answered.
pub open spec fn row_task(
    c: PollingConfig,
    slot: u32,
    s: SlotView,
    r: RowView,
    version: Seq<char>,
) -> TaskView {
    let asked = if r.own_slot {
        s.slot
    } else {
        slot
    };
    TaskView {
        name: r.name + "-slot"@ + text::decimal(asked as nat),
        interval_secs: interval_of(c, r.pace),
        requests: seq![
            RequestView {
                endpoint: Endpoint::Board(asked),
                method: jsonrpc::method_name(r.interface, version, r.module, r.command),
                params: if r.sink == Sink::CardStatus {
                    probe_registry::slot_params(asked)
                } else {
                    json::no_members()
                },
            },
        ],
        subject: Subject::Card { slot: asked, sink: r.sink },
    }
}

/// The polls that the first `n` rows mean for a card.
pub open spec fn row_tasks(c: PollingConfig, slot: u32, s: SlotView, rows: Seq<RowView>, n: nat) -> Seq<
    TaskView,
>
    decreases n,
{
    if n == 0 {
        Seq::empty()
    } else {
        let before = row_tasks(c, slot, s, rows, (n - 1) as nat);
        let r = rows[n - 1];
        match s.version_of(r.interface, r.module) {
            Some(version) => before.push(row_task(c, slot, s, r, version)),
            None => before,
        }
    }
}

/// Adds the polls of one card.
pub open spec fn add_tasks(c: PollingConfig) -> spec_fn(Seq<TaskView>, u32, SlotView) -> Seq<TaskView> {
    |list: Seq<TaskView>, slot: u32, s: SlotView|
        list + row_tasks(c, slot, s, poll_rows(), poll_rows().len())
}

/// All polls of a unit: those of the chassis, then those of each card for the modules it has.
pub open spec fn polling_plan(c: PollingConfig, caps: DeviceView) -> Seq<TaskView> {
    slots::fold_slots(
        caps.slots,
        slots::slot_limit(),
        seq![alarms_task(c), chassis_task(c), cards_task(c)],
        add_tasks(c),
    )
}

/// Whether twice the interval of the inputs is a number of seconds, where it is needed.
pub open spec fn intervals_fit(c: PollingConfig, caps: DeviceView) -> bool {
    forall|slot: u32| #[trigger]
        caps.slots.contains_key(slot) && caps.slots[slot].version_of(
            "ipGateway"@,
            "ipinterface"@,
        ) is Some ==> c.inputs_interval_secs * 2 <= u64::MAX
}

fn make_row_task(c: &PollingConfig, slot: u32, s: &SlotCapabilities, r: &PollRow, version: &str) -> (t:
    PollTask)
    requires
        r.pace == Pace::InputsTwice ==> c.inputs_interval_secs * 2 <= u64::MAX,
    ensures
        t@ == row_task(*c, slot, s@, r@, version@),
{
    let asked: u32 = if r.own_slot {
        s.slot
    } else {
        slot
    };
    let interval_secs: u64 = match r.pace {
        Pace::Inputs => c.inputs_interval_secs,
        Pace::InputsTwice => c.inputs_interval_secs * 2,
        Pace::Outputs => c.outputs_interval_secs,
        Pace::Status => c.card_status_interval_secs,
        Pace::Slow => c.xger_config_interval_secs,
    };
    let mut name = r.name.to_owned();
    name.append("-slot");
    name.append(text::decimal_of(asked as u64).as_str());
    let mut requests: Vec<Request> = Vec::new();
    requests.push(
        Request {
            endpoint: Endpoint::Board(asked),
            method: jsonrpc::make_method_name(r.interface, version, r.module, r.command),
            params: if r.sink == Sink::CardStatus {
                probe_registry::make_slot_params(asked)
            } else {
                Json::empty()
            },
        },
    );
    let t = PollTask {
        name,
        interval_secs,
        requests,
        subject: Subject::Card { slot: asked, sink: r.sink },
    };
    assert(t@.requests == row_task(*c, slot, s@, r@, version@).requests);
    t
}

proof fn lemma_twice_row(i: int)
    requires
        0 <= i < poll_rows().len(),
        poll_rows()[i].pace == Pace::InputsTwice,
    ensures
        poll_rows()[i].interface == "ipGateway"@,
        poll_rows()[i].module == "ipinterface"@,
{
}

fn push_slot_tasks(out: &mut Vec<PollTask>, c: &PollingConfig, slot: u32, s: &SlotCapabilities)
    requires
        s@.version_of("ipGateway"@, "ipinterface"@) is Some ==> c.inputs_interval_secs * 2
            <= u64::MAX,
    ensures
        tasks_view(final(out)@) == tasks_view(old(out)@) + row_tasks(
            *c,
            slot,
            s@,
            poll_rows(),
            poll_rows().len(),
        ),
{
    let rows = make_poll_rows();
    let ghost before = tasks_view(out@);
    assert(before + row_tasks(*c, slot, s@, poll_rows(), 0) == before);
    for i in 0..rows.len()
        invariant
            rows_view(rows@) == poll_rows(),
            s@.version_of("ipGateway"@, "ipinterface"@) is Some ==> c.inputs_interval_secs * 2
                <= u64::MAX,
            tasks_view(out@) == before + row_tasks(*c, slot, s@, poll_rows(), i as nat),
    {
        let r = &rows[i];
        assert(poll_rows()[i as int] == r@);
        match s.module_version(r.interface, r.module) {
            Some(version) => {
                proof {
                    if r.pace == Pace::InputsTwice {
                        lemma_twice_row(i as int);
                    }
                }
                let ghost so_far = tasks_view(out@);
                let t = make_row_task(c, slot, s, r, version.as_str());
                let ghost tv = t@;
                out.push(t);
                assert(tasks_view(out@) == so_far.push(tv));
                assert(tasks_view(out@) == before + row_tasks(
                    *c,
                    slot,
                    s@,
                    poll_rows(),
                    (i + 1) as nat,
                ));
            },
            None => {},
        }
    }
}

/// All polls of a unit, given what was found out about it.
pub fn run_polling(config: &PollingConfig, caps: &DeviceCapabilities) -> (r: Vec<PollTask>)
    requires
        intervals_fit(*config, caps@),
    ensures
        tasks_view(r@) == polling_plan(*config, caps@),
{
    let mut out: Vec<PollTask> = Vec::new();
    let mut requests: Vec<Request> = Vec::new();
    requests.push(
        make_mmi_request(
            config.alarms_mmi_version.as_str(),
            "alarms",
            "GetActiveAlarms",
            probe_registry::make_empty_query(),
        ),
    );
    let alarms = PollTask {
        name: "alarms".to_owned(),
        interval_secs: config.alarms_interval_secs,
        requests,
        subject: Subject::Alarms,
    };
    assert(alarms@ == alarms_task(*config));
    let mut requests: Vec<Request> = Vec::new();
    requests.push(
        make_mmi_request(
            config.chassis_mmi_version.as_str(),
            "chassisModel",
            "GetGraph",
            Json::empty(),
        ),
    );
    let chassis = PollTask {
        name: "chassis".to_owned(),
        interval_secs: config.chassis_interval_secs,
        requests,
        subject: Subject::Chassis,
    };
    assert(chassis@ == chassis_task(*config));
    let mut requests: Vec<Request> = Vec::new();
    requests.push(
        make_mmi_request(
            config.cards_mmi_version.as_str(),
            "cards",
            "GetChassisInfo",
            Json::empty(),
        ),
    );
    requests.push(
        make_mmi_request(
            config.cards_mmi_version.as_str(),
            "cards",
            "GetCardStates",
            Json::empty(),
        ),
    );
    let cards = PollTask {
        name: "cards".to_owned(),
        interval_secs: config.cards_interval_secs,
        requests,
        subject: Subject::Cards,
    };
    assert(cards@ == cards_task(*config));
    out.push(alarms);
    out.push(chassis);
    out.push(cards);
    let ghost first = seq![alarms_task(*config), chassis_task(*config), cards_task(*config)];
    assert(tasks_view(out@) == first);
    let entries = slots::entries_of(&caps.slots);
    let n: usize = entries.len();
    for i in 0..n
        invariant
            n == entries@.len(),
            slots::lists(entries@, caps.slots@),
            intervals_fit(*config, caps@),
            tasks_view(out@) == slots::fold_slots(
                caps@.slots,
                slots::bound(entries@, i as int),
                first,
                add_tasks(*config),
            ),
    {
        proof {
            slots::lemma_fold_step_views(
                entries@,
                caps.slots@,
                i as int,
                first,
                add_tasks(*config),
            );
            assert(caps.slots@.contains_key(entries@[i as int].0));
            assert(caps@.slots.contains_key(entries@[i as int].0));
        }
        push_slot_tasks(&mut out, config, entries[i].0, entries[i].1);
    }
    proof {
        slots::lemma_fold_end_views(entries@, caps.slots@, first, add_tasks(*config));
    }
    out
}

/// The member `data` of a result; an empty array where there is none.
pub open spec fn data_in(result: JsonView) -> JsonView {
    json::value_or(result.get("data"@), json::no_items())
}

fn data_of(result: &Json) -> (r: Json)
    ensures
        r@ == data_in(result@),
{
    json::copy_or(result.get("data"), Json::nothing())
}

/// The state with the result of a poll of a card. Lists are taken out of the member `data`.
pub open spec fn applied(s: StateView, sink: Sink, slot: u32, result: JsonView) -> StateView {
    let data = data_in(result);
    match sink {
        Sink::Inputs => StateView { inputs: s.inputs.insert(slot, data.items_or_none()), ..s },
        Sink::Outputs => StateView { outputs: s.outputs.insert(slot, data.items_or_none()), ..s },
        Sink::IpInterfaces => StateView { ip_interfaces: s.ip_interfaces.insert(slot, data.items_or_none()), ..s },
        Sink::CoderServices => StateView { coder_services: s.coder_services.insert(slot, data.items_or_none()), ..s },
        Sink::MultiServices => StateView { multi_services: s.multi_services.insert(slot, data.items_or_none()), ..s },
        Sink::AudioProfiles => StateView { audio_profiles: s.audio_profiles.insert(slot, data.items_or_none()), ..s },
        Sink::XgerIpInterfaces => StateView { xger_ip_interfaces: s.xger_ip_interfaces.insert(slot, data.items_or_none()), ..s },
        Sink::CardAllocations => StateView { card_allocations: s.card_allocations.insert(slot, data.items_or_none()), ..s },
        Sink::IpConnections => StateView { ip_connections: s.ip_connections.insert(slot, data.items_or_none()), ..s },
        Sink::RedundancyGroups => StateView { redundancy_groups: s.redundancy_groups.insert(slot, data.items_or_none()), ..s },
        Sink::OutputServices => StateView { output_services: s.output_services.insert(slot, state::unpacked(data).items_or_none()), ..s },
        Sink::CardStatus => StateView { card_status: s.card_status.insert(slot, result), ..s },
        Sink::RedundancyGroupStatus => StateView { redundancy_group_status: s.redundancy_group_status.insert(slot, result), ..s },
        Sink::HipEncoders => StateView { hip_encoders: s.hip_encoders.insert(slot, result), ..s },
        Sink::HipDecoders => StateView { hip_decoders: s.hip_decoders.insert(slot, result), ..s },
        Sink::DpiStatus => StateView { dpi_status: s.dpi_status.insert(slot, result), ..s },
        Sink::EsamStatus => StateView { esam_status: s.esam_status.insert(slot, result), ..s },
        Sink::PoisServerStatus => StateView { pois_server_status: s.pois_server_status.insert(slot, result), ..s },
        Sink::PoolConfig => StateView { pool_config: s.pool_config.insert(slot, result), ..s },
        Sink::LockStatus => StateView { lock_status: s.lock_status.insert(slot, result), ..s },
        Sink::PsiStatus => StateView { psi_status: s.psi_status.insert(slot, result), ..s },
    }
}

/// Keeps the result of a poll of a card.
pub fn apply_poll(state: &mut SharedAppearXState, sink: Sink, slot: u32, result: Json)
    ensures
        final(state).valid() == old(state).valid(),
        final(state)@ == (SharedView {
            state: applied(old(state)@.state, sink, slot, result@),
            ..old(state)@
        }),
{
    match sink {
        Sink::Inputs => state.set_slot_inputs(slot, data_of(&result)),
        Sink::Outputs => state.set_slot_outputs(slot, data_of(&result)),
        Sink::IpInterfaces => state.set_slot_ip_interfaces(slot, data_of(&result)),
        Sink::CoderServices => state.set_coder_services(slot, data_of(&result)),
        Sink::MultiServices => state.set_multi_services(slot, data_of(&result)),
        Sink::AudioProfiles => state.set_audio_profiles(slot, data_of(&result)),
        Sink::XgerIpInterfaces => state.set_xger_ip_interfaces(slot, data_of(&result)),
        Sink::CardAllocations => state.set_card_allocations(slot, data_of(&result)),
        Sink::IpConnections => state.set_ip_connections(slot, data_of(&result)),
        Sink::RedundancyGroups => state.set_redundancy_groups(slot, data_of(&result)),
        Sink::OutputServices => state.set_output_services(slot, data_of(&result)),
        Sink::CardStatus => {
            let _ = state.set_card_status(slot, result);
        },
        Sink::RedundancyGroupStatus => state.set_redundancy_group_status(slot, result),
        Sink::HipEncoders => state.set_hip_encoders(slot, result),
        Sink::HipDecoders => state.set_hip_decoders(slot, result),
        Sink::DpiStatus => state.set_dpi_status(slot, result),
        Sink::EsamStatus => state.set_esam_status(slot, result),
        Sink::PoisServerStatus => state.set_pois_server_status(slot, result),
        Sink::PoolConfig => state.set_pool_config(slot, result),
        Sink::LockStatus => state.set_lock_status(slot, result),
        Sink::PsiStatus => state.set_psi_status(slot, result),
    }
}

/// Keeps the model of the chassis.
pub fn apply_chassis(state: &mut SharedAppearXState, result: Json)
    ensures
        final(state).valid() == old(state).valid(),
        final(state)@ == (SharedView {
            state: StateView { chassis: Some(result@), ..old(state)@.state },
            ..old(state)@
        }),
{
    state.set_chassis(result);
}

/// Keeps the chassis information and the states of the cards.
pub fn apply_cards(state: &mut SharedAppearXState, info: &Json, states: &Json)
    ensures
        final(state).valid() == old(state).valid(),
        final(state)@ == (SharedView {
            state: StateView {
                chassis_info: Some(json::value_or(info@.get("data"@), json::no_members())),
                card_states: json::value_or(
                    states@.get("cards"@),
                    json::no_items(),
                ).items_or_none(),
                ..old(state)@.state
            },
            ..old(state)@
        }),
{
    state.set_cards(
        json::copy_or(info.get("data"), Json::empty()),
        json::copy_or(states.get("cards"), Json::nothing()),
    );
}

/// Whether a state of the clock is the one that counts as locked.
pub open spec fn locked(state: Option<Seq<char>>) -> bool {
    state == Some("LOCKED"@)
}

/// The number that a slot has in an event.
pub open spec fn slot_member(slot: u32) -> Map<Seq<char>, JsonView> {
    Map::empty().insert("slot"@, JsonView::of_unsigned(slot as nat))
}

fn make_slot_member(slot: u32) -> (r: Object)
    ensures
        r@ == slot_member(slot),
{
    let mut o = Object::new();
    o.set("slot", Json::from_u64(slot as u64));
    o
}

/// The event for a clock that is not locked any more.
pub open spec fn ptp_lost(slot: u32, state: Option<Seq<char>>) -> EventView {
    event::event(
        EventSeverity::Critical,
        "ptp"@,
        "PTP lock lost on slot "@ + text::decimal(slot as nat) + " (state="@ + json::text_or(
            state,
            "unknown"@,
        ) + ")"@,
        Some(
            JsonView::Object(
                slot_member(slot).insert("state"@, JsonView::of_text(state)).insert(
                    "error_code"@,
                    JsonView::Text("ptp_lost"@),
                ),
            ),
        ),
    )
}

/// The event for a clock that is locked again.
pub open spec fn ptp_locked(slot: u32) -> EventView {
    event::event(
        EventSeverity::Info,
        "ptp"@,
        "PTP locked on slot "@ + text::decimal(slot as nat),
        Some(
            JsonView::Object(
                slot_member(slot).insert("state"@, JsonView::Text("LOCKED"@)).insert(
                    "error_code"@,
                    JsonView::Text("ptp_locked"@),
                ),
            ),
        ),
    )
}

/// What the clock of a card gives rise to.
pub open spec fn ptp_events(slot: u32, prev: Option<JsonView>, curr: JsonView) -> Seq<EventView> {
    match prev {
        Some(p) => {
            let was = locked(health::ptp_state(p));
            let now = locked(health::ptp_state(curr));
            if was && !now {
                seq![ptp_lost(slot, health::ptp_state(curr))]
            } else if !was && now {
                seq![ptp_locked(slot)]
            } else {
                Seq::empty()
            }
        },
        None => Seq::empty(),
    }
}

/// An event whose message holds measurements.
pub open spec fn measured_event(
    severity: EventSeverity,
    message: Seq<PartView>,
    details: Map<Seq<char>, JsonView>,
) -> EventView {
    EventView {
        severity,
        category: "sfp"@,
        message,
        error_code: None,
        details: Some(JsonView::Object(details)),
    }
}

/// The event for a card that receives too little light.
pub open spec fn low_light(slot: u32, least: Double, threshold: Double) -> EventView {
    measured_event(
        EventSeverity::Minor,
        seq![
            PartView::Text(
                "SFP RX optical power on slot "@ + text::decimal(slot as nat) + " is below "@,
            ),
            PartView::Fixed { value: threshold, decimals: 1 },
            PartView::Text(" dBm (current min "@),
            PartView::Fixed { value: least, decimals: 1 },
            PartView::Text(" dBm)"@),
        ],
        slot_member(slot).insert("rx_power_dbm_min"@, JsonView::of_double(least)).insert(
            "threshold_dbm"@,
            JsonView::of_double(threshold),
        ).insert("error_code"@, JsonView::Text("sfp_low_rx_power"@)),
    )
}

/// The event for a card that receives enough light again.
pub open spec fn light_again(slot: u32, least: Double) -> EventView {
    measured_event(
        EventSeverity::Info,
        seq![
            PartView::Text(
                "SFP RX optical power recovered on slot "@ + text::decimal(slot as nat)
                    + " (current min "@,
            ),
            PartView::Fixed { value: least, decimals: 1 },
            PartView::Text(" dBm)"@),
        ],
        slot_member(slot).insert("rx_power_dbm_min"@, JsonView::of_double(least)),
    )
}

/// The event for a card that is too warm.
pub open spec fn too_warm(slot: u32, highest: Double, threshold: Double) -> EventView {
    measured_event(
        EventSeverity::Minor,
        seq![
            PartView::Text(
                "SFP cage temperature on slot "@ + text::decimal(slot as nat) + " exceeded "@,
            ),
            PartView::Fixed { value: threshold, decimals: 0 },
            PartView::Text(" °C (current max "@),
            PartView::Fixed { value: highest, decimals: 1 },
            PartView::Text(" °C)"@),
        ],
        slot_member(slot).insert("temp_c_max"@, JsonView::of_double(highest)).insert(
            "threshold_c"@,
            JsonView::of_double(threshold),
        ).insert("error_code"@, JsonView::Text("sfp_high_temperature"@)),
    )
}

/// The event for a card that is no longer too warm.
pub open spec fn cool_again(slot: u32, highest: Double) -> EventView {
    measured_event(
        EventSeverity::Info,
        seq![
            PartView::Text(
                "SFP cage temperature recovered on slot "@ + text::decimal(slot as nat)
                    + " (current max "@,
            ),
            PartView::Fixed { value: highest, decimals: 1 },
            PartView::Text(" °C)"@),
        ],
        slot_member(slot).insert("temp_c_max"@, JsonView::of_double(highest)),
    )
}

/// The least light in a state that may be absent.
pub open spec fn light_of(status: Option<JsonView>) -> Option<Double> {
    match status {
        Some(s) => health::worst_light(health::port_entries(s)),
        None => None,
    }
}

/// The highest temperature in a state that may be absent.
pub open spec fn heat_of(status: Option<JsonView>) -> Option<Double> {
    match status {
        Some(s) => health::worst_heat(health::port_entries(s)),
        None => None,
    }
}

/// What the light that a card receives gives rise to.
pub open spec fn light_events(
    slot: u32,
    prev: Option<JsonView>,
    curr: JsonView,
    threshold: Double,
) -> Seq<EventView> {
    match light_of(Some(curr)) {
        Some(least) => {
            let was = light_of(prev) is Some && light_of(prev)->0.below(threshold);
            let now = least.below(threshold);
            if now && !was {
                seq![low_light(slot, least, threshold)]
            } else if !now && was {
                seq![light_again(slot, least)]
            } else {
                Seq::empty()
            }
        },
        None => Seq::empty(),
    }
}

/// What the temperature of a card gives rise to.
pub open spec fn heat_events(
    slot: u32,
    prev: Option<JsonView>,
    curr: JsonView,
    threshold: Double,
) -> Seq<EventView> {
    match heat_of(Some(curr)) {
        Some(highest) => {
            let was = heat_of(prev) is Some && threshold.below(heat_of(prev)->0);
            let now = threshold.below(highest);
            if now && !was {
                seq![too_warm(slot, highest, threshold)]
            } else if !now && was {
                seq![cool_again(slot, highest)]
            } else {
                Seq::empty()
            }
        },
        None => Seq::empty(),
    }
}

/// What a change of a card's state gives rise to.
pub open spec fn card_events(
    slot: u32,
    prev: Option<JsonView>,
    curr: JsonView,
    rx_thresh: Double,
    temp_thresh: Double,
) -> Seq<EventView> {
    ptp_events(slot, prev, curr) + light_events(slot, prev, curr, rx_thresh) + heat_events(
        slot,
        prev,
        curr,
        temp_thresh,
    )
}

fn slot_text(before: &str, slot: u32, after: &str) -> (r: String)
    ensures
        r@ == before@ + text::decimal(slot as nat) + after@,
{
    let mut out = before.to_owned();
    out.append(text::decimal_of(slot as u64).as_str());
    out.append(after);
    out
}

fn is_locked(state: &Option<String>) -> (r: bool)
    ensures
        r == locked(json::string_view(*state)),
{
    match state {
        Some(s) => text::str_eq(s.as_str(), "LOCKED"),
        None => false,
    }
}

fn make_ptp_lost(slot: u32, state: Option<String>) -> (r: GatewayEvent)
    ensures
        r@ == ptp_lost(slot, json::string_view(state)),
{
    let mut message = slot_text("PTP lock lost on slot ", slot, " (state=");
    match &state {
        Some(s) => {
            message.append(s.as_str());
        },
        None => {
            message.append("unknown");
        },
    }
    message.append(")");
    let mut details = make_slot_member(slot);
    details.set("state", Json::from_option(state.as_ref()));
    details.set("error_code", Json::from_text("ptp_lost"));
    GatewayEvent::new(EventSeverity::Critical, "ptp", message).with_details(Json::Object(details))
}

fn make_ptp_locked(slot: u32) -> (r: GatewayEvent)
    ensures
        r@ == ptp_locked(slot),
{
    let message = slot_text("PTP locked on slot ", slot, "");
    proof {
        reveal_strlit("");
        assert(message@ == "PTP locked on slot "@ + text::decimal(slot as nat));
    }
    let mut details = make_slot_member(slot);
    details.set("state", Json::from_text("LOCKED"));
    details.set("error_code", Json::from_text("ptp_locked"));
    GatewayEvent::info("ptp", message).with_details(Json::Object(details))
}

fn make_low_light(slot: u32, least: Double, threshold: Double) -> (r: GatewayEvent)
    ensures
        r@ == low_light(slot, least, threshold),
{
    let mut parts: Vec<Part> = Vec::new();
    parts.push(Part::Text(slot_text("SFP RX optical power on slot ", slot, " is below ")));
    parts.push(Part::Fixed { value: threshold, decimals: 1 });
    parts.push(Part::Text(" dBm (current min ".to_owned()));
    parts.push(Part::Fixed { value: least, decimals: 1 });
    parts.push(Part::Text(" dBm)".to_owned()));
    let mut details = make_slot_member(slot);
    details.set("rx_power_dbm_min", Json::from_double(least));
    details.set("threshold_dbm", Json::from_double(threshold));
    details.set("error_code", Json::from_text("sfp_low_rx_power"));
    let e = GatewayEvent::measured(EventSeverity::Minor, "sfp", parts).with_details(
        Json::Object(details),
    );
    assert(e@.message == low_light(slot, least, threshold).message);
    e
}

fn make_light_again(slot: u32, least: Double) -> (r: GatewayEvent)
    ensures
        r@ == light_again(slot, least),
{
    let mut parts: Vec<Part> = Vec::new();
    parts.push(
        Part::Text(slot_text("SFP RX optical power recovered on slot ", slot, " (current min ")),
    );
    parts.push(Part::Fixed { value: least, decimals: 1 });
    parts.push(Part::Text(" dBm)".to_owned()));
    let mut details = make_slot_member(slot);
    details.set("rx_power_dbm_min", Json::from_double(least));
    let e = GatewayEvent::measured(EventSeverity::Info, "sfp", parts).with_details(
        Json::Object(details),
    );
    assert(e@.message == light_again(slot, least).message);
    e
}

fn make_too_warm(slot: u32, highest: Double, threshold: Double) -> (r: GatewayEvent)
    ensures
        r@ == too_warm(slot, highest, threshold),
{
    let mut parts: Vec<Part> = Vec::new();
    parts.push(Part::Text(slot_text("SFP cage temperature on slot ", slot, " exceeded ")));
    parts.push(Part::Fixed { value: threshold, decimals: 0 });
    parts.push(Part::Text(" °C (current max ".to_owned()));
    parts.push(Part::Fixed { value: highest, decimals: 1 });
    parts.push(Part::Text(" °C)".to_owned()));
    let mut details = make_slot_member(slot);
    details.set("temp_c_max", Json::from_double(highest));
    details.set("threshold_c", Json::from_double(threshold));
    details.set("error_code", Json::from_text("sfp_high_temperature"));
    let e = GatewayEvent::measured(EventSeverity::Minor, "sfp", parts).with_details(
        Json::Object(details),
    );
    assert(e@.message == too_warm(slot, highest, threshold).message);
    e
}

fn make_cool_again(slot: u32, highest: Double) -> (r: GatewayEvent)
    ensures
        r@ == cool_again(slot, highest),
{
    let mut parts: Vec<Part> = Vec::new();
    parts.push(
        Part::Text(slot_text("SFP cage temperature recovered on slot ", slot, " (current max ")),
    );
    parts.push(Part::Fixed { value: highest, decimals: 1 });
    parts.push(Part::Text(" °C)".to_owned()));
    let mut details = make_slot_member(slot);
    details.set("temp_c_max", Json::from_double(highest));
    let e = GatewayEvent::measured(EventSeverity::Info, "sfp", parts).with_details(
        Json::Object(details),
    );
    assert(e@.message == cool_again(slot, highest).message);
    e
}

/// What a change of a card's state gives rise to, given the state before, if any.
pub fn derive_card_status_events(
    slot: u32,
    prev: Option<&Json>,
    curr: &Json,
    rx_thresh: Double,
    temp_thresh: Double,
) -> (r: Vec<GatewayEvent>)
    ensures
        event::events_view(r@) == card_events(
            slot,
            json::option_view(prev),
            curr@,
            rx_thresh,
            temp_thresh,
        ),
{
    let mut out: Vec<GatewayEvent> = Vec::new();
    let ghost pv = json::option_view(prev);
    assert(event::events_view(out@) == Seq::<EventView>::empty());
    let curr_ptp = health::ptp_state_of(curr);
    let (was_locked, prev_rx, prev_temp) = match prev {
        Some(p) => (
            is_locked(&health::ptp_state_of(p)),
            health::min_rx_dbm(p),
            health::max_temp(p),
        ),
        None => (false, None, None),
    };
    let now_locked = is_locked(&curr_ptp);
    if prev.is_some() && was_locked && !now_locked {
        out.push(make_ptp_lost(slot, curr_ptp));
    } else if prev.is_some() && !was_locked && now_locked {
        out.push(make_ptp_locked(slot));
    }
    assert(event::events_view(out@) == ptp_events(slot, pv, curr@));
    let ghost so_far = event::events_view(out@);
    if let Some(least) = health::min_rx_dbm(curr) {
        let was = match prev_rx {
            Some(p) => p.is_below(&rx_thresh),
            None => false,
        };
        let now = least.is_below(&rx_thresh);
        if now && !was {
            out.push(make_low_light(slot, least, rx_thresh));
        } else if !now && was {
            out.push(make_light_again(slot, least));
        }
    }
    assert(event::events_view(out@) == so_far + light_events(slot, pv, curr@, rx_thresh));
    let ghost so_far = event::events_view(out@);
    if let Some(highest) = health::max_temp(curr) {
        let was = match prev_temp {
            Some(p) => temp_thresh.is_below(&p),
            None => false,
        };
        let now = temp_thresh.is_below(&highest);
        if now && !was {
            out.push(make_too_warm(slot, highest, temp_thresh));
        } else if !now && was {
            out.push(make_cool_again(slot, highest));
        }
    }
    assert(event::events_view(out@) == so_far + heat_events(slot, pv, curr@, temp_thresh));
    out
}

/// Keeps the state of a card and says what its change gives rise to.
pub fn card_status_polled(
    state: &mut SharedAppearXState,
    slot: u32,
    result: Json,
    rx_thresh: Double,
    temp_thresh: Double,
) -> (r: Vec<GatewayEvent>)
    ensures
        final(state).valid() == old(state).valid(),
        final(state)@ == (SharedView {
            state: applied(old(state)@.state, Sink::CardStatus, slot, result@),
            ..old(state)@
        }),
        event::events_view(r@) == card_events(
            slot,
            if old(state)@.state.card_status.contains_key(slot) {
                Some(old(state)@.state.card_status[slot])
            } else {
                None
            },
            result@,
            rx_thresh,
            temp_thresh,
        ),
{
    let kept = result.copy();
    let prior = state.set_card_status(slot, kept);
    derive_card_status_events(slot, prior.as_ref(), &result, rx_thresh, temp_thresh)
}

/// The severity of an alarm, where it has one.
pub open spec fn severity_of(alarm: JsonView) -> Option<Seq<char>> {
    json::text_of(alarm.get("severity"@))
}

/// Whether an alarm is grave.
pub open spec fn grave(alarm: JsonView) -> bool {
    severity_of(alarm) == Some("MAJOR"@) || severity_of(alarm) == Some("CRITICAL"@)
}

/// Whether an alarm is light.
pub open spec fn light(alarm: JsonView) -> bool {
    severity_of(alarm) == Some("MINOR"@) || severity_of(alarm) == Some("WARNING"@)
}

/// What alarms say of the unit.
pub open spec fn status_of(alarms: Seq<JsonView>) -> Seq<char> {
    if exists|i: int| 0 <= i < alarms.len() && grave(#[trigger] alarms[i]) {
        "critical"@
    } else if exists|i: int| 0 <= i < alarms.len() && light(#[trigger] alarms[i]) {
        "degraded"@
    } else {
        "ok"@
    }
}

/// What alarms say of the unit.
pub fn derive_status(alarms: &Vec<Json>) -> (r: &'static str)
    ensures
        r@ == status_of(json::items_view(alarms@)),
{
    let ghost all = json::items_view(alarms@);
    let mut has_light = false;
    for i in 0..alarms.len()
        invariant
            all == json::items_view(alarms@),
            forall|k: int| 0 <= k < i ==> !grave(#[trigger] all[k]),
            has_light == exists|k: int| 0 <= k < i && light(#[trigger] all[k]),
    {
        assert(all[i as int] == alarms@[i as int]@);
        match json::str_in(alarms[i].get("severity")) {
            Some(s) => {
                if text::str_eq(s, "MAJOR") || text::str_eq(s, "CRITICAL") {
                    assert(grave(all[i as int]));
                    return "critical";
                }
                if text::str_eq(s, "MINOR") || text::str_eq(s, "WARNING") {
                    assert(light(all[i as int]));
                    has_light = true;
                }
            },
            None => {},
        }
    }
    if has_light {
        "degraded"
    } else {
        "ok"
    }
}

/// How grave the event for an alarm is.
pub open spec fn event_severity(severity: Seq<char>) -> EventSeverity {
    if severity == "CRITICAL"@ || severity == "MAJOR"@ {
        EventSeverity::Critical
    } else if severity == "MINOR"@ || severity == "WARNING"@ {
        EventSeverity::Minor
    } else {
        EventSeverity::Info
    }
}

/// A text of an alarm, or the given one.
pub open spec fn alarm_text(alarm: JsonView, key: Seq<char>, otherwise: Seq<char>) -> Seq<char> {
    json::text_or(json::text_of(alarm.get(key)), otherwise)
}

/// The members with a text, unless it is empty.
pub open spec fn put_text(m: Map<Seq<char>, JsonView>, key: Seq<char>, s: Seq<char>) -> Map<
    Seq<char>,
    JsonView,
> {
    if s.len() == 0 {
        m
    } else {
        m.insert(key, JsonView::Text(s))
    }
}

/// The event for an alarm that was raised.
pub open spec fn alarm_event(alarm: JsonView) -> EventView {
    let severity = alarm_text(alarm, "severity"@, "UNKNOWN"@);
    let name = alarm_text(alarm, "alarmName"@, ""@);
    let description = alarm_text(alarm, "alarmDescription"@, ""@);
    let m = Map::empty().insert(
        "alarm_id"@,
        JsonView::Text(alarm_text(alarm, "alarmId"@, "unknown"@)),
    ).insert("severity"@, JsonView::Text(severity));
    let m = match alarm.get("configObjectSlot"@) {
        Some(n) => match n.unsigned() {
            Some(slot) => m.insert("slot"@, JsonView::of_unsigned(slot as nat)),
            None => m,
        },
        None => m,
    };
    let m = put_text(m, "object_label"@, alarm_text(alarm, "configObjectLabel"@, ""@));
    let m = put_text(m, "object_type"@, alarm_text(alarm, "configObjectType"@, ""@));
    let m = put_text(m, "object_id"@, alarm_text(alarm, "configObjectId"@, ""@));
    event::event(
        event_severity(severity),
        "alarm"@,
        if name.len() == 0 {
            "Alarm raised: "@ + description
        } else {
            "Alarm raised: "@ + name + " — "@ + description
        },
        Some(JsonView::Object(m)),
    )
}

fn find_event_severity(severity: &str) -> (r: EventSeverity)
    ensures
        r == event_severity(severity@),
{
    if text::str_eq(severity, "CRITICAL") || text::str_eq(severity, "MAJOR") {
        EventSeverity::Critical
    } else if text::str_eq(severity, "MINOR") || text::str_eq(severity, "WARNING") {
        EventSeverity::Minor
    } else {
        EventSeverity::Info
    }
}

fn set_text(o: &mut Object, key: &str, s: &str)
    ensures
        final(o)@ == put_text(old(o)@, key@, s@),
{
    if !s.is_empty() {
        o.set(key, Json::from_text(s));
    }
}

/// The event for an alarm that was raised.
pub fn make_alarm_event(alarm: &Json) -> (r: GatewayEvent)
    ensures
        r@ == alarm_event(alarm@),
{
    let severity = json::string_or(alarm.get("severity"), "UNKNOWN");
    let name = json::string_or(alarm.get("alarmName"), "");
    let description = json::string_or(alarm.get("alarmDescription"), "");
    let mut details = Object::new();
    details.set("alarm_id", Json::Text(json::string_or(alarm.get("alarmId"), "unknown")));
    details.set("severity", Json::from_text(severity.as_str()));
    match alarm.get("configObjectSlot") {
        Some(n) => match n.as_u64() {
            Some(slot) => {
                details.set("slot", Json::from_u64(slot));
            },
            None => {},
        },
        None => {},
    }
    set_text(
        &mut details,
        "object_label",
        json::string_or(alarm.get("configObjectLabel"), "").as_str(),
    );
    set_text(
        &mut details,
        "object_type",
        json::string_or(alarm.get("configObjectType"), "").as_str(),
    );
    set_text(
        &mut details,
        "object_id",
        json::string_or(alarm.get("configObjectId"), "").as_str(),
    );
    let mut message = "Alarm raised: ".to_owned();
    if !name.as_str().is_empty() {
        message.append(name.as_str());
        message.append(" — ");
    }
    message.append(description.as_str());
    GatewayEvent::new(find_event_severity(severity.as_str()), "alarm", message).with_details(
        Json::Object(details),
    )
}

/// The event for an alarm that is gone.
pub open spec fn cleared_event(id: Seq<char>) -> EventView {
    event::event(
        EventSeverity::Info,
        "alarm"@,
        "Alarm cleared: "@ + id,
        Some(JsonView::Object(Map::empty().insert("alarm_id"@, JsonView::Text(id)))),
    )
}

fn make_cleared_event(id: &str) -> (r: GatewayEvent)
    ensures
        r@ == cleared_event(id@),
{
    let mut message = "Alarm cleared: ".to_owned();
    message.append(id);
    let mut details = Object::new();
    details.set("alarm_id", Json::from_text(id));
    GatewayEvent::info("alarm", message).with_details(Json::Object(details))
}

/// The events for a change of reachability.
pub open spec fn transition_events(o: OutcomeView, address: Seq<char>) -> Seq<EventView> {
    match o {
        OutcomeView::NoChange => Seq::empty(),
        OutcomeView::BecameUnreachable { consecutive_failures, last_error_code } => seq![
            event::event(
                EventSeverity::Critical,
                "target_reachability"@,
                "Target Appear X at "@ + address + " unreachable"@,
                Some(
                    JsonView::Object(
                        health::put(
                            Map::empty().insert(
                                "error_code"@,
                                JsonView::Text("target_unreachable"@),
                            ).insert(
                                "consecutive_failures"@,
                                JsonView::of_unsigned(consecutive_failures as nat),
                            ).insert("target_address"@, JsonView::Text(address)),
                            "last_error_code"@,
                            match last_error_code {
                                Some(code) => Some(JsonView::Text(code)),
                                None => None,
                            },
                        ),
                    ),
                ),
            ),
        ],
        OutcomeView::Recovered { downtime_secs } => seq![
            event::event(
                EventSeverity::Info,
                "target_reachability"@,
                "Target Appear X at "@ + address + " reachable again (downtime "@ + signed(
                    downtime_secs,
                ) + " s)"@,
                Some(
                    JsonView::Object(
                        Map::empty().insert(
                            "error_code"@,
                            JsonView::Text("target_recovered"@),
                        ).insert("downtime_secs"@, JsonView::of_signed(downtime_secs)).insert(
                            "target_address"@,
                            JsonView::Text(address),
                        ),
                    ),
                ),
            ),
        ],
    }
}

/// A signed number in decimal notation.
pub open spec fn signed(i: i64) -> Seq<char> {
    if i < 0 {
        "-"@ + text::decimal((-i) as nat)
    } else {
        text::decimal(i as nat)
    }
}

fn signed_of(i: i64) -> (r: String)
    ensures
        r@ == signed(i),
{
    if i < 0 {
        let mut out = "-".to_owned();
        out.append(text::wide_decimal_of((0 - i as i128) as u128).as_str());
        out
    } else {
        text::decimal_of(i as u64)
    }
}

fn push_transition(out: &mut Vec<GatewayEvent>, o: TransitionOutcome, address: &str)
    ensures
        event::events_view(final(out)@) == event::events_view(old(out)@) + transition_events(
            o@,
            address@,
        ),
{
    let ghost before = event::events_view(out@);
    match o {
        TransitionOutcome::NoChange => {},
        TransitionOutcome::BecameUnreachable { consecutive_failures, last_error_code } => {
            let mut details = Object::new();
            details.set("error_code", Json::from_text("target_unreachable"));
            details.set("consecutive_failures", Json::from_u64(consecutive_failures as u64));
            details.set("target_address", Json::from_text(address));
            match last_error_code {
                Some(code) => {
                    details.set("last_error_code", Json::Text(code));
                },
                None => {},
            }
            let mut message = "Target Appear X at ".to_owned();
            message.append(address);
            message.append(" unreachable");
            out.push(
                GatewayEvent::new(
                    EventSeverity::Critical,
                    "target_reachability",
                    message,
                ).with_details(Json::Object(details)),
            );
        },
        TransitionOutcome::Recovered { downtime_secs } => {
            let mut details = Object::new();
            details.set("error_code", Json::from_text("target_recovered"));
            details.set("downtime_secs", Json::from_i64(downtime_secs));
            details.set("target_address", Json::from_text(address));
            let mut message = "Target Appear X at ".to_owned();
            message.append(address);
            message.append(" reachable again (downtime ");
            message.append(signed_of(downtime_secs).as_str());
            message.append(" s)");
            out.push(
                GatewayEvent::info("target_reachability", message).with_details(
                    Json::Object(details),
                ),
            );
        },
    }
    assert(event::events_view(out@) == before + transition_events(o@, address@));
}

/// What the manager is told of the unit with every heartbeat.
#[derive(Debug)]
pub struct GatewayTargetHealth {
    pub reachable: bool,
    pub target_address: String,
    pub gateway_host: Option<String>,
    pub gateway_egress_ip: Option<String>,
    pub last_successful_poll_unix: Option<i64>,
    pub last_error_code: Option<String>,
    pub consecutive_failures: Option<u32>,
}

/// What a [`GatewayTargetHealth`] holds.
#[verifier::ext_equal]
pub struct TargetView {
    pub reachable: bool,
    pub target_address: Seq<char>,
    pub gateway_host: Option<Seq<char>>,
    pub gateway_egress_ip: Option<Seq<char>>,
    pub last_successful_poll_unix: Option<i64>,
    pub last_error_code: Option<Seq<char>>,
    pub consecutive_failures: Option<u32>,
}

impl View for GatewayTargetHealth {
    type V = TargetView;

    open spec fn view(&self) -> TargetView {
        TargetView {
            reachable: self.reachable,
            target_address: self.target_address@,
            gateway_host: json::string_view(self.gateway_host),
            gateway_egress_ip: json::string_view(self.gateway_egress_ip),
            last_successful_poll_unix: self.last_successful_poll_unix,
            last_error_code: json::string_view(self.last_error_code),
            consecutive_failures: self.consecutive_failures,
        }
    }
}

/// What the manager is told of the unit, given what is known of its reachability.
pub open spec fn target_health(
    s: ReachView,
    address: Seq<char>,
    host: Option<Seq<char>>,
    egress_ip: Option<Seq<char>>,
) -> TargetView {
    TargetView {
        reachable: s.reachable,
        target_address: address,
        gateway_host: host,
        gateway_egress_ip: egress_ip,
        last_successful_poll_unix: if s.last_success_unix == 0 {
            None
        } else {
            Some(s.last_success_unix)
        },
        last_error_code: s.last_error_code,
        consecutive_failures: Some(s.consecutive_failures),
    }
}

/// A heartbeat.
pub open spec fn health_payload(
    status: Seq<char>,
    alarms: JsonView,
    version: Seq<char>,
    capabilities: Seq<Seq<char>>,
) -> JsonView {
    JsonView::Object(
        Map::empty().insert("status"@, JsonView::Text(status)).insert("alarms"@, alarms).insert(
            "version"@,
            JsonView::Text(version),
        ).insert("capabilities"@, state::texts_json(capabilities)),
    )
}

/// A heartbeat.
pub fn make_health_payload(status: &str, alarms: Json, version: &str, capabilities: &Vec<String>) -> (r:
    Json)
    ensures
        r@ == health_payload(status@, alarms@, version@, json::strings_view(capabilities@)),
{
    let mut o = Object::new();
    o.set("status", Json::from_text(status));
    o.set("alarms", alarms);
    o.set("version", Json::from_text(version));
    o.set("capabilities", state::make_texts_json(capabilities));
    Json::Object(o)
}

/// What the manager is told of the unit, as a part of the heartbeat. What is not known is left out.
pub open spec fn target_json(t: TargetView) -> JsonView {
    let m = Map::empty().insert("reachable"@, JsonView::Bool(t.reachable)).insert(
        "target_address"@,
        JsonView::Text(t.target_address),
    );
    let m = put_known(m, "gateway_host"@, t.gateway_host);
    let m = put_known(m, "gateway_egress_ip"@, t.gateway_egress_ip);
    let m = match t.last_successful_poll_unix {
        Some(i) => m.insert("last_successful_poll_unix"@, JsonView::of_signed(i)),
        None => m,
    };
    let m = put_known(m, "last_error_code"@, t.last_error_code);
    JsonView::Object(
        match t.consecutive_failures {
            Some(n) => m.insert("consecutive_failures"@, JsonView::of_unsigned(n as nat)),
            None => m,
        },
    )
}

/// The members with a text, where it is known.
pub open spec fn put_known(m: Map<Seq<char>, JsonView>, key: Seq<char>, s: Option<Seq<char>>) -> Map<
    Seq<char>,
    JsonView,
> {
    match s {
        Some(t) => m.insert(key, JsonView::Text(t)),
        None => m,
    }
}

fn set_known(o: &mut Object, key: &str, s: &Option<String>)
    ensures
        final(o)@ == put_known(old(o)@, key@, json::string_view(*s)),
{
    match s {
        Some(t) => {
            o.set(key, Json::from_text(t.as_str()));
        },
        None => {},
    }
}

/// A heartbeat with what is known of the unit under `gateway_target`.
pub fn health_with_target(health: Json, target: &GatewayTargetHealth) -> (r: Json)
    ensures
        r@ == match health@ {
            JsonView::Object(m) => JsonView::Object(
                m.insert("gateway_target"@, target_json(target@)),
            ),
            _ => health@,
        },
{
    match health {
        Json::Object(o) => {
            let mut out = o;
            let mut t = Object::new();
            t.set("reachable", Json::Bool(target.reachable));
            t.set("target_address", Json::from_text(target.target_address.as_str()));
            set_known(&mut t, "gateway_host", &target.gateway_host);
            set_known(&mut t, "gateway_egress_ip", &target.gateway_egress_ip);
            if let Some(i) = target.last_successful_poll_unix {
                t.set("last_successful_poll_unix", Json::from_i64(i));
            }
            set_known(&mut t, "last_error_code", &target.last_error_code);
            if let Some(n) = target.consecutive_failures {
                t.set("consecutive_failures", Json::from_u64(n as u64));
            }
            out.set("gateway_target", Json::Object(t));
            Json::Object(out)
        },
        other => other,
    }
}

/// What a poll for alarms leads to.
#[derive(Debug)]
pub struct AlarmsReport {
    /// The events to send, in this order.
    pub events: Vec<GatewayEvent>,
    /// The heartbeat to send.
    pub health: Json,
    /// What the heartbeat tells of the unit.
    pub target: GatewayTargetHealth,
}

/// The events for the alarms that were raised and those that are gone.
pub open spec fn alarm_events(raised: Seq<JsonView>, gone: Seq<Seq<char>>) -> Seq<EventView> {
    raised.map_values(|a: JsonView| alarm_event(a)) + gone.map_values(
        |id: Seq<char>| cleared_event(id),
    )
}

/// Whether the given identifiers are those that are gone, each once.
pub open spec fn are_gone(gone: Seq<Seq<char>>, before: Set<Seq<char>>, alarms: Seq<JsonView>) -> bool {
    gone.no_duplicates() && gone.to_set() == before.difference(state::alarm_ids(alarms))
}

/// The state after a poll for alarms that was answered.
pub open spec fn state_after_alarms(s: StateView, result: JsonView) -> StateView {
    let alarms = data_in(result).items_or_none();
    StateView {
        alarms,
        prev_alarm_ids: state::alarm_ids(alarms),
        status: status_of(alarms),
        ..s
    }
}

fn push_alarm_events(out: &mut Vec<GatewayEvent>, raised: &Vec<Json>, gone: &Vec<String>)
    requires
        old(out)@.len() == 0,
    ensures
        event::events_view(final(out)@) == alarm_events(
            json::items_view(raised@),
            json::strings_view(gone@),
        ),
{
    let ghost first = json::items_view(raised@).map_values(|a: JsonView| alarm_event(a));
    let ghost second = json::strings_view(gone@).map_values(|id: Seq<char>| cleared_event(id));
    for i in 0..raised.len()
        invariant
            first == json::items_view(raised@).map_values(|a: JsonView| alarm_event(a)),
            out@.len() == i,
            forall|k: int| 0 <= k < i ==> (#[trigger] out@[k])@ == first[k],
    {
        out.push(make_alarm_event(&raised[i]));
    }
    for i in 0..gone.len()
        invariant
            second == json::strings_view(gone@).map_values(|id: Seq<char>| cleared_event(id)),
            out@.len() == first.len() + i,
            forall|k: int|
                0 <= k < first.len() + i ==> (#[trigger] out@[k])@ == (first + second)[k],
    {
        out.push(make_cleared_event(gone[i].as_str()));
    }
    assert(event::events_view(out@) == first + second);
}

fn make_target(
    reach: &ReachabilityState,
    identity: &GatewayIdentity,
    egress_ip: Option<String>,
) -> (r: GatewayTargetHealth)
    ensures
        r@ == target_health(
            reach@,
            identity.target_address@,
            json::string_view(identity.gateway_host),
            json::string_view(egress_ip),
        ),
{
    GatewayTargetHealth {
        reachable: reach.is_reachable(),
        target_address: identity.target_address.clone(),
        gateway_host: match &identity.gateway_host {
            Some(h) => Some(h.clone()),
            None => None,
        },
        gateway_egress_ip: egress_ip,
        last_successful_poll_unix: reach.last_success_unix(),
        last_error_code: reach.last_error_code(),
        consecutive_failures: Some(reach.consecutive_failures()),
    }
}

/// What a poll for alarms that was answered leads to. `now` is when it was.
pub fn alarms_answered(
    state: &mut SharedAppearXState,
    reach: &mut ReachabilityState,
    identity: &GatewayIdentity,
    version: &str,
    egress_ip: Option<String>,
    result: &Json,
    now: i64,
) -> (r: AlarmsReport)
    requires
        old(state).valid(),
        old(reach)@.valid(),
        now >= 0,
    ensures
        final(state).valid(),
        final(reach)@.valid(),
        final(state)@ == (SharedView {
            state: state_after_alarms(old(state)@.state, result@),
            ..old(state)@
        }),
        final(reach)@ == old(reach)@.after_success(now),
        exists|gone: Seq<Seq<char>>|
            are_gone(gone, old(state)@.state.prev_alarm_ids, data_in(result@).items_or_none())
                && event::events_view(r.events@) == #[trigger] alarm_events(
                state::alarms_not_in(
                    data_in(result@).items_or_none(),
                    old(state)@.state.prev_alarm_ids,
                ),
                gone,
            ) + transition_events(old(reach)@.success_outcome(now), identity.target_address@),
        r.health@ == health_payload(
            status_of(data_in(result@).items_or_none()),
            data_in(result@),
            version@,
            json::strings_view(identity.capabilities@),
        ),
        r.target@ == target_health(
            final(reach)@,
            identity.target_address@,
            json::string_view(identity.gateway_host),
            json::string_view(egress_ip),
        ),
{
    let value = data_of(result);
    let alarms = value.copy().into_items();
    let status = derive_status(&alarms);
    let (raised, gone) = state.set_alarms(alarms, status);
    let mut events: Vec<GatewayEvent> = Vec::new();
    push_alarm_events(&mut events, &raised, &gone);
    let ghost first = event::events_view(events@);
    let transition = reach.record_success_at(now);
    push_transition(&mut events, transition, identity.target_address.as_str());
    assert(are_gone(
        json::strings_view(gone@),
        old(state)@.state.prev_alarm_ids,
        data_in(result@).items_or_none(),
    ));
    assert(first == alarm_events(
        state::alarms_not_in(data_in(result@).items_or_none(), old(state)@.state.prev_alarm_ids),
        json::strings_view(gone@),
    ));
    AlarmsReport {
        events,
        health: make_health_payload(status, value, version, &identity.capabilities),
        target: make_target(reach, identity, egress_ip),
    }
}

/// What a poll for alarms that failed leads to. The time is the first given second when the
/// failure is counted and the second when it is decided on an event.
pub fn alarms_failed(
    reach: &mut ReachabilityState,
    identity: &GatewayIdentity,
    version: &str,
    egress_ip: Option<String>,
    error_code: &str,
    counted_at: i64,
    decided_at: i64,
) -> (r: AlarmsReport)
    requires
        old(reach)@.valid(),
        old(reach)@.consecutive_failures < u32::MAX,
        counted_at >= 0,
        decided_at >= 0,
    ensures
        final(reach)@.valid(),
        final(reach)@ == old(reach)@.after_failure(error_code@, counted_at, decided_at),
        event::events_view(r.events@) == transition_events(
            old(reach)@.failure_outcome(error_code@, counted_at, decided_at),
            identity.target_address@,
        ),
        r.health@ == health_payload(
            "critical"@,
            json::no_items(),
            version@,
            json::strings_view(identity.capabilities@),
        ),
        r.target@ == target_health(
            final(reach)@,
            identity.target_address@,
            json::string_view(identity.gateway_host),
            json::string_view(egress_ip),
        ),
{
    let mut events: Vec<GatewayEvent> = Vec::new();
    assert(event::events_view(events@) == Seq::<EventView>::empty());
    let transition = reach.record_failure_at(error_code, counted_at, decided_at);
    push_transition(&mut events, transition, identity.target_address.as_str());
    AlarmsReport {
        events,
        health: make_health_payload("critical", Json::nothing(), version, &identity.capabilities),
        target: make_target(reach, identity, egress_ip),
    }
}

/// Takes the outcome of a poll for alarms, now.
pub fn alarms_polled(
    state: &mut SharedAppearXState,
    reach: &mut ReachabilityState,
    identity: &GatewayIdentity,
    version: &str,
    egress_ip: Option<String>,
    outcome: Result<&Json, &anyhow::Error>,
) -> (r: AlarmsReport)
    requires
        old(state).valid(),
        old(reach)@.valid(),
        outcome is Err ==> old(reach)@.consecutive_failures < u32::MAX,
    ensures
        final(state).valid(),
        final(reach)@.valid(),
        match outcome {
            Ok(result) => {
                &&& final(state)@ == (SharedView {
                    state: state_after_alarms(old(state)@.state, result@),
                    ..old(state)@
                })
                &&& final(reach)@.reachable
                &&& final(reach)@.consecutive_failures == 0
                &&& r.health@ == health_payload(
                    status_of(data_in(result@).items_or_none()),
                    data_in(result@),
                    version@,
                    json::strings_view(identity.capabilities@),
                )
                &&& exists|gone: Seq<Seq<char>>, now: i64|
                    are_gone(
                        gone,
                        old(state)@.state.prev_alarm_ids,
                        data_in(result@).items_or_none(),
                    ) && 0 <= now <= clock::LAST_SECOND && final(reach)@ == old(
                        reach,
                    )@.after_success(now) && event::events_view(r.events@)
                        == #[trigger] alarm_events(
                        state::alarms_not_in(
                            data_in(result@).items_or_none(),
                            old(state)@.state.prev_alarm_ids,
                        ),
                        gone,
                    ) + transition_events(
                        #[trigger] old(reach)@.success_outcome(now),
                        identity.target_address@,
                    )
            },
            Err(e) => {
                &&& final(state)@ == old(state)@
                &&& final(reach)@.consecutive_failures == old(reach)@.consecutive_failures + 1
                &&& r.health@ == health_payload(
                    "critical"@,
                    json::no_items(),
                    version@,
                    json::strings_view(identity.capabilities@),
                )
                &&& exists|description: Seq<char>, counted_at: i64, decided_at: i64|
                    0 <= counted_at <= clock::LAST_SECOND && 0 <= decided_at <= clock::LAST_SECOND
                        && final(reach)@ == old(reach)@.after_failure(
                        reachability::error_class(description),
                        counted_at,
                        decided_at,
                    ) && event::events_view(r.events@) == transition_events(
                        #[trigger] old(reach)@.failure_outcome(
                            reachability::error_class(description),
                            counted_at,
                            decided_at,
                        ),
                        identity.target_address@,
                    )
            },
        },
        r.target@ == target_health(
            final(reach)@,
            identity.target_address@,
            json::string_view(identity.gateway_host),
            json::string_view(egress_ip),
        ),
{
    match outcome {
        Ok(result) => {
            let now = clock::now();
            alarms_answered(state, reach, identity, version, egress_ip, result, now.secs)
        },
        Err(e) => {
            let code = reachability::classify_jsonrpc_error(e);
            let counted_at = clock::now();
            let decided_at = clock::now();
            alarms_failed(
                reach,
                identity,
                version,
                egress_ip,
                code,
                counted_at.secs,
                decided_at.secs,
            )
        },
    }
}

/// A state that is found again gives rise to nothing: events come on edges only.
pub proof fn law_same_state_no_events(slot: u32, status: JsonView, rx_thresh: Double, temp_thresh: Double)
    ensures
        card_events(slot, Some(status), status, rx_thresh, temp_thresh).len() == 0,
{
}

/// Each signal gives rise to an event exactly if it crosses its limit: the clock if it was locked
/// and is not, or the other way round, and the light and the temperature if they are known and
/// were on the other side before, or unknown and now on the bad side.
pub proof fn law_events_on_edges(
    slot: u32,
    prev: Option<JsonView>,
    curr: JsonView,
    rx_thresh: Double,
    temp_thresh: Double,
)
    ensures
        ptp_events(slot, prev, curr).len() == if prev is Some && locked(health::ptp_state(prev->0))
            != locked(health::ptp_state(curr)) {
            1nat
        } else {
            0
        },
        light_events(slot, prev, curr, rx_thresh).len() == if light_of(Some(curr)) is Some
            && light_of(Some(curr))->0.below(rx_thresh) != (light_of(prev) is Some && light_of(
            prev,
        )->0.below(rx_thresh)) {
            1nat
        } else {
            0
        },
        heat_events(slot, prev, curr, temp_thresh).len() == if heat_of(Some(curr)) is Some
            && temp_thresh.below(heat_of(Some(curr))->0) != (heat_of(prev) is Some
            && temp_thresh.below(heat_of(prev)->0)) {
            1nat
        } else {
            0
        },
{
}

/// A grave alarm makes the unit critical and gives rise to a critical event when it is raised.
pub proof fn law_grave_alarm(alarms: Seq<JsonView>, i: int)
    requires
        0 <= i < alarms.len(),
        grave(alarms[i]),
    ensures
        status_of(alarms) == "critical"@,
        alarm_event(alarms[i]).severity == EventSeverity::Critical,
{
}

/// Whether a poll is one of a row for a module that answered on a card.
pub open spec fn asks_for(c: PollingConfig, caps: DeviceView, t: TaskView, slot: u32, i: int) -> bool {
    &&& caps.slots.contains_key(slot)
    &&& 0 <= i < poll_rows().len()
    &&& caps.slots[slot].version_of(poll_rows()[i].interface, poll_rows()[i].module) is Some
    &&& t == row_task(
        c,
        slot,
        caps.slots[slot],
        poll_rows()[i],
        caps.slots[slot].version_of(poll_rows()[i].interface, poll_rows()[i].module)->0,
    )
}

/// Whether a poll is one for a module that answered on a card.
pub open spec fn of_a_card(c: PollingConfig, caps: DeviceView, t: TaskView) -> bool {
    exists|slot: u32, i: int| asks_for(c, caps, t, slot, i)
}

proof fn lemma_row_tasks(c: PollingConfig, slot: u32, s: SlotView, n: nat)
    requires
        n <= poll_rows().len(),
    ensures
        forall|k: int|
            0 <= k < row_tasks(c, slot, s, poll_rows(), n).len() ==> exists|i: int|
                0 <= i < n && #[trigger] s.version_of(
                    poll_rows()[i].interface,
                    poll_rows()[i].module,
                ) is Some && (#[trigger] row_tasks(c, slot, s, poll_rows(), n)[k]) == row_task(
                    c,
                    slot,
                    s,
                    poll_rows()[i],
                    s.version_of(poll_rows()[i].interface, poll_rows()[i].module)->0,
                ),
        forall|i: int|
            0 <= i < n && #[trigger] s.version_of(
                poll_rows()[i].interface,
                poll_rows()[i].module,
            ) is Some ==> row_tasks(c, slot, s, poll_rows(), n).contains(
                row_task(
                    c,
                    slot,
                    s,
                    poll_rows()[i],
                    s.version_of(poll_rows()[i].interface, poll_rows()[i].module)->0,
                ),
            ),
    decreases n,
{
    if n > 0 {
        let m = (n - 1) as nat;
        lemma_row_tasks(c, slot, s, m);
        let before = row_tasks(c, slot, s, poll_rows(), m);
        let all = row_tasks(c, slot, s, poll_rows(), n);
        let r = poll_rows()[n - 1];
        match s.version_of(r.interface, r.module) {
            Some(version) => {
                assert(all == before.push(row_task(c, slot, s, r, version)));
                assert forall|k: int| 0 <= k < all.len() implies exists|i: int|
                    0 <= i < n && #[trigger] s.version_of(
                        poll_rows()[i].interface,
                        poll_rows()[i].module,
                    ) is Some && (#[trigger] all[k]) == row_task(
                        c,
                        slot,
                        s,
                        poll_rows()[i],
                        s.version_of(poll_rows()[i].interface, poll_rows()[i].module)->0,
                    ) by {
                    if k < before.len() {
                        assert(all[k] == before[k]);
                    } else {
                        assert(s.version_of(
                            poll_rows()[m as int].interface,
                            poll_rows()[m as int].module,
                        ) is Some);
                    }
                }
                assert forall|i: int|
                    0 <= i < n && #[trigger] s.version_of(
                        poll_rows()[i].interface,
                        poll_rows()[i].module,
                    ) is Some implies all.contains(
                    row_task(
                        c,
                        slot,
                        s,
                        poll_rows()[i],
                        s.version_of(poll_rows()[i].interface, poll_rows()[i].module)->0,
                    ),
                ) by {
                    let t = row_task(
                        c,
                        slot,
                        s,
                        poll_rows()[i],
                        s.version_of(poll_rows()[i].interface, poll_rows()[i].module)->0,
                    );
                    if i < m {
                        let k = choose|k: int| 0 <= k < before.len() && before[k] == t;
                        assert(all[k] == t);
                    } else {
                        assert(all[all.len() - 1] == t);
                    }
                }
            },
            None => {},
        }
    }
}

spec fn plan_to(c: PollingConfig, caps: DeviceView, n: nat) -> Seq<TaskView> {
    slots::fold_slots(
        caps.slots,
        n,
        seq![alarms_task(c), chassis_task(c), cards_task(c)],
        add_tasks(c),
    )
}

proof fn lemma_plan(c: PollingConfig, caps: DeviceView, n: nat)
    requires
        n <= slots::slot_limit(),
    ensures
        plan_to(c, caps, n).len() >= 3,
        plan_to(c, caps, n)[0] == alarms_task(c),
        plan_to(c, caps, n)[1] == chassis_task(c),
        plan_to(c, caps, n)[2] == cards_task(c),
        forall|k: int|
            3 <= k < plan_to(c, caps, n).len() ==> of_a_card(
                c,
                caps,
                #[trigger] plan_to(c, caps, n)[k],
            ),
        forall|slot: u32, i: int|
            slot < n && caps.slots.contains_key(slot) && 0 <= i < poll_rows().len()
                && #[trigger] caps.slots[slot].version_of(
                poll_rows()[i].interface,
                poll_rows()[i].module,
            ) is Some ==> plan_to(c, caps, n).contains(
                row_task(
                    c,
                    slot,
                    caps.slots[slot],
                    poll_rows()[i],
                    caps.slots[slot].version_of(
                        poll_rows()[i].interface,
                        poll_rows()[i].module,
                    )->0,
                ),
            ),
    decreases n,
{
    if n > 0 {
        let m = (n - 1) as nat;
        lemma_plan(c, caps, m);
        let before = plan_to(c, caps, m);
        let all = plan_to(c, caps, n);
        let here = m as u32;
        if caps.slots.contains_key(here) {
            let s = caps.slots[here];
            let added = row_tasks(c, here, s, poll_rows(), poll_rows().len());
            lemma_row_tasks(c, here, s, poll_rows().len());
            assert(all == before + added);
            assert forall|k: int| 3 <= k < all.len() implies of_a_card(
                c,
                caps,
                #[trigger] all[k],
            ) by {
                if k < before.len() {
                    assert(all[k] == before[k]);
                } else {
                    let j = k - before.len();
                    assert(all[k] == added[j]);
                    let i = choose|i: int|
                        0 <= i < poll_rows().len() && #[trigger] s.version_of(
                            poll_rows()[i].interface,
                            poll_rows()[i].module,
                        ) is Some && added[j] == row_task(
                            c,
                            here,
                            s,
                            poll_rows()[i],
                            s.version_of(poll_rows()[i].interface, poll_rows()[i].module)->0,
                        );
                    assert(asks_for(c, caps, all[k], here, i));
                }
            }
            assert forall|slot: u32, i: int|
                slot < n && caps.slots.contains_key(slot) && 0 <= i < poll_rows().len()
                    && #[trigger] caps.slots[slot].version_of(
                    poll_rows()[i].interface,
                    poll_rows()[i].module,
                ) is Some implies all.contains(
                row_task(
                    c,
                    slot,
                    caps.slots[slot],
                    poll_rows()[i],
                    caps.slots[slot].version_of(
                        poll_rows()[i].interface,
                        poll_rows()[i].module,
                    )->0,
                ),
            ) by {
                let t = row_task(
                    c,
                    slot,
                    caps.slots[slot],
                    poll_rows()[i],
                    caps.slots[slot].version_of(
                        poll_rows()[i].interface,
                        poll_rows()[i].module,
                    )->0,
                );
                if slot < m {
                    let k = choose|k: int| 0 <= k < before.len() && before[k] == t;
                    assert(all[k] == t);
                } else {
                    assert(slot == here);
                    let k = choose|k: int| 0 <= k < added.len() && added[k] == t;
                    assert(all[before.len() + k] == t);
                }
            }
        } else {
            assert(all == before);
        }
    }
}

/// The chassis is always polled for its alarms, its model and its cards. A card is polled for a
/// module exactly if the module answered on it and there is a poll for it, with the version under
/// which it answered.
pub proof fn law_only_discovered_modules_are_polled(c: PollingConfig, caps: DeviceView)
    ensures
        ({
            let plan = polling_plan(c, caps);
            &&& plan.len() >= 3
            &&& plan[0] == alarms_task(c)
            &&& plan[1] == chassis_task(c)
            &&& plan[2] == cards_task(c)
            &&& forall|k: int|
                3 <= k < plan.len() ==> of_a_card(c, caps, #[trigger] plan[k])
            &&& forall|slot: u32, i: int|
                caps.slots.contains_key(slot) && 0 <= i < poll_rows().len()
                    && #[trigger] caps.slots[slot].version_of(
                    poll_rows()[i].interface,
                    poll_rows()[i].module,
                ) is Some ==> plan.contains(
                    row_task(
                        c,
                        slot,
                        caps.slots[slot],
                        poll_rows()[i],
                        caps.slots[slot].version_of(
                            poll_rows()[i].interface,
                            poll_rows()[i].module,
                        )->0,
                    ),
                )
        }),
{
    lemma_plan(c, caps, slots::slot_limit());
    assert(polling_plan(c, caps) == plan_to(c, caps, slots::slot_limit()));
    assert forall|slot: u32, i: int|
        caps.slots.contains_key(slot) && 0 <= i < poll_rows().len()
            && #[trigger] caps.slots[slot].version_of(
            poll_rows()[i].interface,
            poll_rows()[i].module,
        ) is Some implies polling_plan(c, caps).contains(
        row_task(
            c,
            slot,
            caps.slots[slot],
            poll_rows()[i],
            caps.slots[slot].version_of(poll_rows()[i].interface, poll_rows()[i].module)->0,
        ),
    ) by {
        assert(slot < slots::slot_limit());
    }
}

/// A poll that finds the alarms of the last poll again, of a unit that was reachable, sends no
/// event.
pub proof fn law_same_alarms_no_events(
    s: StateView,
    reach: ReachView,
    result: JsonView,
    now: i64,
    gone: Seq<Seq<char>>,
    address: Seq<char>,
)
    requires
        reach.reachable,
        s.prev_alarm_ids == state::alarm_ids(data_in(result).items_or_none()),
        are_gone(gone, s.prev_alarm_ids, data_in(result).items_or_none()),
    ensures
        (alarm_events(
            state::alarms_not_in(data_in(result).items_or_none(), s.prev_alarm_ids),
            gone,
        ) + transition_events(reach.success_outcome(now), address)).len() == 0,
{
    let alarms = data_in(result).items_or_none();
    state::law_same_alarms_change_nothing(alarms);
    if gone.len() > 0 {
        assert(gone.to_set().contains(gone[0]));
    }
}

/// What a card is polled for only reads.
pub proof fn law_polls_only_read(i: int)
    requires
        0 <= i < poll_rows().len(),
    ensures
        probe_registry::only_reads(poll_rows()[i].command),
{
    reveal_strlit("Get");
    reveal_strlit("GetInputs");
    assert("GetInputs"@.subrange(0, 3) == "Get"@);
    reveal_strlit("GetOutputs");
    assert("GetOutputs"@.subrange(0, 3) == "Get"@);
    reveal_strlit("GetIpInterfaces");
    assert("GetIpInterfaces"@.subrange(0, 3) == "Get"@);
    reveal_strlit("GetCardStatus");
    assert("GetCardStatus"@.subrange(0, 3) == "Get"@);
    reveal_strlit("GetCoderServices");
    assert("GetCoderServices"@.subrange(0, 3) == "Get"@);
    reveal_strlit("GetMultiServices");
    assert("GetMultiServices"@.subrange(0, 3) == "Get"@);
    reveal_strlit("GetAudioProfiles");
    assert("GetAudioProfiles"@.subrange(0, 3) == "Get"@);
    reveal_strlit("GetCardAllocations");
    assert("GetCardAllocations"@.subrange(0, 3) == "Get"@);
    reveal_strlit("GetIpConnections");
    assert("GetIpConnections"@.subrange(0, 3) == "Get"@);
    reveal_strlit("GetRedundancyGroups");
    assert("GetRedundancyGroups"@.subrange(0, 3) == "Get"@);
    reveal_strlit("GetRedundancyGroupStatus");
    assert("GetRedundancyGroupStatus"@.subrange(0, 3) == "Get"@);
    reveal_strlit("GetEncoders");
    assert("GetEncoders"@.subrange(0, 3) == "Get"@);
    reveal_strlit("GetDecoders");
    assert("GetDecoders"@.subrange(0, 3) == "Get"@);
    reveal_strlit("GetDpiStatus");
    assert("GetDpiStatus"@.subrange(0, 3) == "Get"@);
    reveal_strlit("GetEsamStatus");
    assert("GetEsamStatus"@.subrange(0, 3) == "Get"@);
    reveal_strlit("GetPoisServerStatus");
    assert("GetPoisServerStatus"@.subrange(0, 3) == "Get"@);
    reveal_strlit("GetPoolConfig");
    assert("GetPoolConfig"@.subrange(0, 3) == "Get"@);
    reveal_strlit("GetLockStatus");
    assert("GetLockStatus"@.subrange(0, 3) == "Get"@);
    reveal_strlit("GetPsiStatus");
    assert("GetPsiStatus"@.subrange(0, 3) == "Get"@);
    reveal_strlit("GetOutputServices");
    assert("GetOutputServices"@.subrange(0, 3) == "Get"@);
}

} // verus!
