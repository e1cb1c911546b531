//! What the manager commands, as calls to the unit.
//!
//! A command is an object whose member `type` names the action. It is turned into one call to the
//! chassis or to a card, and a card is only called for a module that answered when the unit was
//! discovered.

use vstd::prelude::*;

use crate::appear_x::capabilities::DeviceView;
use crate::appear_x::health;
use crate::appear_x::jsonrpc::{self, Endpoint, Request, RequestView};
use crate::appear_x::probe_registry;
use crate::appear_x::reachability;
use crate::appear_x::state::{self, SharedAppearXState};
use crate::config::PollingConfig;
use crate::json::{self, Json, JsonView, Object};
use crate::text;

verus! {

/// The interface versions for calls to the chassis.
#[derive(Debug)]
pub struct MmiVersions {
    pub alarms: String,
    pub chassis: String,
}

impl<'a> From<&'a PollingConfig> for MmiVersions {
    fn from(p: &'a PollingConfig) -> (r: MmiVersions) {
        MmiVersions {
            alarms: p.alarms_mmi_version.clone(),
            chassis: p.chassis_mmi_version.clone(),
        }
    }
}

impl<'a> vstd::std_specs::convert::FromSpecImpl<&'a PollingConfig> for MmiVersions {
    open spec fn obeys_from_spec() -> bool {
        true
    }

    open spec fn from_spec(p: &'a PollingConfig) -> MmiVersions {
        MmiVersions { alarms: p.alarms_mmi_version, chassis: p.chassis_mmi_version }
    }
}

/// Why a command is refused.
#[derive(Debug)]
pub enum CommandError {
    /// With the given code, for the given reason.
    Coded { code: String, message: String },
    /// The command is not as it should be.
    Validation(String),
    /// There is no such action.
    UnknownAction(String),
}

/// What a [`CommandError`] holds.
#[verifier::ext_equal]
pub enum CommandFault {
    Coded { code: Seq<char>, message: Seq<char> },
    Validation(Seq<char>),
    UnknownAction(Seq<char>),
}

impl View for CommandError {
    type V = CommandFault;

    open spec fn view(&self) -> CommandFault {
        match *self {
            CommandError::Coded { code, message } => CommandFault::Coded {
                code: code@,
                message: message@,
            },
            CommandError::Validation(s) => CommandFault::Validation(s@),
            CommandError::UnknownAction(s) => CommandFault::UnknownAction(s@),
        }
    }
}

impl CommandFault {
    /// The code that the manager is told.
    pub open spec fn code(self) -> Seq<char> {
        match self {
            CommandFault::Coded { code, message } => code,
            CommandFault::Validation(_) => "validation_error"@,
            CommandFault::UnknownAction(_) => "unknown_action"@,
        }
    }

    /// What the manager is told.
    pub open spec fn message(self) -> Seq<char> {
        match self {
            CommandFault::Coded { code, message } => message,
            CommandFault::Validation(message) => message,
            CommandFault::UnknownAction(name) => "unknown action: "@ + name,
        }
    }
}

impl CommandError {
    /// What the manager is told.
    pub fn message(&self) -> (r: String)
        ensures
            r@ == self@.message(),
    {
        match self {
            CommandError::Coded { code, message } => message.clone(),
            CommandError::Validation(message) => message.clone(),
            CommandError::UnknownAction(name) => {
                let mut out = "unknown action: ".to_owned();
                out.append(name.as_str());
                out
            },
        }
    }

    /// An error with a code of its own.
    pub fn new(code: &str, message: String) -> (r: CommandError)
        ensures
            r@ == (CommandFault::Coded { code: code@, message: message@ }),
    {
        CommandError::Coded { code: code.to_owned(), message }
    }

    /// The code that the manager is told.
    pub fn code(&self) -> (r: String)
        ensures
            r@ == self@.code(),
    {
        match self {
            CommandError::Coded { code, message } => code.clone(),
            CommandError::Validation(_) => "validation_error".to_owned(),
            CommandError::UnknownAction(_) => "unknown_action".to_owned(),
        }
    }
}

/// A new version of the gateway that the manager wants installed.
#[derive(Debug)]
pub struct UpgradeRequest {
    pub version: String,
    pub channel: String,
    pub target_arch: Option<String>,
    pub variant: Option<String>,
}

/// What a command asks for.
#[derive(Debug)]
pub enum Plan {
    /// A call to the unit, whose result is the result of the command.
    Call(Request),
    /// Another version of the gateway.
    Upgrade(UpgradeRequest),
}

/// What a [`Plan`] holds.
#[verifier::ext_equal]
pub enum PlanView {
    Call(RequestView),
    Upgrade {
        version: Seq<char>,
        channel: Seq<char>,
        target_arch: Option<Seq<char>>,
        variant: Option<Seq<char>>,
    },
}

impl View for Plan {
    type V = PlanView;

    open spec fn view(&self) -> PlanView {
        match *self {
            Plan::Call(q) => PlanView::Call(q@),
            Plan::Upgrade(u) => PlanView::Upgrade {
                version: u.version@,
                channel: u.channel@,
                target_arch: json::string_view(u.target_arch),
                variant: json::string_view(u.variant),
            },
        }
    }
}

/// What came of reading a command.
pub open spec fn planned(r: Result<Plan, CommandError>) -> Result<PlanView, CommandFault> {
    match r {
        Ok(p) => Ok(p@),
        Err(e) => Err(e@),
    }
}

/// The name that an operator gives to a command of the unit: in lower case, with an underscore
/// before each letter that was upper case, but for the first character.
pub open spec fn action_name(command: Seq<char>) -> Seq<char>
    decreases command.len(),
{
    if command.len() == 0 {
        Seq::empty()
    } else {
        let before = action_name(command.drop_last());
        let c = command.last();
        if 'A' <= c <= 'Z' {
            if command.len() > 1 {
                before.push('_').push(text::ascii_lower(c))
            } else {
                before.push(text::ascii_lower(c))
            }
        } else {
            before.push(c)
        }
    }
}

/// The name that an operator gives to a command of the unit.
pub fn command_to_action(command: &str) -> (r: String)
    ensures
        r@ == action_name(command@),
{
    let chars = text::chars_of(command);
    let mut out = String::new();
    for i in 0..chars.len()
        invariant
            chars@ == command@,
            out@ == action_name(command@.take(i as int)),
    {
        assert(command@.take(i + 1).drop_last() == command@.take(i as int));
        let c = chars[i];
        if 'A' <= c && c <= 'Z' {
            if i > 0 {
                out.push('_');
            }
            out.push(text::to_ascii_lower(c));
        } else {
            out.push(c);
        }
    }
    assert(command@.take(command@.len() as int) == command@);
    out
}

/// The name that an operator gives to a command holds no upper case Latin letter.
pub proof fn law_action_name_is_lower_case(command: Seq<char>, i: int)
    requires
        0 <= i < action_name(command).len(),
    ensures
        !('A' <= action_name(command)[i] <= 'Z'),
    decreases command.len(),
{
    let before = action_name(command.drop_last());
    if i < before.len() {
        law_action_name_is_lower_case(command.drop_last(), i);
    }
}

/// What a call to a card carries.
#[derive(Clone, Copy, Debug)]
pub enum Body {
    /// `{}`
    Empty,
    /// `{"query": {}}`
    Query,
    /// `{"slot": <n>}`
    Slot,
    /// The named member of the command, as `data`.
    Raw(&'static str),
    /// The named member of the command, a list of keys and values, as an object under `data`.
    Keyed(&'static str),
    /// The member `ids` of the command, a list.
    Ids,
    /// The members `limit` and `since_pts` of the command, where they are there.
    History,
}

/// What a [`Body`] holds.
pub enum BodyView {
    Empty,
    Query,
    Slot,
    Raw(Seq<char>),
    Keyed(Seq<char>),
    Ids,
    History,
}

impl View for Body {
    type V = BodyView;

    open spec fn view(&self) -> BodyView {
        match *self {
            Body::Empty => BodyView::Empty,
            Body::Query => BodyView::Query,
            Body::Slot => BodyView::Slot,
            Body::Raw(s) => BodyView::Raw(s@),
            Body::Keyed(s) => BodyView::Keyed(s@),
            Body::Ids => BodyView::Ids,
            Body::History => BodyView::History,
        }
    }
}

/// A call to a card.
#[derive(Clone, Copy, Debug)]
pub struct CardCommand {
    pub interface: &'static str,
    pub module: &'static str,
    pub command: &'static str,
    pub body: Body,
}

/// What a [`CardCommand`] holds.
pub struct CardView {
    pub interface: Seq<char>,
    pub module: Seq<char>,
    pub command: Seq<char>,
    pub body: BodyView,
}

impl View for CardCommand {
    type V = CardView;

    open spec fn view(&self) -> CardView {
        CardView {
            interface: self.interface@,
            module: self.module@,
            command: self.command@,
            body: self.body@,
        }
    }
}

/// A call to a card.
pub open spec fn card(
    interface: Seq<char>,
    module: Seq<char>,
    command: Seq<char>,
    body: BodyView,
) -> CardView {
    CardView { interface, module, command, body }
}

fn make_card(
    interface: &'static str,
    module: &'static str,
    command: &'static str,
    body: Body,
) -> (r: CardCommand)
    ensures
        r@ == card(interface@, module@, command@, body@),
{
    CardCommand { interface, module, command, body }
}

/// The call to a card that an action stands for.
pub open spec fn card_command(action: Seq<char>) -> Option<CardView> {
    if action == "get_inputs"@ {
        Some(card("ipGateway"@, "input"@, "GetInputs"@, BodyView::Empty))
    } else if action == "get_outputs"@ {
        Some(card("ipGateway"@, "output"@, "GetOutputs"@, BodyView::Empty))
    } else if action == "get_services"@ {
        Some(card("board"@, "services"@, "GetInputServices"@, BodyView::Query))
    } else if action == "get_ip_interfaces"@ {
        Some(card("ipGateway"@, "ipinterface"@, "GetIpInterfaces"@, BodyView::Empty))
    } else if action == "set_ip_input"@ {
        Some(card("ipGateway"@, "input"@, "SetInputs"@, BodyView::Raw("inputs"@)))
    } else if action == "set_ip_output"@ {
        Some(card("ipGateway"@, "output"@, "SetOutputs"@, BodyView::Raw("outputs"@)))
    } else if action == "get_card_status"@ {
        Some(card("Xger"@, "cardStatus"@, "GetCardStatus"@, BodyView::Slot))
    } else if action == "get_coder_services"@ {
        Some(card("Xger"@, "coderService"@, "GetCoderServices"@, BodyView::Empty))
    } else if action == "get_multi_services"@ {
        Some(card("Xger"@, "multiService"@, "GetMultiServices"@, BodyView::Empty))
    } else if action == "get_audio_profiles"@ {
        Some(card("Xger"@, "audioProfile"@, "GetAudioProfiles"@, BodyView::Empty))
    } else if action == "get_xger_ip_interfaces"@ {
        Some(card("Xger"@, "ipInterface"@, "GetIpInterfaces"@, BodyView::Empty))
    } else if action == "get_card_allocations"@ {
        Some(card("Xger"@, "cardAllocation"@, "GetCardAllocations"@, BodyView::Empty))
    } else if action == "get_pool_config"@ {
        Some(card("Xger"@, "poolConfig"@, "GetPoolConfig"@, BodyView::Empty))
    } else if action == "get_lock_status"@ {
        Some(card("Xger"@, "lockStatus"@, "GetLockStatus"@, BodyView::Empty))
    } else if action == "get_psi_status"@ {
        Some(card("Xger"@, "psiStatus"@, "GetPsiStatus"@, BodyView::Empty))
    } else if action == "get_images"@ {
        Some(card("Xger"@, "imageUpload"@, "GetImages"@, BodyView::Empty))
    } else if action == "set_coder_services"@ {
        Some(card("Xger"@, "coderService"@, "SetCoderServices"@, BodyView::Keyed("coder_services"@)))
    } else if action == "delete_coder_services"@ {
        Some(card("Xger"@, "coderService"@, "DeleteCoderServices"@, BodyView::Ids))
    } else if action == "set_multi_services"@ {
        Some(card("Xger"@, "multiService"@, "SetMultiServices"@, BodyView::Keyed("multi_services"@)))
    } else if action == "delete_multi_services"@ {
        Some(card("Xger"@, "multiService"@, "DeleteMultiServices"@, BodyView::Ids))
    } else if action == "set_audio_profiles"@ {
        Some(card("Xger"@, "audioProfile"@, "SetAudioProfiles"@, BodyView::Keyed("audio_profiles"@)))
    } else if action == "delete_audio_profiles"@ {
        Some(card("Xger"@, "audioProfile"@, "DeleteAudioProfiles"@, BodyView::Ids))
    } else if action == "set_xger_ip_interfaces"@ {
        Some(card("Xger"@, "ipInterface"@, "SetIpInterfaces"@, BodyView::Keyed("ip_interfaces"@)))
    } else if action == "delete_xger_ip_interfaces"@ {
        Some(card("Xger"@, "ipInterface"@, "DeleteIpInterfaces"@, BodyView::Ids))
    } else if action == "set_card_allocations"@ {
        Some(card("Xger"@, "cardAllocation"@, "SetCardAllocations"@, BodyView::Keyed("card_allocations"@)))
    } else if action == "set_pool_config"@ {
        Some(card("Xger"@, "poolConfig"@, "SetPoolConfig"@, BodyView::Raw("pool_config"@)))
    } else if action == "get_ip_connections"@ {
        Some(card("Xger"@, "ipConnection"@, "GetIpConnections"@, BodyView::Empty))
    } else if action == "set_ip_connections"@ {
        Some(card("Xger"@, "ipConnection"@, "SetIpConnections"@, BodyView::Keyed("ip_connections"@)))
    } else if action == "delete_ip_connections"@ {
        Some(card("Xger"@, "ipConnection"@, "DeleteIpConnections"@, BodyView::Ids))
    } else if action == "get_redundancy_groups"@ {
        Some(card("Xger"@, "redundancyGroup"@, "GetRedundancyGroups"@, BodyView::Empty))
    } else if action == "set_redundancy_groups"@ {
        Some(card("Xger"@, "redundancyGroup"@, "SetRedundancyGroups"@, BodyView::Keyed("redundancy_groups"@)))
    } else if action == "delete_redundancy_groups"@ {
        Some(card("Xger"@, "redundancyGroup"@, "DeleteRedundancyGroups"@, BodyView::Ids))
    } else if action == "get_redundancy_group_status"@ {
        Some(card("Xger"@, "redundancyGroupStatus"@, "GetRedundancyGroupStatus"@, BodyView::Empty))
    } else if action == "get_dpi"@ {
        Some(card("Xger"@, "dpi"@, "GetDpi"@, BodyView::Empty))
    } else if action == "set_dpi"@ {
        Some(card("Xger"@, "dpi"@, "SetDpi"@, BodyView::Raw("dpi"@)))
    } else if action == "get_dpi_status"@ {
        Some(card("Xger"@, "dpiStatus"@, "GetDpiStatus"@, BodyView::Empty))
    } else if action == "get_esam_config"@ {
        Some(card("Xger"@, "esamConfig"@, "GetEsamConfig"@, BodyView::Empty))
    } else if action == "set_esam_config"@ {
        Some(card("Xger"@, "esamConfig"@, "SetEsamConfig"@, BodyView::Raw("esam_config"@)))
    } else if action == "get_esam_status"@ {
        Some(card("Xger"@, "esamStatus"@, "GetEsamStatus"@, BodyView::Empty))
    } else if action == "get_scte35_config"@ {
        Some(card("Xger"@, "scte35Config"@, "GetScte35Config"@, BodyView::Empty))
    } else if action == "set_scte35_config"@ {
        Some(card("Xger"@, "scte35Config"@, "SetScte35Config"@, BodyView::Raw("scte35_config"@)))
    } else if action == "get_scte35_history"@ {
        Some(card("Xger"@, "scte35LogApi"@, "GetScte35History"@, BodyView::History))
    } else if action == "get_pois_server_status"@ {
        Some(card("Xger"@, "poisServerStatus"@, "GetPoisServerStatus"@, BodyView::Empty))
    } else {
        None
    }
}

/// The call to a card that an action stands for.
pub fn find_card_command(action: &str) -> (r: Option<CardCommand>)
    ensures
        match r {
            Some(c) => card_command(action@) == Some(c@),
            None => card_command(action@) is None,
        },
{
    if text::str_eq(action, "get_inputs") {
        Some(make_card("ipGateway", "input", "GetInputs", Body::Empty))
    } else if text::str_eq(action, "get_outputs") {
        Some(make_card("ipGateway", "output", "GetOutputs", Body::Empty))
    } else if text::str_eq(action, "get_services") {
        Some(make_card("board", "services", "GetInputServices", Body::Query))
    } else if text::str_eq(action, "get_ip_interfaces") {
        Some(make_card("ipGateway", "ipinterface", "GetIpInterfaces", Body::Empty))
    } else if text::str_eq(action, "set_ip_input") {
        Some(make_card("ipGateway", "input", "SetInputs", Body::Raw("inputs")))
    } else if text::str_eq(action, "set_ip_output") {
        Some(make_card("ipGateway", "output", "SetOutputs", Body::Raw("outputs")))
    } else if text::str_eq(action, "get_card_status") {
        Some(make_card("Xger", "cardStatus", "GetCardStatus", Body::Slot))
    } else if text::str_eq(action, "get_coder_services") {
        Some(make_card("Xger", "coderService", "GetCoderServices", Body::Empty))
    } else if text::str_eq(action, "get_multi_services") {
        Some(make_card("Xger", "multiService", "GetMultiServices", Body::Empty))
    } else if text::str_eq(action, "get_audio_profiles") {
        Some(make_card("Xger", "audioProfile", "GetAudioProfiles", Body::Empty))
    } else if text::str_eq(action, "get_xger_ip_interfaces") {
        Some(make_card("Xger", "ipInterface", "GetIpInterfaces", Body::Empty))
    } else if text::str_eq(action, "get_card_allocations") {
        Some(make_card("Xger", "cardAllocation", "GetCardAllocations", Body::Empty))
    } else if text::str_eq(action, "get_pool_config") {
        Some(make_card("Xger", "poolConfig", "GetPoolConfig", Body::Empty))
    } else if text::str_eq(action, "get_lock_status") {
        Some(make_card("Xger", "lockStatus", "GetLockStatus", Body::Empty))
    } else if text::str_eq(action, "get_psi_status") {
        Some(make_card("Xger", "psiStatus", "GetPsiStatus", Body::Empty))
    } else if text::str_eq(action, "get_images") {
        Some(make_card("Xger", "imageUpload", "GetImages", Body::Empty))
    } else if text::str_eq(action, "set_coder_services") {
        Some(make_card("Xger", "coderService", "SetCoderServices", Body::Keyed("coder_services")))
    } else if text::str_eq(action, "delete_coder_services") {
        Some(make_card("Xger", "coderService", "DeleteCoderServices", Body::Ids))
    } else if text::str_eq(action, "set_multi_services") {
        Some(make_card("Xger", "multiService", "SetMultiServices", Body::Keyed("multi_services")))
    } else if text::str_eq(action, "delete_multi_services") {
        Some(make_card("Xger", "multiService", "DeleteMultiServices", Body::Ids))
    } else if text::str_eq(action, "set_audio_profiles") {
        Some(make_card("Xger", "audioProfile", "SetAudioProfiles", Body::Keyed("audio_profiles")))
    } else if text::str_eq(action, "delete_audio_profiles") {
        Some(make_card("Xger", "audioProfile", "DeleteAudioProfiles", Body::Ids))
    } else if text::str_eq(action, "set_xger_ip_interfaces") {
        Some(make_card("Xger", "ipInterface", "SetIpInterfaces", Body::Keyed("ip_interfaces")))
    } else if text::str_eq(action, "delete_xger_ip_interfaces") {
        Some(make_card("Xger", "ipInterface", "DeleteIpInterfaces", Body::Ids))
    } else if text::str_eq(action, "set_card_allocations") {
        Some(make_card("Xger", "cardAllocation", "SetCardAllocations", Body::Keyed("card_allocations")))
    } else if text::str_eq(action, "set_pool_config") {
        Some(make_card("Xger", "poolConfig", "SetPoolConfig", Body::Raw("pool_config")))
    } else if text::str_eq(action, "get_ip_connections") {
        Some(make_card("Xger", "ipConnection", "GetIpConnections", Body::Empty))
    } else if text::str_eq(action, "set_ip_connections") {
        Some(make_card("Xger", "ipConnection", "SetIpConnections", Body::Keyed("ip_connections")))
    } else if text::str_eq(action, "delete_ip_connections") {
        Some(make_card("Xger", "ipConnection", "DeleteIpConnections", Body::Ids))
    } else if text::str_eq(action, "get_redundancy_groups") {
        Some(make_card("Xger", "redundancyGroup", "GetRedundancyGroups", Body::Empty))
    } else if text::str_eq(action, "set_redundancy_groups") {
        Some(make_card("Xger", "redundancyGroup", "SetRedundancyGroups", Body::Keyed("redundancy_groups")))
    } else if text::str_eq(action, "delete_redundancy_groups") {
        Some(make_card("Xger", "redundancyGroup", "DeleteRedundancyGroups", Body::Ids))
    } else if text::str_eq(action, "get_redundancy_group_status") {
        Some(make_card("Xger", "redundancyGroupStatus", "GetRedundancyGroupStatus", Body::Empty))
    } else if text::str_eq(action, "get_dpi") {
        Some(make_card("Xger", "dpi", "GetDpi", Body::Empty))
    } else if text::str_eq(action, "set_dpi") {
        Some(make_card("Xger", "dpi", "SetDpi", Body::Raw("dpi")))
    } else if text::str_eq(action, "get_dpi_status") {
        Some(make_card("Xger", "dpiStatus", "GetDpiStatus", Body::Empty))
    } else if text::str_eq(action, "get_esam_config") {
        Some(make_card("Xger", "esamConfig", "GetEsamConfig", Body::Empty))
    } else if text::str_eq(action, "set_esam_config") {
        Some(make_card("Xger", "esamConfig", "SetEsamConfig", Body::Raw("esam_config")))
    } else if text::str_eq(action, "get_esam_status") {
        Some(make_card("Xger", "esamStatus", "GetEsamStatus", Body::Empty))
    } else if text::str_eq(action, "get_scte35_config") {
        Some(make_card("Xger", "scte35Config", "GetScte35Config", Body::Empty))
    } else if text::str_eq(action, "set_scte35_config") {
        Some(make_card("Xger", "scte35Config", "SetScte35Config", Body::Raw("scte35_config")))
    } else if text::str_eq(action, "get_scte35_history") {
        Some(make_card("Xger", "scte35LogApi", "GetScte35History", Body::History))
    } else if text::str_eq(action, "get_pois_server_status") {
        Some(make_card("Xger", "poisServerStatus", "GetPoisServerStatus", Body::Empty))
    } else {
        None
    }
}

/// The slot that a command names; the first where it names none.
pub open spec fn slot_named(action: JsonView) -> u32 {
    match action.get("slot"@) {
        Some(n) => match n.unsigned() {
            Some(s) => s as u32,
            None => 1,
        },
        None => 1,
    }
}

fn find_slot_named(action: &Json) -> (r: u32)
    ensures
        r == slot_named(action@),
{
    match action.get("slot") {
        Some(n) => match n.as_u64() {
            Some(s) => #[verifier::truncate]
            (s as u32),
            None => 1,
        },
        None => 1,
    }
}

/// `missing '<key>' field`
pub open spec fn missing_field(key: Seq<char>) -> CommandFault {
    CommandFault::Validation("missing '"@ + key + "' field"@)
}

fn make_missing_field(key: &str) -> (r: CommandError)
    ensures
        r@ == missing_field(key@),
{
    let mut out = "missing '".to_owned();
    out.append(key);
    out.append("' field");
    CommandError::Validation(out)
}

/// `'<payload>[<i>]<rest>`
pub open spec fn item_fault(payload: Seq<char>, i: nat, rest: Seq<char>) -> CommandFault {
    CommandFault::Validation("'"@ + payload + "["@ + text::decimal(i) + "]"@ + rest)
}

fn make_item_fault(payload: &str, i: usize, rest: &str) -> (r: CommandError)
    ensures
        r@ == item_fault(payload@, i as nat, rest@),
{
    let mut out = "'".to_owned();
    out.append(payload);
    out.append("[");
    out.append(text::decimal_of(i as u64).as_str());
    out.append("]");
    out.append(rest);
    CommandError::Validation(out)
}

/// The key and the value that one item of a list gives.
pub open spec fn keyed_item(item: JsonView, payload: Seq<char>, i: nat) -> Result<
    (Seq<char>, JsonView),
    CommandFault,
> {
    if !(item is Object) {
        Err(item_fault(payload, i, "' must be an object with 'key' and 'value'"@))
    } else {
        match json::text_of(item.get("key"@)) {
            Some(key) => if key.len() == 0 {
                Err(item_fault(payload, i, ".key' must be a non-empty string"@))
            } else {
                match item.get("value"@) {
                    Some(value) => Ok((key, value)),
                    None => Err(item_fault(payload, i, ".value' is missing"@)),
                }
            },
            None => Err(item_fault(payload, i, ".key' must be a non-empty string"@)),
        }
    }
}

/// The members that the first `n` items of a list give. Of two items with one key the later
/// counts; the first item that is not as it should be decides on the error.
pub open spec fn keyed(items: Seq<JsonView>, payload: Seq<char>, n: nat) -> Result<
    Map<Seq<char>, JsonView>,
    CommandFault,
>
    decreases n,
{
    if n == 0 {
        Ok(Map::empty())
    } else {
        match keyed(items, payload, (n - 1) as nat) {
            Ok(m) => match keyed_item(items[n - 1], payload, (n - 1) as nat) {
                Ok(kv) => Ok(m.insert(kv.0, kv.1)),
                Err(e) => Err(e),
            },
            Err(e) => Err(e),
        }
    }
}

proof fn lemma_keyed_error_stays(items: Seq<JsonView>, payload: Seq<char>, i: nat, n: nat)
    requires
        i <= n,
        keyed(items, payload, i) is Err,
    ensures
        keyed(items, payload, n) == keyed(items, payload, i),
    decreases n,
{
    if i < n {
        lemma_keyed_error_stays(items, payload, i, (n - 1) as nat);
    }
}

fn fold_keyed(items: &Vec<Json>, payload: &str) -> (r: Result<Object, CommandError>)
    ensures
        match r {
            Ok(o) => keyed(json::items_view(items@), payload@, items@.len()) == Ok::<
                Map<Seq<char>, JsonView>,
                CommandFault,
            >(o@),
            Err(e) => keyed(json::items_view(items@), payload@, items@.len()) == Err::<
                Map<Seq<char>, JsonView>,
                CommandFault,
            >(e@),
        },
{
    let mut out = Object::new();
    let ghost all = json::items_view(items@);
    let n: usize = items.len();
    for i in 0..n
        invariant
            n == items@.len(),
            all == json::items_view(items@),
            keyed(all, payload@, i as nat) == Ok::<Map<Seq<char>, JsonView>, CommandFault>(out@),
    {
        let item = &items[i];
        assert(all[i as int] == item@);
        let is_object = match item {
            Json::Object(_) => true,
            _ => false,
        };
        let ghost next = (i + 1) as nat;
        if !is_object {
            proof {
                lemma_keyed_error_stays(all, payload@, next, n as nat);
            }
            return Err(make_item_fault(payload, i, "' must be an object with 'key' and 'value'"));
        }
        let key = match json::str_in(item.get("key")) {
            Some(k) => if k.is_empty() {
                None
            } else {
                Some(k)
            },
            None => None,
        };
        let key = match key {
            Some(k) => k,
            None => {
                proof {
                    lemma_keyed_error_stays(all, payload@, next, n as nat);
                }
                return Err(make_item_fault(payload, i, ".key' must be a non-empty string"));
            },
        };
        match item.get("value") {
            Some(v) => {
                out.set(key, v.copy());
            },
            None => {
                proof {
                    lemma_keyed_error_stays(all, payload@, next, n as nat);
                }
                return Err(make_item_fault(payload, i, ".value' is missing"));
            },
        }
    }
    Ok(out)
}

/// `{"<key>": <value>}`
pub open spec fn one_member(key: Seq<char>, value: JsonView) -> JsonView {
    JsonView::Object(Map::empty().insert(key, value))
}

fn make_one_member(key: &str, value: Json) -> (r: Json)
    ensures
        r@ == one_member(key@, value@),
{
    let mut o = Object::new();
    o.set(key, value);
    Json::Object(o)
}

/// What a call to a card carries, given the command.
pub open spec fn body_of(body: BodyView, slot: u32, action: JsonView) -> Result<
    JsonView,
    CommandFault,
> {
    match body {
        BodyView::Empty => Ok(json::no_members()),
        BodyView::Query => Ok(probe_registry::empty_query()),
        BodyView::Slot => Ok(probe_registry::slot_params(slot)),
        BodyView::Raw(payload) => match action.get(payload) {
            Some(data) => Ok(one_member("data"@, data)),
            None => Err(missing_field(payload)),
        },
        BodyView::Keyed(payload) => match action.get(payload) {
            Some(data) => match data.items() {
                Some(items) => match keyed(items, payload, items.len()) {
                    Ok(m) => Ok(one_member("data"@, JsonView::Object(m))),
                    Err(e) => Err(e),
                },
                None => Err(
                    CommandFault::Validation(
                        "'"@ + payload + "' must be an array of {key, value} objects"@,
                    ),
                ),
            },
            None => Err(missing_field(payload)),
        },
        BodyView::Ids => match action.get("ids"@) {
            Some(ids) => if ids is Array {
                Ok(one_member("ids"@, ids))
            } else {
                Err(CommandFault::Validation("'ids' must be an array"@))
            },
            None => Err(missing_field("ids"@)),
        },
        BodyView::History => Ok(
            JsonView::Object(
                health::put(
                    health::put(Map::empty(), "limit"@, action.get("limit"@)),
                    "since_pts"@,
                    action.get("since_pts"@),
                ),
            ),
        ),
    }
}

fn make_body(body: Body, slot: u32, action: &Json) -> (r: Result<Json, CommandError>)
    ensures
        match r {
            Ok(j) => body_of(body@, slot, action@) == Ok::<JsonView, CommandFault>(j@),
            Err(e) => body_of(body@, slot, action@) == Err::<JsonView, CommandFault>(e@),
        },
{
    match body {
        Body::Empty => Ok(Json::empty()),
        Body::Query => Ok(probe_registry::make_empty_query()),
        Body::Slot => Ok(probe_registry::make_slot_params(slot)),
        Body::Raw(payload) => match action.get(payload) {
            Some(data) => Ok(make_one_member("data", data.copy())),
            None => Err(make_missing_field(payload)),
        },
        Body::Keyed(payload) => match action.get(payload) {
            Some(data) => match data.as_array() {
                Some(items) => match fold_keyed(items, payload) {
                    Ok(o) => Ok(make_one_member("data", Json::Object(o))),
                    Err(e) => Err(e),
                },
                None => {
                    let mut out = "'".to_owned();
                    out.append(payload);
                    out.append("' must be an array of {key, value} objects");
                    Err(CommandError::Validation(out))
                },
            },
            None => Err(make_missing_field(payload)),
        },
        Body::Ids => match action.get("ids") {
            Some(ids) => {
                let is_array = match ids {
                    Json::Array(_) => true,
                    _ => false,
                };
                if is_array {
                    Ok(make_one_member("ids", ids.copy()))
                } else {
                    Err(CommandError::Validation("'ids' must be an array".to_owned()))
                }
            },
            None => Err(make_missing_field("ids")),
        },
        Body::History => {
            let mut o = Object::new();
            match action.get("limit") {
                Some(v) => {
                    o.set("limit", v.copy());
                },
                None => {},
            }
            match action.get("since_pts") {
                Some(v) => {
                    o.set("since_pts", v.copy());
                },
                None => {},
            }
            Ok(Json::Object(o))
        },
    }
}

/// The error for a command that needs a module which did not answer on the slot.
pub open spec fn unsupported(slot: u32, action: Seq<char>, module: Seq<char>) -> CommandFault {
    CommandFault::Coded {
        code: "unsupported_on_card"@,
        message: action + " requires the `"@ + module + "` module on slot "@ + text::decimal(
            slot as nat,
        )
            + ". This card family does not expose that interface — X5 / X10 / X20 chassis speak only the Xger card-manager surface. Use the Coder Services / Multi Services / Audio Profiles sections for the Xger-native signal path, or run this command against a legacy IP Gateway board (ME-3000 / ME-4000)."@,
    }
}

fn unsupported_on_card(slot: u32, action: &str, module: &str) -> (r: CommandError)
    ensures
        r@ == unsupported(slot, action@, module@),
{
    let mut out = action.to_owned();
    out.append(" requires the `");
    out.append(module);
    out.append("` module on slot ");
    out.append(text::decimal_of(slot as u64).as_str());
    out.append(
        ". This card family does not expose that interface — X5 / X10 / X20 chassis speak only the Xger card-manager surface. Use the Coder Services / Multi Services / Audio Profiles sections for the Xger-native signal path, or run this command against a legacy IP Gateway board (ME-3000 / ME-4000).",
    );
    CommandError::new("unsupported_on_card", out)
}

/// A call to a card.
pub open spec fn board_call(
    slot: u32,
    interface: Seq<char>,
    version: Seq<char>,
    module: Seq<char>,
    command: Seq<char>,
    params: JsonView,
) -> PlanView {
    PlanView::Call(
        RequestView {
            endpoint: Endpoint::Board(slot),
            method: jsonrpc::method_name(interface, version, module, command),
            params,
        },
    )
}

fn make_board_call(
    slot: u32,
    interface: &str,
    version: &str,
    module: &str,
    command: &str,
    params: Json,
) -> (r: Plan)
    ensures
        r@ == board_call(slot, interface@, version@, module@, command@, params@),
{
    Plan::Call(
        Request {
            endpoint: Endpoint::Board(slot),
            method: jsonrpc::make_method_name(interface, version, module, command),
            params,
        },
    )
}

/// What is done for a command that is a call to a card.
pub open spec fn card_plan(
    caps: DeviceView,
    slot: u32,
    name: Seq<char>,
    c: CardView,
    action: JsonView,
) -> Result<PlanView, CommandFault> {
    match state::version_on(caps, slot, c.interface, c.module) {
        Some(version) => match body_of(c.body, slot, action) {
            Ok(params) => Ok(board_call(slot, c.interface, version, c.module, c.command, params)),
            Err(e) => Err(e),
        },
        None => Err(unsupported(slot, name, c.interface + "/"@ + c.module)),
    }
}

fn make_card_plan(
    state: &SharedAppearXState,
    slot: u32,
    name: &str,
    c: &CardCommand,
    action: &Json,
) -> (r: Result<Plan, CommandError>)
    ensures
        planned(r) == card_plan(state@.caps, slot, name@, c@, action@),
{
    match state.discovered_version(slot, c.interface, c.module) {
        Some(version) => match make_body(c.body, slot, action) {
            Ok(params) => Ok(
                make_board_call(
                    slot,
                    c.interface,
                    version.as_str(),
                    c.module,
                    c.command,
                    params,
                ),
            ),
            Err(e) => Err(e),
        },
        None => {
            let mut module = c.interface.to_owned();
            module.append("/");
            module.append(c.module);
            Err(unsupported_on_card(slot, name, module.as_str()))
        },
    }
}

/// What is done for a command that reads or writes the configuration of the encoders or decoders
/// in a slot: the transport stream family is called where it answered, else the other one.
pub open spec fn hip_plan(
    caps: DeviceView,
    slot: u32,
    encoder: bool,
    set: bool,
    action: JsonView,
) -> Result<PlanView, CommandFault> {
    let first = if encoder {
        ("hipTsEnc"@, "hipTsEncoder"@)
    } else {
        ("hipTsDec"@, "hipTsDecoder"@)
    };
    let second = if encoder {
        ("hipEnc"@, "hipEncoder"@)
    } else {
        ("hipDec"@, "hipDecoder"@)
    };
    let chosen = if state::version_on(caps, slot, first.0, first.1) is Some {
        first
    } else {
        second
    };
    let command = if set {
        if encoder {
            "SetEncoders"@
        } else {
            "SetDecoders"@
        }
    } else {
        if encoder {
            "GetEncoders"@
        } else {
            "GetDecoders"@
        }
    };
    match state::version_on(caps, slot, chosen.0, chosen.1) {
        Some(version) => if set {
            match action.get("config"@) {
                Some(config) => Ok(
                    board_call(
                        slot,
                        chosen.0,
                        version,
                        chosen.1,
                        command,
                        one_member("data"@, config),
                    ),
                ),
                None => Err(
                    CommandFault::Validation("missing 'config' field for set command"@),
                ),
            }
        } else {
            Ok(board_call(slot, chosen.0, version, chosen.1, command, json::no_members()))
        },
        None => Err(no_hip(slot, encoder)),
    }
}

/// The error for a slot without encoders or decoders.
pub open spec fn no_hip(slot: u32, encoder: bool) -> CommandFault {
    CommandFault::Coded {
        code: "unsupported_on_card"@,
        message: "Slot "@ + text::decimal(slot as nat) + if encoder {
            " exposes no encoder module (hipTsEnc / hipEnc). Commission an encoder pool first."@
        } else {
            " exposes no decoder module (hipTsDec / hipDec). Commission an decoder pool first."@
        },
    }
}

fn hip_call(
    state: &SharedAppearXState,
    slot: u32,
    encoder: bool,
    set: bool,
    action: &Json,
) -> (r: Result<Plan, CommandError>)
    ensures
        planned(r) == hip_plan(state@.caps, slot, encoder, set, action@),
{
    let (interface1, module1, interface2, module2) = if encoder {
        ("hipTsEnc", "hipTsEncoder", "hipEnc", "hipEncoder")
    } else {
        ("hipTsDec", "hipTsDecoder", "hipDec", "hipDecoder")
    };
    let first = state.discovered_version(slot, interface1, module1);
    let (interface, module, found) = match first {
        Some(v) => (interface1, module1, Some(v)),
        None => (interface2, module2, state.discovered_version(slot, interface2, module2)),
    };
    let version = match found {
        Some(v) => v,
        None => {
            let mut out = "Slot ".to_owned();
            out.append(text::decimal_of(slot as u64).as_str());
            if encoder {
                out.append(
                    " exposes no encoder module (hipTsEnc / hipEnc). Commission an encoder pool first.",
                );
            } else {
                out.append(
                    " exposes no decoder module (hipTsDec / hipDec). Commission an decoder pool first.",
                );
            }
            return Err(CommandError::new("unsupported_on_card", out));
        },
    };
    let command = if set {
        if encoder {
            "SetEncoders"
        } else {
            "SetDecoders"
        }
    } else {
        if encoder {
            "GetEncoders"
        } else {
            "GetDecoders"
        }
    };
    let params = if set {
        match action.get("config") {
            Some(config) => make_one_member("data", config.copy()),
            None => {
                return Err(
                    CommandError::Validation("missing 'config' field for set command".to_owned()),
                );
            },
        }
    } else {
        Json::empty()
    };
    Ok(make_board_call(slot, interface, version.as_str(), module, command, params))
}

/// What is done to set the counters of the encoders in a slot to zero.
pub open spec fn clear_plan(caps: DeviceView, slot: u32) -> Result<PlanView, CommandFault> {
    match state::version_on(caps, slot, "hipTsEnc"@, "hipEncStatus"@) {
        Some(version) => Ok(
            board_call(
                slot,
                "hipTsEnc"@,
                version,
                "hipEncStatus"@,
                "ClearAllCounters"@,
                json::no_members(),
            ),
        ),
        None => match state::version_on(caps, slot, "hipEnc"@, "hipEncStatus"@) {
            Some(version) => Ok(
                board_call(
                    slot,
                    "hipEnc"@,
                    version,
                    "hipEncStatus"@,
                    "ClearAllCounters"@,
                    json::no_members(),
                ),
            ),
            None => Err(
                CommandFault::Coded {
                    code: "unsupported_on_card"@,
                    message: "clear_all_counters requires a hipTsEnc or hipEnc encoder on slot "@
                        + text::decimal(slot as nat)
                        + ". This slot exposes no encoder-status module; commission an encoder service first."@,
                },
            ),
        },
    }
}

fn make_clear_plan(state: &SharedAppearXState, slot: u32) -> (r: Result<Plan, CommandError>)
    ensures
        planned(r) == clear_plan(state@.caps, slot),
{
    if let Some(version) = state.discovered_version(slot, "hipTsEnc", "hipEncStatus") {
        return Ok(
            make_board_call(
                slot,
                "hipTsEnc",
                version.as_str(),
                "hipEncStatus",
                "ClearAllCounters",
                Json::empty(),
            ),
        );
    }
    if let Some(version) = state.discovered_version(slot, "hipEnc", "hipEncStatus") {
        return Ok(
            make_board_call(
                slot,
                "hipEnc",
                version.as_str(),
                "hipEncStatus",
                "ClearAllCounters",
                Json::empty(),
            ),
        );
    }
    let mut out = "clear_all_counters requires a hipTsEnc or hipEnc encoder on slot ".to_owned();
    out.append(text::decimal_of(slot as u64).as_str());
    out.append(
        ". This slot exposes no encoder-status module; commission an encoder service first.",
    );
    Err(CommandError::new("unsupported_on_card", out))
}

/// What is done for a command to install another version of the gateway.
pub open spec fn upgrade_plan(configured: bool, action: JsonView) -> Result<PlanView, CommandFault> {
    if !configured {
        Err(
            CommandFault::Coded {
                code: "upgrade_disabled"@,
                message: "remote upgrades not configured on this gateway — add an [upgrade] section to config.toml"@,
            },
        )
    } else {
        match json::text_of(action.get("version"@)) {
            Some(version) => match json::text_of(action.get("channel"@)) {
                Some(channel) => Ok(
                    PlanView::Upgrade {
                        version,
                        channel,
                        target_arch: json::text_of(action.get("target_arch"@)),
                        variant: json::text_of(action.get("variant"@)),
                    },
                ),
                None => Err(
                    CommandFault::Coded {
                        code: "upgrade_channel_not_allowed"@,
                        message: "upgrade_binary: missing 'channel'"@,
                    },
                ),
            },
            None => Err(
                CommandFault::Coded {
                    code: "upgrade_version_invalid"@,
                    message: "upgrade_binary: missing 'version'"@,
                },
            ),
        }
    }
}

/// What to do for a command to install another version of the gateway.
pub fn dispatch_upgrade_binary(configured: bool, action: &Json) -> (r: Result<Plan, CommandError>)
    ensures
        planned(r) == upgrade_plan(configured, action@),
{
    if !configured {
        return Err(
            CommandError::new(
                "upgrade_disabled",
                "remote upgrades not configured on this gateway — add an [upgrade] section to config.toml".to_owned(),
            ),
        );
    }
    let version = match json::string_in(action.get("version")) {
        Some(v) => v,
        None => {
            return Err(
                CommandError::new(
                    "upgrade_version_invalid",
                    "upgrade_binary: missing 'version'".to_owned(),
                ),
            );
        },
    };
    let channel = match json::string_in(action.get("channel")) {
        Some(v) => v,
        None => {
            return Err(
                CommandError::new(
                    "upgrade_channel_not_allowed",
                    "upgrade_binary: missing 'channel'".to_owned(),
                ),
            );
        },
    };
    Ok(
        Plan::Upgrade(
            UpgradeRequest {
                version,
                channel,
                target_arch: json::string_in(action.get("target_arch")),
                variant: json::string_in(action.get("variant")),
            },
        ),
    )
}

/// How long the gateway waits between the reply to an upgrade and its end, in seconds.
pub const UPGRADE_DRAIN_SECS: u64 = 5;

/// A version that was fetched and put in place.
#[derive(Debug)]
pub struct StagedUpgrade {
    pub from_version: String,
    pub to_version: String,
    pub channel: String,
    pub variant: Option<String>,
    pub arch: String,
}

/// What the manager is told of a version that was put in place.
pub open spec fn staged_reply(s: StagedUpgrade) -> JsonView {
    JsonView::Object(
        Map::empty().insert("status"@, JsonView::Text("staged"@)).insert(
            "from_version"@,
            JsonView::Text(s.from_version@),
        ).insert("to_version"@, JsonView::Text(s.to_version@)).insert(
            "channel"@,
            JsonView::Text(s.channel@),
        ).insert("variant"@, JsonView::of_text(json::string_view(s.variant))).insert(
            "arch"@,
            JsonView::Text(s.arch@),
        ),
    )
}

/// What the manager is told of a version that was put in place.
pub fn make_staged_reply(s: &StagedUpgrade) -> (r: Json)
    ensures
        r@ == staged_reply(*s),
{
    let mut o = Object::new();
    o.set("status", Json::from_text("staged"));
    o.set("from_version", Json::from_text(s.from_version.as_str()));
    o.set("to_version", Json::from_text(s.to_version.as_str()));
    o.set("channel", Json::from_text(s.channel.as_str()));
    o.set("variant", Json::from_option(s.variant.as_ref()));
    o.set("arch", Json::from_text(s.arch.as_str()));
    Json::Object(o)
}

/// The error for a call to the unit that failed, given the description of why it did.
pub fn make_vendor_error(description: String) -> (r: CommandError)
    ensures
        r@ == (CommandFault::Coded { code: "vendor_api_error"@, message: description@ }),
{
    CommandError::new("vendor_api_error", description)
}

/// The error for a call to the unit that failed, with the description that the error gives of
/// itself.
pub fn vendor_error(e: &anyhow::Error) -> (r: CommandError)
    ensures
        r@.code() == "vendor_api_error"@,
        r@ is Coded,
{
    make_vendor_error(reachability::describe(e))
}

/// What is done for a command.
pub open spec fn command_plan(
    caps: DeviceView,
    mmi: MmiVersions,
    upgrades: bool,
    action: JsonView,
) -> Result<PlanView, CommandFault> {
    match json::text_of(action.get("type"@)) {
        None => Err(CommandFault::Validation("missing action.type"@)),
        Some(name) => {
            let slot = slot_named(action);
            match card_command(name) {
                Some(c) => card_plan(caps, slot, name, c, action),
                None => if name == "get_alarms"@ {
                    Ok(
                        mmi_call(
                            mmi.alarms@,
                            "alarms"@,
                            "GetActiveAlarms"@,
                            probe_registry::empty_query(),
                        ),
                    )
                } else if name == "get_chassis"@ {
                    Ok(mmi_call(mmi.chassis@, "chassisModel"@, "GetGraph"@, json::no_members()))
                } else if name == "get_hip_encoders"@ {
                    hip_plan(caps, slot, true, false, action)
                } else if name == "set_hip_encoders"@ {
                    hip_plan(caps, slot, true, true, action)
                } else if name == "get_hip_decoders"@ {
                    hip_plan(caps, slot, false, false, action)
                } else if name == "set_hip_decoders"@ {
                    hip_plan(caps, slot, false, true, action)
                } else if name == "clear_all_counters"@ {
                    clear_plan(caps, slot)
                } else if name == "upgrade_binary"@ {
                    upgrade_plan(upgrades, action)
                } else {
                    Err(CommandFault::UnknownAction(name))
                },
            }
        },
    }
}

/// A call to the chassis.
pub open spec fn mmi_call(
    version: Seq<char>,
    module: Seq<char>,
    command: Seq<char>,
    params: JsonView,
) -> PlanView {
    PlanView::Call(
        RequestView {
            endpoint: Endpoint::Mmi,
            method: jsonrpc::method_name("mmi"@, version, module, command),
            params,
        },
    )
}

fn make_mmi_call(version: &str, module: &str, command: &str, params: Json) -> (r: Plan)
    ensures
        r@ == mmi_call(version@, module@, command@, params@),
{
    Plan::Call(
        Request {
            endpoint: Endpoint::Mmi,
            method: jsonrpc::make_method_name("mmi", version, module, command),
            params,
        },
    )
}

/// What takes commands once the unit was discovered.
#[derive(Debug)]
pub struct AppearXCommandHandler {
    pub state: SharedAppearXState,
    pub mmi: MmiVersions,
    /// Whether other versions of the gateway may be installed from the manager.
    pub upgrades: bool,
}

impl AppearXCommandHandler {
    /// A handler for the given unit.
    pub fn new(state: SharedAppearXState, mmi: MmiVersions, upgrades: bool) -> (r:
        AppearXCommandHandler)
        ensures
            r.state == state,
            r.mmi == mmi,
            r.upgrades == upgrades,
    {
        AppearXCommandHandler { state, mmi, upgrades }
    }

    /// What to do for a command.
    pub fn handle_command(&self, action: &Json) -> (r: Result<Plan, CommandError>)
        ensures
            planned(r) == command_plan(self.state@.caps, self.mmi, self.upgrades, action@),
    {
        let name = match json::str_in(action.get("type")) {
            Some(t) => t,
            None => {
                return Err(CommandError::Validation("missing action.type".to_owned()));
            },
        };
        let slot: u32 = find_slot_named(action);
        if let Some(c) = find_card_command(name) {
            return make_card_plan(&self.state, slot, name, &c, action);
        }
        if text::str_eq(name, "get_alarms") {
            Ok(
                make_mmi_call(
                    self.mmi.alarms.as_str(),
                    "alarms",
                    "GetActiveAlarms",
                    probe_registry::make_empty_query(),
                ),
            )
        } else if text::str_eq(name, "get_chassis") {
            Ok(
                make_mmi_call(
                    self.mmi.chassis.as_str(),
                    "chassisModel",
                    "GetGraph",
                    Json::empty(),
                ),
            )
        } else if text::str_eq(name, "get_hip_encoders") {
            hip_call(&self.state, slot, true, false, action)
        } else if text::str_eq(name, "set_hip_encoders") {
            hip_call(&self.state, slot, true, true, action)
        } else if text::str_eq(name, "get_hip_decoders") {
            hip_call(&self.state, slot, false, false, action)
        } else if text::str_eq(name, "set_hip_decoders") {
            hip_call(&self.state, slot, false, true, action)
        } else if text::str_eq(name, "clear_all_counters") {
            make_clear_plan(&self.state, slot)
        } else if text::str_eq(name, "upgrade_binary") {
            dispatch_upgrade_binary(self.upgrades, action)
        } else {
            Err(CommandError::UnknownAction(name.to_owned()))
        }
    }

    /// What the manager is told when it asks for the configuration: the whole state.
    pub fn on_config_request(&self) -> (r: Json)
        ensures
            exists|uptime: u64| r@ == #[trigger] state::snapshot_of(self.state@, uptime),
    {
        self.state.snapshot()
    }
}

/// What takes commands from the start on. Until the unit was discovered it refuses all of them but
/// the one to install another version of the gateway.
#[derive(Debug)]
pub struct DeferredAppearXHandler {
    pub inner: Option<AppearXCommandHandler>,
    /// Whether other versions of the gateway may be installed from the manager.
    pub upgrades: bool,
}

/// The error for a command that comes before the unit was discovered.
pub open spec fn not_discovered() -> CommandFault {
    CommandFault::Coded {
        code: "discovery_in_progress"@,
        message: "Appear X capability discovery has not completed — the chassis may be unreachable. Commands will be accepted once the sidecar can talk to the unit."@,
    }
}

/// What is done for a command, before and after the unit was discovered.
pub open spec fn deferred_plan(d: DeferredAppearXHandler, action: JsonView) -> Result<
    PlanView,
    CommandFault,
> {
    if json::text_of(action.get("type"@)) == Some("upgrade_binary"@) {
        upgrade_plan(d.upgrades, action)
    } else {
        match d.inner {
            Some(h) => command_plan(h.state@.caps, h.mmi, h.upgrades, action),
            None => Err(not_discovered()),
        }
    }
}

impl DeferredAppearXHandler {
    /// A handler for a unit that was not discovered yet.
    pub fn new(upgrades: bool) -> (r: DeferredAppearXHandler)
        ensures
            r.inner is None,
            r.upgrades == upgrades,
    {
        DeferredAppearXHandler { inner: None, upgrades }
    }

    /// Hands the commands over to a handler, unless they were handed over before.
    pub fn install(&mut self, handler: AppearXCommandHandler)
        ensures
            final(self).upgrades == old(self).upgrades,
            final(self).inner == match old(self).inner {
                Some(h) => Some(h),
                None => Some(handler),
            },
    {
        if self.inner.is_none() {
            self.inner = Some(handler);
        }
    }

    /// What to do for a command.
    pub fn handle_command(&self, action: &Json) -> (r: Result<Plan, CommandError>)
        ensures
            planned(r) == deferred_plan(*self, action@),
    {
        let is_upgrade = match json::str_in(action.get("type")) {
            Some(t) => text::str_eq(t, "upgrade_binary"),
            None => false,
        };
        if is_upgrade {
            return dispatch_upgrade_binary(self.upgrades, action);
        }
        match &self.inner {
            Some(h) => h.handle_command(action),
            None => Err(
                CommandError::new(
                    "discovery_in_progress",
                    "Appear X capability discovery has not completed — the chassis may be unreachable. Commands will be accepted once the sidecar can talk to the unit.".to_owned(),
                ),
            ),
        }
    }

    /// What the manager is told when it asks for the configuration.
    pub fn on_config_request(&self) -> (r: Json)
        ensures
            match self.inner {
                Some(h) => exists|uptime: u64|
                    r@ == #[trigger] state::snapshot_of(h.state@, uptime),
                None => r@ == one_member("discovery_in_progress"@, JsonView::Bool(true)),
            },
    {
        match &self.inner {
            Some(h) => h.on_config_request(),
            None => make_one_member("discovery_in_progress", Json::Bool(true)),
        }
    }
}

/// A card is only called in the slot that the command names, and only for a module that answered
/// there, with the version under which it answered. The chassis is only called for its alarms and
/// its model.
pub proof fn law_only_discovered_modules_are_called(
    caps: DeviceView,
    mmi: MmiVersions,
    upgrades: bool,
    action: JsonView,
)
    ensures
        command_plan(caps, mmi, upgrades, action) matches Ok(PlanView::Call(q)) ==> match q.endpoint {
            Endpoint::Board(slot) => {
                &&& slot == slot_named(action)
                &&& exists|i: Seq<char>, v: Seq<char>, m: Seq<char>, c: Seq<char>|
                    state::version_on(caps, slot, i, m) == Some(v) && q.method
                        == #[trigger] jsonrpc::method_name(i, v, m, c)
            },
            Endpoint::Mmi => json::text_of(action.get("type"@)) == Some("get_alarms"@)
                || json::text_of(action.get("type"@)) == Some("get_chassis"@),
        },
{
}

/// A command for a module that did not answer on the slot never reaches the unit; the error names
/// the command as it was sent.
pub proof fn law_missing_module_is_refused(
    caps: DeviceView,
    mmi: MmiVersions,
    upgrades: bool,
    action: JsonView,
    name: Seq<char>,
    c: CardView,
)
    requires
        json::text_of(action.get("type"@)) == Some(name),
        card_command(name) == Some(c),
        state::version_on(caps, slot_named(action), c.interface, c.module) is None,
    ensures
        command_plan(caps, mmi, upgrades, action) == Err::<PlanView, CommandFault>(
            unsupported(slot_named(action), name, c.interface + "/"@ + c.module),
        ),
{
}

/// The value of the last of the first `n` items that has a key.
pub open spec fn last_value(
    items: Seq<JsonView>,
    payload: Seq<char>,
    n: nat,
    key: Seq<char>,
) -> Option<JsonView>
    decreases n,
{
    if n == 0 {
        None
    } else {
        match keyed_item(items[n - 1], payload, (n - 1) as nat) {
            Ok(kv) => if kv.0 == key {
                Some(kv.1)
            } else {
                last_value(items, payload, (n - 1) as nat, key)
            },
            Err(_) => last_value(items, payload, (n - 1) as nat, key),
        }
    }
}

/// A list of keys and values is folded exactly if each item has a key that is not empty and a
/// value.
pub proof fn law_keyed_accepts(items: Seq<JsonView>, payload: Seq<char>, n: nat)
    requires
        n <= items.len(),
    ensures
        keyed(items, payload, n) is Ok <==> forall|i: int|
            0 <= i < n ==> {
                &&& #[trigger] items[i] is Object
                &&& json::text_of(items[i].get("key"@)) matches Some(key) && key.len() > 0
                &&& items[i].get("value"@) is Some
            },
    decreases n,
{
    if n > 0 {
        law_keyed_accepts(items, payload, (n - 1) as nat);
    }
}

/// In the object that a list of keys and values makes, each key has the value of the last item
/// that has it, and there is no other key.
pub proof fn law_keyed_members(items: Seq<JsonView>, payload: Seq<char>, n: nat, key: Seq<char>)
    requires
        n <= items.len(),
    ensures
        keyed(items, payload, n) matches Ok(m) ==> JsonView::Object(m).get(key) == last_value(
            items,
            payload,
            n,
            key,
        ),
    decreases n,
{
    if n > 0 {
        law_keyed_members(items, payload, (n - 1) as nat, key);
    }
}

/// What is written to an IP gateway board is what the command holds, as it stands.
pub proof fn law_inputs_pass_through(
    caps: DeviceView,
    mmi: MmiVersions,
    upgrades: bool,
    action: JsonView,
    version: Seq<char>,
    inputs: JsonView,
)
    requires
        json::text_of(action.get("type"@)) == Some("set_ip_input"@),
        action.get("inputs"@) == Some(inputs),
        state::version_on(caps, slot_named(action), "ipGateway"@, "input"@) == Some(version),
    ensures
        command_plan(caps, mmi, upgrades, action) == Ok::<PlanView, CommandFault>(
            board_call(
                slot_named(action),
                "ipGateway"@,
                version,
                "input"@,
                "SetInputs"@,
                one_member("data"@, inputs),
            ),
        ),
{
    reveal_strlit("set_ip_input");
    reveal_strlit("get_inputs");
    reveal_strlit("get_outputs");
    reveal_strlit("get_services");
    reveal_strlit("get_ip_interfaces");
    assert("get_inputs"@.len() != "set_ip_input"@.len());
    assert("get_outputs"@.len() != "set_ip_input"@.len());
    assert("get_services"@[0] != "set_ip_input"@[0]);
    assert("get_ip_interfaces"@.len() != "set_ip_input"@.len());
}

/// Before the unit was discovered every command is refused, but the one to install another version
/// of the gateway is taken as always.
pub proof fn law_before_discovery(d: DeferredAppearXHandler, action: JsonView)
    requires
        d.inner is None,
    ensures
        deferred_plan(d, action) == if json::text_of(action.get("type"@)) == Some(
            "upgrade_binary"@,
        ) {
            upgrade_plan(d.upgrades, action)
        } else {
            Err(not_discovered())
        },
{
}

/// Once the unit was discovered every command is taken as by the handler for it.
pub proof fn law_after_discovery(
    d: DeferredAppearXHandler,
    h: AppearXCommandHandler,
    action: JsonView,
)
    requires
        d.inner == Some(h),
        d.upgrades == h.upgrades,
    ensures
        deferred_plan(d, action) == command_plan(h.state@.caps, h.mmi, h.upgrades, action),
{
    let name = "upgrade_binary"@;
    if json::text_of(action.get("type"@)) == Some(name) {
        lemma_upgrade_is_no_call();
    }
}

proof fn lemma_upgrade_is_no_call()
    ensures
        card_command("upgrade_binary"@) is None,
        "upgrade_binary"@ != "get_alarms"@,
        "upgrade_binary"@ != "get_chassis"@,
        "upgrade_binary"@ != "get_hip_encoders"@,
        "upgrade_binary"@ != "set_hip_encoders"@,
        "upgrade_binary"@ != "get_hip_decoders"@,
        "upgrade_binary"@ != "set_hip_decoders"@,
        "upgrade_binary"@ != "clear_all_counters"@,
{
    reveal_strlit("upgrade_binary");
    assert("upgrade_binary"@[0] == 'u');
    reveal_strlit("get_inputs");
    assert("get_inputs"@[0] == 'g');
    reveal_strlit("get_outputs");
    assert("get_outputs"@[0] == 'g');
    reveal_strlit("get_services");
    assert("get_services"@[0] == 'g');
    reveal_strlit("get_ip_interfaces");
    assert("get_ip_interfaces"@[0] == 'g');
    reveal_strlit("set_ip_input");
    assert("set_ip_input"@[0] == 's');
    reveal_strlit("set_ip_output");
    assert("set_ip_output"@[0] == 's');
    reveal_strlit("get_card_status");
    assert("get_card_status"@[0] == 'g');
    reveal_strlit("get_coder_services");
    assert("get_coder_services"@[0] == 'g');
    reveal_strlit("get_multi_services");
    assert("get_multi_services"@[0] == 'g');
    reveal_strlit("get_audio_profiles");
    assert("get_audio_profiles"@[0] == 'g');
    reveal_strlit("get_xger_ip_interfaces");
    assert("get_xger_ip_interfaces"@[0] == 'g');
    reveal_strlit("get_card_allocations");
    assert("get_card_allocations"@[0] == 'g');
    reveal_strlit("get_pool_config");
    assert("get_pool_config"@[0] == 'g');
    reveal_strlit("get_lock_status");
    assert("get_lock_status"@[0] == 'g');
    reveal_strlit("get_psi_status");
    assert("get_psi_status"@[0] == 'g');
    reveal_strlit("get_images");
    assert("get_images"@[0] == 'g');
    reveal_strlit("set_coder_services");
    assert("set_coder_services"@[0] == 's');
    reveal_strlit("delete_coder_services");
    assert("delete_coder_services"@[0] == 'd');
    reveal_strlit("set_multi_services");
    assert("set_multi_services"@[0] == 's');
    reveal_strlit("delete_multi_services");
    assert("delete_multi_services"@[0] == 'd');
    reveal_strlit("set_audio_profiles");
    assert("set_audio_profiles"@[0] == 's');
    reveal_strlit("delete_audio_profiles");
    assert("delete_audio_profiles"@[0] == 'd');
    reveal_strlit("set_xger_ip_interfaces");
    assert("set_xger_ip_interfaces"@[0] == 's');
    reveal_strlit("delete_xger_ip_interfaces");
    assert("delete_xger_ip_interfaces"@[0] == 'd');
    reveal_strlit("set_card_allocations");
    assert("set_card_allocations"@[0] == 's');
    reveal_strlit("set_pool_config");
    assert("set_pool_config"@[0] == 's');
    reveal_strlit("get_ip_connections");
    assert("get_ip_connections"@[0] == 'g');
    reveal_strlit("set_ip_connections");
    assert("set_ip_connections"@[0] == 's');
    reveal_strlit("delete_ip_connections");
    assert("delete_ip_connections"@[0] == 'd');
    reveal_strlit("get_redundancy_groups");
    assert("get_redundancy_groups"@[0] == 'g');
    reveal_strlit("set_redundancy_groups");
    assert("set_redundancy_groups"@[0] == 's');
    reveal_strlit("delete_redundancy_groups");
    assert("delete_redundancy_groups"@[0] == 'd');
    reveal_strlit("get_redundancy_group_status");
    assert("get_redundancy_group_status"@[0] == 'g');
    reveal_strlit("get_dpi");
    assert("get_dpi"@[0] == 'g');
    reveal_strlit("set_dpi");
    assert("set_dpi"@[0] == 's');
    reveal_strlit("get_dpi_status");
    assert("get_dpi_status"@[0] == 'g');
    reveal_strlit("get_esam_config");
    assert("get_esam_config"@[0] == 'g');
    reveal_strlit("set_esam_config");
    assert("set_esam_config"@[0] == 's');
    reveal_strlit("get_esam_status");
    assert("get_esam_status"@[0] == 'g');
    reveal_strlit("get_scte35_config");
    assert("get_scte35_config"@[0] == 'g');
    reveal_strlit("set_scte35_config");
    assert("set_scte35_config"@[0] == 's');
    reveal_strlit("get_scte35_history");
    assert("get_scte35_history"@[0] == 'g');
    reveal_strlit("get_pois_server_status");
    assert("get_pois_server_status"@[0] == 'g');
    reveal_strlit("get_alarms");
    assert("get_alarms"@[0] == 'g');
    reveal_strlit("get_chassis");
    assert("get_chassis"@[0] == 'g');
    reveal_strlit("get_hip_encoders");
    assert("get_hip_encoders"@[0] == 'g');
    reveal_strlit("set_hip_encoders");
    assert("set_hip_encoders"@[0] == 's');
    reveal_strlit("get_hip_decoders");
    assert("get_hip_decoders"@[0] == 'g');
    reveal_strlit("set_hip_decoders");
    assert("set_hip_decoders"@[0] == 's');
    reveal_strlit("clear_all_counters");
    assert("clear_all_counters"@[0] == 'c');
}

} // verus!
