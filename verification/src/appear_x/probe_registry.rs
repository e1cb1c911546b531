//! The card interfaces that discovery asks every slot for.
//!
//! A card does not tell which interfaces it has, so each known one is tried with a command that
//! only reads. Versions are tried newest first.

use vstd::prelude::*;

use crate::appear_x::capabilities;
use crate::json::{self, Json, JsonView, Object};
use crate::text;

verus! {

/// One card interface to try: `<interface>:<version>/<module>/<command>`.
#[derive(Debug)]
pub struct ProbeEntry {
    /// The family the interface belongs to. It is not sent.
    pub family: &'static str,
    pub interface: &'static str,
    pub module: &'static str,
    pub command: &'static str,
    /// The versions to try, newest first.
    pub versions: Vec<&'static str>,
    pub params: ProbeParams,
}

/// The parameters that a probe sends.
#[derive(Clone, Copy, Debug, PartialEq, Eq, Structural)]
pub enum ProbeParams {
    /// `{}`
    Empty,
    /// `{"query": {}}`
    EmptyQuery,
    /// `{"slot": <n>}`
    Slot,
}

/// What a [`ProbeEntry`] holds.
pub struct ProbeView {
    pub family: Seq<char>,
    pub interface: Seq<char>,
    pub module: Seq<char>,
    pub command: Seq<char>,
    pub versions: Seq<Seq<char>>,
    pub params: ProbeParams,
}

/// What a list of texts holds.
pub open spec fn texts(s: Seq<&'static str>) -> Seq<Seq<char>> {
    s.map_values(|t: &'static str| t@)
}

impl View for ProbeEntry {
    type V = ProbeView;

    open spec fn view(&self) -> ProbeView {
        ProbeView {
            family: self.family@,
            interface: self.interface@,
            module: self.module@,
            command: self.command@,
            versions: texts(self.versions@),
            params: self.params,
        }
    }
}

/// What a list of entries holds.
pub open spec fn entries_view(s: Seq<ProbeEntry>) -> Seq<ProbeView> {
    s.map_values(|e: ProbeEntry| e@)
}

impl ProbeParams {
    /// The parameters for a slot.
    pub open spec fn body(self, slot: u32) -> JsonView {
        match self {
            ProbeParams::Empty => json::no_members(),
            ProbeParams::EmptyQuery => empty_query(),
            ProbeParams::Slot => slot_params(slot),
        }
    }

    /// The parameters for a slot.
    pub fn to_json(&self, slot: u32) -> (r: Json)
        ensures
            r@ == self.body(slot),
    {
        match self {
            ProbeParams::Empty => Json::empty(),
            ProbeParams::EmptyQuery => make_empty_query(),
            ProbeParams::Slot => make_slot_params(slot),
        }
    }
}

/// `{"query": {}}`
pub open spec fn empty_query() -> JsonView {
    JsonView::Object(Map::empty().insert("query"@, json::no_members()))
}

/// `{"slot": <n>}`
pub open spec fn slot_params(slot: u32) -> JsonView {
    JsonView::Object(Map::empty().insert("slot"@, JsonView::of_unsigned(slot as nat)))
}

/// `{"query": {}}`
pub fn make_empty_query() -> (r: Json)
    ensures
        r@ == empty_query(),
{
    let mut o = Object::new();
    o.set("query", Json::empty());
    Json::Object(o)
}

/// `{"slot": <n>}`
pub fn make_slot_params(slot: u32) -> (r: Json)
    ensures
        r@ == slot_params(slot),
{
    let mut o = Object::new();
    o.set("slot", Json::from_u64(slot as u64));
    Json::Object(o)
}

/// An entry whose family has the name of its interface.
pub open spec fn probe(
    interface: Seq<char>,
    module: Seq<char>,
    command: Seq<char>,
    versions: Seq<Seq<char>>,
    params: ProbeParams,
) -> ProbeView {
    ProbeView { family: interface, interface, module, command, versions, params }
}

fn entry(
    interface: &'static str,
    module: &'static str,
    command: &'static str,
    versions: Vec<&'static str>,
    params: ProbeParams,
) -> (r: ProbeEntry)
    ensures
        r@ == probe(interface@, module@, command@, texts(versions@), params),
{
    ProbeEntry { family: interface, interface, module, command, versions, params }
}

/// The IP gateway boards.
pub open spec fn ip_gateway_probes() -> Seq<ProbeView> {
    seq![
        probe("ipGateway"@, "input"@, "GetInputs"@, seq!["1.20"@, "1.16"@, "1.15"@, "1.14"@, "1.10"@], ProbeParams::Empty),
        probe("ipGateway"@, "output"@, "GetOutputs"@, seq!["1.20"@, "1.16"@, "1.15"@, "1.14"@, "1.10"@], ProbeParams::Empty),
        probe("ipGateway"@, "ipinterface"@, "GetIpInterfaces"@, seq!["1.20"@, "1.16"@, "1.15"@, "1.14"@, "1.10"@], ProbeParams::Empty),
    ]
}

/// The services that boards share.
pub open spec fn board_services_probes() -> Seq<ProbeView> {
    seq![
        probe("board"@, "services"@, "GetInputServices"@, seq!["2.16"@, "2.8"@, "4.1"@, "1.15"@], ProbeParams::EmptyQuery),
    ]
}

/// The card manager. `cardStatus` wants the slot among its parameters; the other modules take
/// it from the address.
pub open spec fn card_manager_probes() -> Seq<ProbeView> {
    seq![
        probe("Xger"@, "cardStatus"@, "GetCardStatus"@, seq!["2.55"@, "2.54"@, "2.53"@, "2.52"@, "2.49"@, "2.44"@], ProbeParams::Slot),
        probe("Xger"@, "cardAllocation"@, "GetCardAllocations"@, seq!["2.55"@, "2.54"@, "2.53"@, "2.52"@, "2.49"@], ProbeParams::Empty),
        probe("Xger"@, "multiService"@, "GetMultiServices"@, seq!["2.55"@, "2.54"@, "2.53"@, "2.52"@, "2.49"@, "2.16"@], ProbeParams::Empty),
        probe("Xger"@, "audioProfile"@, "GetAudioProfiles"@, seq!["2.55"@, "2.54"@, "2.53"@, "2.52"@, "2.49"@, "2.6"@], ProbeParams::Empty),
        probe("Xger"@, "ipInterface"@, "GetIpInterfaces"@, seq!["2.55"@, "2.54"@, "2.53"@, "2.52"@, "2.49"@], ProbeParams::Empty),
        probe("Xger"@, "imageUpload"@, "GetImages"@, seq!["2.55"@, "2.54"@, "2.53"@, "2.52"@, "2.49"@], ProbeParams::Empty),
        probe("Xger"@, "poolConfig"@, "GetPoolConfig"@, seq!["2.55"@, "2.54"@, "2.53"@, "2.52"@, "2.49"@], ProbeParams::Empty),
        probe("Xger"@, "coderService"@, "GetCoderServices"@, seq!["2.55"@, "2.54"@, "2.53"@, "2.52"@, "2.49"@, "2.44"@, "2.40"@], ProbeParams::Empty),
        probe("Xger"@, "ipConnection"@, "GetIpConnections"@, seq!["2.55"@, "2.54"@, "2.53"@, "2.52"@, "2.49"@], ProbeParams::Empty),
        probe("Xger"@, "lockStatus"@, "GetLockStatus"@, seq!["2.55"@, "2.54"@, "2.53"@, "2.52"@, "2.49"@], ProbeParams::Empty),
        probe("Xger"@, "psiStatus"@, "GetPsiStatus"@, seq!["2.55"@, "2.54"@, "2.53"@, "2.52"@, "2.49"@], ProbeParams::Empty),
    ]
}

/// The JPEG XS encoders.
pub open spec fn hip_enc_probes() -> Seq<ProbeView> {
    seq![
        probe("hipEnc"@, "hipCardSettings"@, "GetCardSettings"@, seq!["1.7"@, "1.5"@, "1.2"@, "1.0"@], ProbeParams::Empty),
        probe("hipEnc"@, "hipEncoder"@, "GetEncoders"@, seq!["1.7"@, "1.4"@, "1.0"@], ProbeParams::Empty),
        probe("hipEnc"@, "hipEncStatus"@, "GetEncoderTransportStatus"@, seq!["1.7"@, "1.6"@, "1.4"@, "1.0"@], ProbeParams::Empty),
        probe("hipEnc"@, "hipIpInterface"@, "GetIpInterfaces"@, seq!["1.7"@, "1.2"@, "1.0"@], ProbeParams::Empty),
        probe("hipEnc"@, "hipNetworkStatus"@, "GetNetworkStatus"@, seq!["1.7"@, "1.3"@, "1.0"@], ProbeParams::Empty),
    ]
}

/// The HEVC encoders.
pub open spec fn hip_ts_enc_probes() -> Seq<ProbeView> {
    seq![
        probe("hipTsEnc"@, "hipTsEncoder"@, "GetEncoders"@, seq!["1.11"@, "1.7"@, "1.0"@], ProbeParams::Empty),
        probe("hipTsEnc"@, "hipEncStatus"@, "GetEncoderTransportStatus"@, seq!["1.11"@, "1.6"@, "1.0"@], ProbeParams::Empty),
    ]
}

/// The SDI cards.
pub open spec fn sdi_probes() -> Seq<ProbeView> {
    seq![
        probe("sdi"@, "cardinfo"@, "GetCardInfo"@, seq!["1.24"@, "1.23"@, "1.18"@, "1.2"@, "1.0"@], ProbeParams::Empty),
        probe("sdi"@, "cardsettings"@, "GetCardSettings"@, seq!["1.24"@, "1.23"@, "1.0"@], ProbeParams::Empty),
        probe("sdi"@, "physicalports"@, "GetPhysicalPorts"@, seq!["1.24"@, "1.23"@, "1.17"@], ProbeParams::Empty),
        probe("sdi"@, "portstatus"@, "GetPortStatus"@, seq!["1.24"@, "1.23"@, "1.20"@], ProbeParams::Empty),
    ]
}

/// All card interfaces that are tried on every slot, in the order in which they are tried.
pub open spec fn all_probes() -> Seq<ProbeView> {
    ip_gateway_probes() + board_services_probes() + card_manager_probes() + hip_enc_probes() + hip_ts_enc_probes() + sdi_probes()
}

fn make_ip_gateway_probes() -> (r: Vec<ProbeEntry>)
    ensures
        entries_view(r@) == ip_gateway_probes(),
{
    let mut out: Vec<ProbeEntry> = Vec::new();
    let versions = vec!["1.20", "1.16", "1.15", "1.14", "1.10"];
    assert(texts(versions@) == seq!["1.20"@, "1.16"@, "1.15"@, "1.14"@, "1.10"@]);
    out.push(entry("ipGateway", "input", "GetInputs", versions, ProbeParams::Empty));
    let versions = vec!["1.20", "1.16", "1.15", "1.14", "1.10"];
    assert(texts(versions@) == seq!["1.20"@, "1.16"@, "1.15"@, "1.14"@, "1.10"@]);
    out.push(entry("ipGateway", "output", "GetOutputs", versions, ProbeParams::Empty));
    let versions = vec!["1.20", "1.16", "1.15", "1.14", "1.10"];
    assert(texts(versions@) == seq!["1.20"@, "1.16"@, "1.15"@, "1.14"@, "1.10"@]);
    out.push(entry("ipGateway", "ipinterface", "GetIpInterfaces", versions, ProbeParams::Empty));
    out
}

fn make_board_services_probes() -> (r: Vec<ProbeEntry>)
    ensures
        entries_view(r@) == board_services_probes(),
{
    let mut out: Vec<ProbeEntry> = Vec::new();
    let versions = vec!["2.16", "2.8", "4.1", "1.15"];
    assert(texts(versions@) == seq!["2.16"@, "2.8"@, "4.1"@, "1.15"@]);
    out.push(entry("board", "services", "GetInputServices", versions, ProbeParams::EmptyQuery));
    out
}

fn make_card_manager_probes() -> (r: Vec<ProbeEntry>)
    ensures
        entries_view(r@) == card_manager_probes(),
{
    let mut out: Vec<ProbeEntry> = Vec::new();
    let versions = vec!["2.55", "2.54", "2.53", "2.52", "2.49", "2.44"];
    assert(texts(versions@) == seq!["2.55"@, "2.54"@, "2.53"@, "2.52"@, "2.49"@, "2.44"@]);
    out.push(entry("Xger", "cardStatus", "GetCardStatus", versions, ProbeParams::Slot));
    let versions = vec!["2.55", "2.54", "2.53", "2.52", "2.49"];
    assert(texts(versions@) == seq!["2.55"@, "2.54"@, "2.53"@, "2.52"@, "2.49"@]);
    out.push(entry("Xger", "cardAllocation", "GetCardAllocations", versions, ProbeParams::Empty));
    let versions = vec!["2.55", "2.54", "2.53", "2.52", "2.49", "2.16"];
    assert(texts(versions@) == seq!["2.55"@, "2.54"@, "2.53"@, "2.52"@, "2.49"@, "2.16"@]);
    out.push(entry("Xger", "multiService", "GetMultiServices", versions, ProbeParams::Empty));
    let versions = vec!["2.55", "2.54", "2.53", "2.52", "2.49", "2.6"];
    assert(texts(versions@) == seq!["2.55"@, "2.54"@, "2.53"@, "2.52"@, "2.49"@, "2.6"@]);
    out.push(entry("Xger", "audioProfile", "GetAudioProfiles", versions, ProbeParams::Empty));
    let versions = vec!["2.55", "2.54", "2.53", "2.52", "2.49"];
    assert(texts(versions@) == seq!["2.55"@, "2.54"@, "2.53"@, "2.52"@, "2.49"@]);
    out.push(entry("Xger", "ipInterface", "GetIpInterfaces", versions, ProbeParams::Empty));
    let versions = vec!["2.55", "2.54", "2.53", "2.52", "2.49"];
    assert(texts(versions@) == seq!["2.55"@, "2.54"@, "2.53"@, "2.52"@, "2.49"@]);
    out.push(entry("Xger", "imageUpload", "GetImages", versions, ProbeParams::Empty));
    let versions = vec!["2.55", "2.54", "2.53", "2.52", "2.49"];
    assert(texts(versions@) == seq!["2.55"@, "2.54"@, "2.53"@, "2.52"@, "2.49"@]);
    out.push(entry("Xger", "poolConfig", "GetPoolConfig", versions, ProbeParams::Empty));
    let versions = vec!["2.55", "2.54", "2.53", "2.52", "2.49", "2.44", "2.40"];
    assert(texts(versions@) == seq!["2.55"@, "2.54"@, "2.53"@, "2.52"@, "2.49"@, "2.44"@, "2.40"@]);
    out.push(entry("Xger", "coderService", "GetCoderServices", versions, ProbeParams::Empty));
    let versions = vec!["2.55", "2.54", "2.53", "2.52", "2.49"];
    assert(texts(versions@) == seq!["2.55"@, "2.54"@, "2.53"@, "2.52"@, "2.49"@]);
    out.push(entry("Xger", "ipConnection", "GetIpConnections", versions, ProbeParams::Empty));
    let versions = vec!["2.55", "2.54", "2.53", "2.52", "2.49"];
    assert(texts(versions@) == seq!["2.55"@, "2.54"@, "2.53"@, "2.52"@, "2.49"@]);
    out.push(entry("Xger", "lockStatus", "GetLockStatus", versions, ProbeParams::Empty));
    let versions = vec!["2.55", "2.54", "2.53", "2.52", "2.49"];
    assert(texts(versions@) == seq!["2.55"@, "2.54"@, "2.53"@, "2.52"@, "2.49"@]);
    out.push(entry("Xger", "psiStatus", "GetPsiStatus", versions, ProbeParams::Empty));
    out
}

fn make_hip_enc_probes() -> (r: Vec<ProbeEntry>)
    ensures
        entries_view(r@) == hip_enc_probes(),
{
    let mut out: Vec<ProbeEntry> = Vec::new();
    let versions = vec!["1.7", "1.5", "1.2", "1.0"];
    assert(texts(versions@) == seq!["1.7"@, "1.5"@, "1.2"@, "1.0"@]);
    out.push(entry("hipEnc", "hipCardSettings", "GetCardSettings", versions, ProbeParams::Empty));
    let versions = vec!["1.7", "1.4", "1.0"];
    assert(texts(versions@) == seq!["1.7"@, "1.4"@, "1.0"@]);
    out.push(entry("hipEnc", "hipEncoder", "GetEncoders", versions, ProbeParams::Empty));
    let versions = vec!["1.7", "1.6", "1.4", "1.0"];
    assert(texts(versions@) == seq!["1.7"@, "1.6"@, "1.4"@, "1.0"@]);
    out.push(entry("hipEnc", "hipEncStatus", "GetEncoderTransportStatus", versions, ProbeParams::Empty));
    let versions = vec!["1.7", "1.2", "1.0"];
    assert(texts(versions@) == seq!["1.7"@, "1.2"@, "1.0"@]);
    out.push(entry("hipEnc", "hipIpInterface", "GetIpInterfaces", versions, ProbeParams::Empty));
    let versions = vec!["1.7", "1.3", "1.0"];
    assert(texts(versions@) == seq!["1.7"@, "1.3"@, "1.0"@]);
    out.push(entry("hipEnc", "hipNetworkStatus", "GetNetworkStatus", versions, ProbeParams::Empty));
    out
}

fn make_hip_ts_enc_probes() -> (r: Vec<ProbeEntry>)
    ensures
        entries_view(r@) == hip_ts_enc_probes(),
{
    let mut out: Vec<ProbeEntry> = Vec::new();
    let versions = vec!["1.11", "1.7", "1.0"];
    assert(texts(versions@) == seq!["1.11"@, "1.7"@, "1.0"@]);
    out.push(entry("hipTsEnc", "hipTsEncoder", "GetEncoders", versions, ProbeParams::Empty));
    let versions = vec!["1.11", "1.6", "1.0"];
    assert(texts(versions@) == seq!["1.11"@, "1.6"@, "1.0"@]);
    out.push(entry("hipTsEnc", "hipEncStatus", "GetEncoderTransportStatus", versions, ProbeParams::Empty));
    out
}

fn make_sdi_probes() -> (r: Vec<ProbeEntry>)
    ensures
        entries_view(r@) == sdi_probes(),
{
    let mut out: Vec<ProbeEntry> = Vec::new();
    let versions = vec!["1.24", "1.23", "1.18", "1.2", "1.0"];
    assert(texts(versions@) == seq!["1.24"@, "1.23"@, "1.18"@, "1.2"@, "1.0"@]);
    out.push(entry("sdi", "cardinfo", "GetCardInfo", versions, ProbeParams::Empty));
    let versions = vec!["1.24", "1.23", "1.0"];
    assert(texts(versions@) == seq!["1.24"@, "1.23"@, "1.0"@]);
    out.push(entry("sdi", "cardsettings", "GetCardSettings", versions, ProbeParams::Empty));
    let versions = vec!["1.24", "1.23", "1.17"];
    assert(texts(versions@) == seq!["1.24"@, "1.23"@, "1.17"@]);
    out.push(entry("sdi", "physicalports", "GetPhysicalPorts", versions, ProbeParams::Empty));
    let versions = vec!["1.24", "1.23", "1.20"];
    assert(texts(versions@) == seq!["1.24"@, "1.23"@, "1.20"@]);
    out.push(entry("sdi", "portstatus", "GetPortStatus", versions, ProbeParams::Empty));
    out
}

/// All card interfaces to try on every slot, in the order in which they are to be tried.
pub fn card_probes() -> (r: Vec<ProbeEntry>)
    ensures
        entries_view(r@) == all_probes(),
{
    let mut out = make_ip_gateway_probes();
    let mut more = make_board_services_probes();
    let ghost before = entries_view(out@);
    out.append(&mut more);
    assert(entries_view(out@) == before + board_services_probes());
    let mut more = make_card_manager_probes();
    let ghost before = entries_view(out@);
    out.append(&mut more);
    assert(entries_view(out@) == before + card_manager_probes());
    let mut more = make_hip_enc_probes();
    let ghost before = entries_view(out@);
    out.append(&mut more);
    assert(entries_view(out@) == before + hip_enc_probes());
    let mut more = make_hip_ts_enc_probes();
    let ghost before = entries_view(out@);
    out.append(&mut more);
    assert(entries_view(out@) == before + hip_ts_enc_probes());
    let mut more = make_sdi_probes();
    let ghost before = entries_view(out@);
    out.append(&mut more);
    assert(entries_view(out@) == before + sdi_probes());
    out
}

/// Whether a command only reads.
pub open spec fn only_reads(command: Seq<char>) -> bool {
    text::has_prefix(command, "Get"@)
}

/// What is tried on a card only reads, and each interface is tried with at least one version.
pub proof fn law_probes_only_read(i: int)
    requires
        0 <= i < all_probes().len(),
    ensures
        only_reads(all_probes()[i].command),
        all_probes()[i].versions.len() > 0,
{
    reveal_strlit("Get");
    reveal_strlit("GetInputs");
    assert("GetInputs"@.subrange(0, 3) == "Get"@);
    reveal_strlit("GetOutputs");
    assert("GetOutputs"@.subrange(0, 3) == "Get"@);
    reveal_strlit("GetIpInterfaces");
    assert("GetIpInterfaces"@.subrange(0, 3) == "Get"@);
    reveal_strlit("GetInputServices");
    assert("GetInputServices"@.subrange(0, 3) == "Get"@);
    reveal_strlit("GetCardStatus");
    assert("GetCardStatus"@.subrange(0, 3) == "Get"@);
    reveal_strlit("GetCardAllocations");
    assert("GetCardAllocations"@.subrange(0, 3) == "Get"@);
    reveal_strlit("GetMultiServices");
    assert("GetMultiServices"@.subrange(0, 3) == "Get"@);
    reveal_strlit("GetAudioProfiles");
    assert("GetAudioProfiles"@.subrange(0, 3) == "Get"@);
    reveal_strlit("GetImages");
    assert("GetImages"@.subrange(0, 3) == "Get"@);
    reveal_strlit("GetPoolConfig");
    assert("GetPoolConfig"@.subrange(0, 3) == "Get"@);
    reveal_strlit("GetCoderServices");
    assert("GetCoderServices"@.subrange(0, 3) == "Get"@);
    reveal_strlit("GetIpConnections");
    assert("GetIpConnections"@.subrange(0, 3) == "Get"@);
    reveal_strlit("GetLockStatus");
    assert("GetLockStatus"@.subrange(0, 3) == "Get"@);
    reveal_strlit("GetPsiStatus");
    assert("GetPsiStatus"@.subrange(0, 3) == "Get"@);
    reveal_strlit("GetCardSettings");
    assert("GetCardSettings"@.subrange(0, 3) == "Get"@);
    reveal_strlit("GetEncoders");
    assert("GetEncoders"@.subrange(0, 3) == "Get"@);
    reveal_strlit("GetEncoderTransportStatus");
    assert("GetEncoderTransportStatus"@.subrange(0, 3) == "Get"@);
    reveal_strlit("GetNetworkStatus");
    assert("GetNetworkStatus"@.subrange(0, 3) == "Get"@);
    reveal_strlit("GetCardInfo");
    assert("GetCardInfo"@.subrange(0, 3) == "Get"@);
    reveal_strlit("GetPhysicalPorts");
    assert("GetPhysicalPorts"@.subrange(0, 3) == "Get"@);
    reveal_strlit("GetPortStatus");
    assert("GetPortStatus"@.subrange(0, 3) == "Get"@);
}

impl ProbeView {
    /// The name under which the module is recorded.
    pub open spec fn key(self) -> Seq<char> {
        capabilities::module_key(self.interface, self.module)
    }
}

/// Tells the names of the entries apart by their length and two of their letters.
spec fn mark(name: Seq<char>) -> int {
    (name.len() * 256 + name[5] as int) * 256 + name.last() as int
}

/// Where the entry with a name stands.
spec fn place(name: Seq<char>) -> int {
    if mark(name) == 1009012 {
        0
    } else if mark(name) == 1074548 {
        1
    } else if mark(name) == 1402213 {
        2
    } else if mark(name) == 929651 {
        3
    } else if mark(name) == 1008499 {
        4
    } else if mark(name) == 1270638 {
        5
    } else if mark(name) == 1142117 {
        6
    } else if mark(name) == 1139045 {
        7
    } else if mark(name) == 1075557 {
        8
    } else if mark(name) == 1075556 {
        9
    } else if mark(name) == 1011815 {
        10
    } else if mark(name) == 1139557 {
        11
    } else if mark(name) == 1141102 {
        12
    } else if mark(name) == 1010803 {
        13
    } else if mark(name) == 946291 {
        14
    } else if mark(name) == 1467251 {
        15
    } else if mark(name) == 1139570 {
        16
    } else if mark(name) == 1270643 {
        17
    } else if mark(name) == 1401701 {
        18
    } else if mark(name) == 1532787 {
        19
    } else if mark(name) == 1394034 {
        20
    } else if mark(name) == 1394035 {
        21
    } else if mark(name) == 811375 {
        22
    } else if mark(name) == 1073523 {
        23
    } else if mark(name) == 1140851 {
        24
    } else if mark(name) == 946035 {
        25
    } else {
        -1
    }
}

proof fn lemma_place(i: int)
    requires
        0 <= i < all_probes().len(),
    ensures
        place(all_probes()[i].key()) == i,
{
    assert(mark(capabilities::module_key("ipGateway"@, "input"@)) == 1009012) by {
        reveal_strlit("ipGateway");
        reveal_strlit("/");
        reveal_strlit("input");
    }
    assert(mark(capabilities::module_key("ipGateway"@, "output"@)) == 1074548) by {
        reveal_strlit("ipGateway");
        reveal_strlit("/");
        reveal_strlit("output");
    }
    assert(mark(capabilities::module_key("ipGateway"@, "ipinterface"@)) == 1402213) by {
        reveal_strlit("ipGateway");
        reveal_strlit("/");
        reveal_strlit("ipinterface");
    }
    assert(mark(capabilities::module_key("board"@, "services"@)) == 929651) by {
        reveal_strlit("board");
        reveal_strlit("/");
        reveal_strlit("services");
    }
    assert(mark(capabilities::module_key("Xger"@, "cardStatus"@)) == 1008499) by {
        reveal_strlit("Xger");
        reveal_strlit("/");
        reveal_strlit("cardStatus");
    }
    assert(mark(capabilities::module_key("Xger"@, "cardAllocation"@)) == 1270638) by {
        reveal_strlit("Xger");
        reveal_strlit("/");
        reveal_strlit("cardAllocation");
    }
    assert(mark(capabilities::module_key("Xger"@, "multiService"@)) == 1142117) by {
        reveal_strlit("Xger");
        reveal_strlit("/");
        reveal_strlit("multiService");
    }
    assert(mark(capabilities::module_key("Xger"@, "audioProfile"@)) == 1139045) by {
        reveal_strlit("Xger");
        reveal_strlit("/");
        reveal_strlit("audioProfile");
    }
    assert(mark(capabilities::module_key("Xger"@, "ipInterface"@)) == 1075557) by {
        reveal_strlit("Xger");
        reveal_strlit("/");
        reveal_strlit("ipInterface");
    }
    assert(mark(capabilities::module_key("Xger"@, "imageUpload"@)) == 1075556) by {
        reveal_strlit("Xger");
        reveal_strlit("/");
        reveal_strlit("imageUpload");
    }
    assert(mark(capabilities::module_key("Xger"@, "poolConfig"@)) == 1011815) by {
        reveal_strlit("Xger");
        reveal_strlit("/");
        reveal_strlit("poolConfig");
    }
    assert(mark(capabilities::module_key("Xger"@, "coderService"@)) == 1139557) by {
        reveal_strlit("Xger");
        reveal_strlit("/");
        reveal_strlit("coderService");
    }
    assert(mark(capabilities::module_key("Xger"@, "ipConnection"@)) == 1141102) by {
        reveal_strlit("Xger");
        reveal_strlit("/");
        reveal_strlit("ipConnection");
    }
    assert(mark(capabilities::module_key("Xger"@, "lockStatus"@)) == 1010803) by {
        reveal_strlit("Xger");
        reveal_strlit("/");
        reveal_strlit("lockStatus");
    }
    assert(mark(capabilities::module_key("Xger"@, "psiStatus"@)) == 946291) by {
        reveal_strlit("Xger");
        reveal_strlit("/");
        reveal_strlit("psiStatus");
    }
    assert(mark(capabilities::module_key("hipEnc"@, "hipCardSettings"@)) == 1467251) by {
        reveal_strlit("hipEnc");
        reveal_strlit("/");
        reveal_strlit("hipCardSettings");
    }
    assert(mark(capabilities::module_key("hipEnc"@, "hipEncoder"@)) == 1139570) by {
        reveal_strlit("hipEnc");
        reveal_strlit("/");
        reveal_strlit("hipEncoder");
    }
    assert(mark(capabilities::module_key("hipEnc"@, "hipEncStatus"@)) == 1270643) by {
        reveal_strlit("hipEnc");
        reveal_strlit("/");
        reveal_strlit("hipEncStatus");
    }
    assert(mark(capabilities::module_key("hipEnc"@, "hipIpInterface"@)) == 1401701) by {
        reveal_strlit("hipEnc");
        reveal_strlit("/");
        reveal_strlit("hipIpInterface");
    }
    assert(mark(capabilities::module_key("hipEnc"@, "hipNetworkStatus"@)) == 1532787) by {
        reveal_strlit("hipEnc");
        reveal_strlit("/");
        reveal_strlit("hipNetworkStatus");
    }
    assert(mark(capabilities::module_key("hipTsEnc"@, "hipTsEncoder"@)) == 1394034) by {
        reveal_strlit("hipTsEnc");
        reveal_strlit("/");
        reveal_strlit("hipTsEncoder");
    }
    assert(mark(capabilities::module_key("hipTsEnc"@, "hipEncStatus"@)) == 1394035) by {
        reveal_strlit("hipTsEnc");
        reveal_strlit("/");
        reveal_strlit("hipEncStatus");
    }
    assert(mark(capabilities::module_key("sdi"@, "cardinfo"@)) == 811375) by {
        reveal_strlit("sdi");
        reveal_strlit("/");
        reveal_strlit("cardinfo");
    }
    assert(mark(capabilities::module_key("sdi"@, "cardsettings"@)) == 1073523) by {
        reveal_strlit("sdi");
        reveal_strlit("/");
        reveal_strlit("cardsettings");
    }
    assert(mark(capabilities::module_key("sdi"@, "physicalports"@)) == 1140851) by {
        reveal_strlit("sdi");
        reveal_strlit("/");
        reveal_strlit("physicalports");
    }
    assert(mark(capabilities::module_key("sdi"@, "portstatus"@)) == 946035) by {
        reveal_strlit("sdi");
        reveal_strlit("/");
        reveal_strlit("portstatus");
    }
}

/// No two entries have the same name, so that none is recorded in the place of another.
pub proof fn law_probe_names_differ(i: int, j: int)
    requires
        0 <= i < all_probes().len(),
        0 <= j < all_probes().len(),
        i != j,
    ensures
        all_probes()[i].key() != all_probes()[j].key(),
{
    lemma_place(i);
    lemma_place(j);
}

} // verus!
