//! The report of the `probe` command: what the unit answers and what it is made of.

use vstd::prelude::*;

use crate::appear_x::capabilities::{
    self, DeviceCapabilities, DeviceView, DiscoveredInterfaceRecord, RecordView, SlotCapabilities,
    SlotView,
};
use crate::appear_x::health;
use crate::appear_x::jsonrpc::{self, Endpoint, Request, RequestView};
use crate::appear_x::polling;
use crate::appear_x::probe_registry;
use crate::config::{AppearXConfig, PollingConfig};
use crate::double::Double;
use crate::event::{self, Part, PartView};
use crate::json::{self, Json, JsonView, Reading};
use crate::slots;
use crate::text;

verus! {

/// How many bytes of an answer are shown.
pub const PREVIEW_BYTES: usize = 200;

/// A call to the chassis that is tried, and what it is called in the report.
#[derive(Debug)]
pub struct ProbeCall {
    pub label: &'static str,
    pub request: Request,
}

/// What a [`ProbeCall`] holds.
#[verifier::ext_equal]
pub struct ProbeCallView {
    pub label: Seq<char>,
    pub request: RequestView,
}

impl View for ProbeCall {
    type V = ProbeCallView;

    open spec fn view(&self) -> ProbeCallView {
        ProbeCallView { label: self.label@, request: self.request@ }
    }
}

/// What a list of calls holds.
pub open spec fn calls_view(s: Seq<ProbeCall>) -> Seq<ProbeCallView> {
    s.map_values(|c: ProbeCall| c@)
}

/// The calls to the chassis that are tried.
pub open spec fn chassis_calls(p: PollingConfig) -> Seq<ProbeCallView> {
    seq![
        ProbeCallView {
            label: "alarms"@,
            request: polling::mmi_request(
                p.alarms_mmi_version@,
                "alarms"@,
                "GetActiveAlarms"@,
                probe_registry::empty_query(),
            ),
        },
        ProbeCallView {
            label: "chassis"@,
            request: polling::mmi_request(
                p.chassis_mmi_version@,
                "chassisModel"@,
                "GetGraph"@,
                json::no_members(),
            ),
        },
        ProbeCallView {
            label: "cards/GetChassisInfo"@,
            request: polling::mmi_request(
                p.cards_mmi_version@,
                "cards"@,
                "GetChassisInfo"@,
                json::no_members(),
            ),
        },
        ProbeCallView {
            label: "cards/GetCardStates"@,
            request: polling::mmi_request(
                p.cards_mmi_version@,
                "cards"@,
                "GetCardStates"@,
                json::no_members(),
            ),
        },
    ]
}

/// The calls to the chassis that are tried: the same that are polled.
pub fn make_chassis_calls(p: &PollingConfig) -> (r: Vec<ProbeCall>)
    ensures
        calls_view(r@) == chassis_calls(*p),
{
    let mut out: Vec<ProbeCall> = Vec::new();
    out.push(
        ProbeCall {
            label: "alarms",
            request: polling::make_mmi_request(
                p.alarms_mmi_version.as_str(),
                "alarms",
                "GetActiveAlarms",
                probe_registry::make_empty_query(),
            ),
        },
    );
    out.push(
        ProbeCall {
            label: "chassis",
            request: polling::make_mmi_request(
                p.chassis_mmi_version.as_str(),
                "chassisModel",
                "GetGraph",
                Json::empty(),
            ),
        },
    );
    out.push(
        ProbeCall {
            label: "cards/GetChassisInfo",
            request: polling::make_mmi_request(
                p.cards_mmi_version.as_str(),
                "cards",
                "GetChassisInfo",
                Json::empty(),
            ),
        },
    );
    out.push(
        ProbeCall {
            label: "cards/GetCardStates",
            request: polling::make_mmi_request(
                p.cards_mmi_version.as_str(),
                "cards",
                "GetCardStates",
                Json::empty(),
            ),
        },
    );
    assert(calls_view(out@) == chassis_calls(*p));
    out
}

/// A text with spaces behind it, up to a width.
pub open spec fn widened(s: Seq<char>, width: nat) -> Seq<char> {
    if s.len() >= width {
        s
    } else {
        s + Seq::new((width - s.len()) as nat, |i: int| ' ')
    }
}

fn widen(s: &str, width: usize) -> (r: String)
    ensures
        r@ == widened(s@, width as nat),
{
    let chars = text::chars_of(s);
    let mut out = s.to_owned();
    let mut n: usize = chars.len();
    while n < width
        invariant
            s@.len() <= n,
            s@.len() >= width ==> n == s@.len() && out@ == s@,
            s@.len() < width ==> n <= width && out@ == s@ + Seq::new(
                (n - s@.len()) as nat,
                |i: int| ' ',
            ),
        decreases width - n,
    {
        out.push(' ');
        n = n + 1;
        assert(out@ == s@ + Seq::new((n - s@.len()) as nat, |i: int| ' '));
    }
    out
}

/// The first line of the report.
pub fn opening_line(config: &AppearXConfig) -> (r: String)
    ensures
        r@ == "Probing Appear X unit at https://"@ + config.address@ + " (user: "@
            + config.username@ + ")"@,
{
    let mut out = "Probing Appear X unit at https://".to_owned();
    out.append(config.address.as_str());
    out.append(" (user: ");
    out.append(config.username.as_str());
    out.append(")");
    out
}

/// One character more at the end adds its own bytes.
proof fn lemma_encode_push(s: Seq<char>, c: char)
    ensures
        vstd::utf8::encode_utf8(s.push(c)) == vstd::utf8::encode_utf8(s) + vstd::utf8::encode_scalar(c as u32),
    decreases s.len(),
{
    let longer = s.push(c);
    if s.len() == 0 {
        assert(longer.drop_first() == Seq::<char>::empty());
        assert(vstd::utf8::encode_utf8(longer.drop_first()) == Seq::<u8>::empty());
        assert(vstd::utf8::encode_utf8(s) == Seq::<u8>::empty());
        assert(vstd::utf8::encode_utf8(longer) == vstd::utf8::encode_utf8(s) + vstd::utf8::encode_scalar(c as u32));
    } else {
        assert(longer.drop_first() == s.drop_first().push(c));
        lemma_encode_push(s.drop_first(), c);
        assert(vstd::utf8::encode_utf8(longer) == vstd::utf8::encode_utf8(s) + vstd::utf8::encode_scalar(c as u32));
    }
}

/// How many bytes a character takes.
fn width_of(c: char) -> (r: usize)
    ensures
        r == vstd::utf8::encode_scalar(c as u32).len(),
        1 <= r <= 4,
{
    let v: u32 = c as u32;
    if v <= 0x7F {
        1
    } else if v <= 0x7FF {
        2
    } else if v <= 0xFFFF {
        3
    } else {
        4
    }
}

/// The beginning of an answer. Where the answer is too long, as many whole characters are kept as
/// fit, and an ellipsis takes the place of the rest.
pub fn preview(s: &str) -> (r: String)
    ensures
        vstd::utf8::encode_utf8(s@).len() <= PREVIEW_BYTES ==> r@ == s@,
        vstd::utf8::encode_utf8(s@).len() > PREVIEW_BYTES ==> exists|k: int|
            0 <= k < s@.len() && r@ == #[trigger] s@.take(k).push('…')
                && vstd::utf8::encode_utf8(s@.take(k)).len() <= PREVIEW_BYTES
                < vstd::utf8::encode_utf8(s@.take(k + 1)).len(),
{
    if s.as_bytes().len() <= PREVIEW_BYTES {
        return s.to_owned();
    }
    let chars = text::chars_of(s);
    let mut out = String::new();
    let mut bytes: usize = 0;
    let mut k: usize = 0;
    proof {
        assert(s@.take(0) == Seq::<char>::empty());
        assert(s@.take(s@.len() as int) == s@);
    }
    while k < chars.len()
        invariant
            chars@ == s@,
            k <= chars@.len(),
            out@ == s@.take(k as int),
            bytes == vstd::utf8::encode_utf8(s@.take(k as int)).len(),
            bytes <= PREVIEW_BYTES,
        ensures
            0 <= k < s@.len() ==> vstd::utf8::encode_utf8(s@.take(k + 1)).len() > PREVIEW_BYTES,
        decreases chars@.len() - k,
    {
        let width = width_of(chars[k]);
        proof {
            assert(s@.take(k + 1) == s@.take(k as int).push(s@[k as int]));
            lemma_encode_push(s@.take(k as int), s@[k as int]);
        }
        if width > PREVIEW_BYTES - bytes {
            break;
        }
        out.push(chars[k]);
        bytes = bytes + width;
        k = k + 1;
    }
    out.push('…');
    assert(out@ == s@.take(k as int).push('…'));
    out
}

/// The line for a call to the chassis.
pub open spec fn call_line(
    passed: bool,
    label: Seq<char>,
    method: Seq<char>,
    told: Seq<char>,
) -> Seq<char> {
    if passed {
        "  PASS  "@ + widened(label, 24) + " ("@ + method + ") -> "@ + told
    } else {
        "  FAIL  "@ + widened(label, 24) + " ("@ + method + ") -> "@ + told
    }
}

/// The line for a call to the chassis, with the beginning of the answer or the error.
pub fn make_call_line(passed: bool, label: &str, method: &str, told: &str) -> (r: String)
    ensures
        r@ == call_line(passed, label@, method@, told@),
{
    let mut out = if passed {
        "  PASS  ".to_owned()
    } else {
        "  FAIL  ".to_owned()
    };
    out.append(widen(label, 24).as_str());
    out.append(" (");
    out.append(method);
    out.append(") -> ");
    out.append(told);
    out
}

/// Texts with a separator between them.
pub open spec fn joined(list: Seq<Seq<char>>, separator: Seq<char>) -> Seq<char>
    decreases list.len(),
{
    if list.len() == 0 {
        Seq::empty()
    } else if list.len() == 1 {
        list[0]
    } else {
        joined(list.drop_last(), separator) + separator + list.last()
    }
}

/// Texts with a separator between them.
pub fn join(list: &Vec<String>, separator: &str) -> (r: String)
    ensures
        r@ == joined(json::strings_view(list@), separator@),
{
    let mut out = String::new();
    let ghost all = json::strings_view(list@);
    for i in 0..list.len()
        invariant
            all == json::strings_view(list@),
            out@ == joined(all.take(i as int), separator@),
    {
        let ghost before = out@;
        assert(all.take(i + 1).drop_last() == all.take(i as int));
        assert(all.take(i + 1).last() == list@[i as int]@);
        if i > 0 {
            out.append(separator);
        }
        out.append(list[i].as_str());
        assert(out@ == joined(all.take(i + 1), separator@)) by {
            if i > 0 {
                assert(out@ == before + separator@ + list@[i as int]@);
            } else {
                assert(out@ == list@[i as int]@);
            }
        }
    }
    assert(all.take(all.len() as int) == all);
    out
}

/// The line for a module that answered.
pub open spec fn record_line(r: RecordView) -> Seq<char> {
    "         ✓ "@ + r.key() + ":"@ + r.version + "  (family="@ + r.family + ")  via "@
        + r.probe_method
}

fn make_record_line(r: &DiscoveredInterfaceRecord) -> (s: String)
    ensures
        s@ == record_line(r@),
{
    let mut out = "         ✓ ".to_owned();
    out.append(
        capabilities::make_module_key(r.interface.as_str(), r.module.as_str()).as_str(),
    );
    out.append(":");
    out.append(r.version.as_str());
    out.append("  (family=");
    out.append(r.family.as_str());
    out.append(")  via ");
    out.append(r.probe_method.as_str());
    out
}

/// The lines for a slot.
pub open spec fn slot_lines(slot: u32, s: SlotView) -> Seq<Seq<char>> {
    let first = "  Slot "@ + text::decimal(slot as nat) + ": "@ + s.name + " sn="@ + s.serial
        + " sw="@ + json::text_or(s.software_id, "?"@) + " ver="@ + json::text_or(
        s.software_version,
        "?"@,
    );
    let features = if s.features.len() == 0 {
        Seq::empty()
    } else {
        seq!["         features: "@ + joined(s.features, ", "@)]
    };
    let modules = if s.modules.len() == 0 {
        seq![
            "         no card-level modules matched the probe registry — this firmware uses a namespace not yet registered in src/appear_x/probe_registry.rs"@,
        ]
    } else {
        s.modules.map_values(|r: RecordView| record_line(r))
    };
    seq![first] + features + modules
}

fn text_or_unknown(o: &Option<String>) -> (r: &str)
    ensures
        r@ == json::text_or(json::string_view(*o), "?"@),
{
    match o {
        Some(s) => s.as_str(),
        None => "?",
    }
}

fn push_slot_lines(out: &mut Vec<String>, slot: u32, s: &SlotCapabilities)
    ensures
        json::strings_view(final(out)@) == json::strings_view(old(out)@) + slot_lines(slot, s@),
{
    let ghost before = json::strings_view(out@);
    let mut first = "  Slot ".to_owned();
    first.append(text::decimal_of(slot as u64).as_str());
    first.append(": ");
    first.append(s.name.as_str());
    first.append(" sn=");
    first.append(s.serial.as_str());
    first.append(" sw=");
    first.append(text_or_unknown(&s.software_id));
    first.append(" ver=");
    first.append(text_or_unknown(&s.software_version));
    let ghost fv = first@;
    out.push(first);
    assert(json::strings_view(out@) == before + seq![fv]);
    if s.features.len() > 0 {
        let ghost so_far = json::strings_view(out@);
        let mut line = "         features: ".to_owned();
        line.append(join(&s.features, ", ").as_str());
        let ghost lv = line@;
        out.push(line);
        assert(json::strings_view(out@) == so_far + seq![lv]);
    }
    let ghost so_far = json::strings_view(out@);
    if s.discovered_modules.len() == 0 {
        out.push(
            "         no card-level modules matched the probe registry — this firmware uses a namespace not yet registered in src/appear_x/probe_registry.rs".to_owned(),
        );
        assert(json::strings_view(out@) == so_far + seq![
            "         no card-level modules matched the probe registry — this firmware uses a namespace not yet registered in src/appear_x/probe_registry.rs"@,
        ]);
    } else {
        let ghost lines = s@.modules.map_values(|r: RecordView| record_line(r));
        assert(so_far == so_far + lines.take(0));
        for i in 0..s.discovered_modules.len()
            invariant
                lines == s@.modules.map_values(|r: RecordView| record_line(r)),
                json::strings_view(out@) == so_far + lines.take(i as int),
        {
            let ghost now = json::strings_view(out@);
            let line = make_record_line(&s.discovered_modules[i]);
            let ghost lv = line@;
            out.push(line);
            assert(json::strings_view(out@) == now.push(lv));
            assert(lines.take(i + 1) == lines.take(i as int).push(lv));
            assert(json::strings_view(out@) == so_far + lines.take(i + 1));
        }
        assert(lines.take(lines.len() as int) == lines);
    }
    assert(json::strings_view(out@) == before + slot_lines(slot, s@));
}

/// Adds the lines for one slot.
pub open spec fn add_slot_lines() -> spec_fn(Seq<Seq<char>>, u32, SlotView) -> Seq<Seq<char>> {
    |lines: Seq<Seq<char>>, slot: u32, s: SlotView| lines + slot_lines(slot, s)
}

/// The lines that tell what the unit is made of.
pub open spec fn device_lines(d: DeviceView) -> Seq<Seq<char>> {
    let first = seq![
        "Discovered capabilities:"@,
        "  Chassis: "@ + d.chassis_type + " (MMI cards/* version: "@ + d.cards_mmi_version
            + ")"@,
    ];
    let head = if d.slots.len() == 0 {
        first.push("  (no card slots reported)"@)
    } else {
        first
    };
    slots::fold_slots(d.slots, slots::slot_limit(), head, add_slot_lines())
}

/// The lines that tell what the unit is made of.
pub fn make_device_lines(d: &DeviceCapabilities) -> (r: Vec<String>)
    ensures
        json::strings_view(r@) == device_lines(d@),
{
    broadcast use vstd::std_specs::btree::group_btree_axioms;

    let mut out: Vec<String> = Vec::new();
    out.push("Discovered capabilities:".to_owned());
    let mut line = "  Chassis: ".to_owned();
    line.append(d.chassis_type.as_str());
    line.append(" (MMI cards/* version: ");
    line.append(d.cards_mmi_version.as_str());
    line.append(")");
    out.push(line);
    assert(d@.slots.dom() == d.slots@.dom());
    if d.slots.len() == 0 {
        out.push("  (no card slots reported)".to_owned());
    }
    let ghost head = json::strings_view(out@);
    let ghost first = seq![
        "Discovered capabilities:"@,
        "  Chassis: "@ + d@.chassis_type + " (MMI cards/* version: "@ + d@.cards_mmi_version
            + ")"@,
    ];
    assert(head == if d@.slots.len() == 0 {
        first.push("  (no card slots reported)"@)
    } else {
        first
    });
    let entries = slots::entries_of(&d.slots);
    let n: usize = entries.len();
    for i in 0..n
        invariant
            n == entries@.len(),
            slots::lists(entries@, d.slots@),
            json::strings_view(out@) == slots::fold_slots(
                d@.slots,
                slots::bound(entries@, i as int),
                head,
                add_slot_lines(),
            ),
    {
        proof {
            slots::lemma_fold_step_views(entries@, d.slots@, i as int, head, add_slot_lines());
        }
        push_slot_lines(&mut out, entries[i].0, entries[i].1);
    }
    proof {
        slots::lemma_fold_end_views(entries@, d.slots@, head, add_slot_lines());
    }
    out
}

/// The command that reads a module of the card manager.
pub open spec fn reading_command(module: Seq<char>) -> Option<Seq<char>> {
    if module == "cardAllocation"@ {
        Some("GetCardAllocations"@)
    } else if module == "multiService"@ {
        Some("GetMultiServices"@)
    } else if module == "audioProfile"@ {
        Some("GetAudioProfiles"@)
    } else if module == "ipInterface"@ {
        Some("GetIpInterfaces"@)
    } else if module == "imageUpload"@ {
        Some("GetImages"@)
    } else if module == "poolConfig"@ {
        Some("GetPoolConfig"@)
    } else if module == "coderService"@ {
        Some("GetCoderServices"@)
    } else if module == "ipConnection"@ {
        Some("GetIpConnections"@)
    } else if module == "lockStatus"@ {
        Some("GetLockStatus"@)
    } else if module == "psiStatus"@ {
        Some("GetPsiStatus"@)
    } else {
        None
    }
}

fn find_reading_command(module: &str) -> (r: Option<&'static str>)
    ensures
        json::text_view(r) == reading_command(module@),
{
    if text::str_eq(module, "cardAllocation") {
        Some("GetCardAllocations")
    } else if text::str_eq(module, "multiService") {
        Some("GetMultiServices")
    } else if text::str_eq(module, "audioProfile") {
        Some("GetAudioProfiles")
    } else if text::str_eq(module, "ipInterface") {
        Some("GetIpInterfaces")
    } else if text::str_eq(module, "imageUpload") {
        Some("GetImages")
    } else if text::str_eq(module, "poolConfig") {
        Some("GetPoolConfig")
    } else if text::str_eq(module, "coderService") {
        Some("GetCoderServices")
    } else if text::str_eq(module, "ipConnection") {
        Some("GetIpConnections")
    } else if text::str_eq(module, "lockStatus") {
        Some("GetLockStatus")
    } else if text::str_eq(module, "psiStatus") {
        Some("GetPsiStatus")
    } else {
        None
    }
}

/// What comes after the first slash of a text.
pub open spec fn after_slash(s: Seq<char>) -> Option<Seq<char>>
    decreases s.len(),
{
    if s.len() == 0 {
        None
    } else if s[0] == '/' {
        Some(s.subrange(1, s.len() as int))
    } else {
        after_slash(s.subrange(1, s.len() as int))
    }
}

fn find_after_slash(s: &str) -> (r: Option<String>)
    ensures
        json::string_view(r) == after_slash(s@),
{
    let chars = text::chars_of(s);
    let n: usize = chars.len();
    let mut i: usize = 0;
    assert(s@.subrange(0, n as int) == s@);
    while i < n
        invariant
            chars@ == s@,
            n == s@.len(),
            i <= n,
            after_slash(s@.subrange(i as int, n as int)) == after_slash(s@),
        decreases n - i,
    {
        let ghost rest = s@.subrange(i as int, n as int);
        assert(rest.subrange(1, rest.len() as int) == s@.subrange(i + 1, n as int));
        if chars[i] == '/' {
            let mut out = String::new();
            for j in i + 1..n
                invariant
                    chars@ == s@,
                    n == s@.len(),
                    i < n,
                    out@ == s@.subrange(i + 1, j as int),
            {
                out.push(chars[j]);
                assert(s@.subrange(i + 1, j as int).push(s@[j as int]) == s@.subrange(
                    i + 1,
                    j + 1,
                ));
            }
            return Some(out);
        }
        i = i + 1;
    }
    None
}

/// A call to a card that is tried once.
#[derive(Debug)]
pub struct SlotCheck {
    /// What the call is called in the report. The one for the state of the card has no name.
    pub module: Option<String>,
    pub request: Request,
}

/// What a [`SlotCheck`] holds.
#[verifier::ext_equal]
pub struct CheckView {
    pub module: Option<Seq<char>>,
    pub request: RequestView,
}

impl View for SlotCheck {
    type V = CheckView;

    open spec fn view(&self) -> CheckView {
        CheckView { module: json::string_view(self.module), request: self.request@ }
    }
}

/// What a list of calls to a card holds.
pub open spec fn checks_view(s: Seq<SlotCheck>) -> Seq<CheckView> {
    s.map_values(|c: SlotCheck| c@)
}

/// The call for the state of a card.
pub open spec fn status_check(slot: u32, s: SlotView) -> CheckView {
    let version = match capabilities::find_interface(s.modules, "Xger"@) {
        Some(r) => r.version,
        None => "2.55"@,
    };
    CheckView {
        module: None,
        request: RequestView {
            endpoint: Endpoint::Board(slot),
            method: jsonrpc::method_name("Xger"@, version, "cardStatus"@, "GetCardStatus"@),
            params: probe_registry::slot_params(slot),
        },
    }
}

/// The call for a module that answered, where it is one that is read here.
pub open spec fn module_check(slot: u32, r: RecordView) -> Option<CheckView> {
    if r.key() == "Xger/cardStatus"@ {
        None
    } else {
        match after_slash(r.key()) {
            Some(module) => match reading_command(module) {
                Some(command) => Some(
                    CheckView {
                        module: Some(module),
                        request: RequestView {
                            endpoint: Endpoint::Board(slot),
                            method: jsonrpc::method_name("Xger"@, r.version, module, command),
                            params: json::no_members(),
                        },
                    },
                ),
                None => None,
            },
            None => None,
        }
    }
}

/// The calls for the first `n` modules.
pub open spec fn module_checks(slot: u32, records: Seq<RecordView>, n: nat) -> Seq<CheckView>
    decreases n,
{
    if n == 0 {
        Seq::empty()
    } else {
        let before = module_checks(slot, records, (n - 1) as nat);
        match module_check(slot, records[n - 1]) {
            Some(c) => before.push(c),
            None => before,
        }
    }
}

/// The calls to a card that are tried once. A card without modules is not asked.
pub open spec fn slot_checks(slot: u32, s: SlotView) -> Seq<CheckView> {
    if s.modules.len() == 0 {
        Seq::empty()
    } else {
        seq![status_check(slot, s)] + module_checks(slot, s.modules, s.modules.len())
    }
}

fn make_module_check(slot: u32, rec: &DiscoveredInterfaceRecord) -> (r: Option<SlotCheck>)
    ensures
        match r {
            Some(c) => module_check(slot, rec@) == Some(c@),
            None => module_check(slot, rec@) is None,
        },
{
    let key = capabilities::make_module_key(rec.interface.as_str(), rec.module.as_str());
    if text::str_eq(key.as_str(), "Xger/cardStatus") {
        return None;
    }
    match find_after_slash(key.as_str()) {
        Some(module) => match find_reading_command(module.as_str()) {
            Some(command) => {
                let method = jsonrpc::make_method_name(
                    "Xger",
                    rec.version.as_str(),
                    module.as_str(),
                    command,
                );
                Some(
                    SlotCheck {
                        module: Some(module),
                        request: Request {
                            endpoint: Endpoint::Board(slot),
                            method,
                            params: Json::empty(),
                        },
                    },
                )
            },
            None => None,
        },
        None => None,
    }
}

/// The calls to a card that are tried once.
pub fn make_slot_checks(slot: u32, s: &SlotCapabilities) -> (r: Vec<SlotCheck>)
    ensures
        checks_view(r@) == slot_checks(slot, s@),
{
    let mut out: Vec<SlotCheck> = Vec::new();
    assert(checks_view(out@) == Seq::<CheckView>::empty());
    if s.discovered_modules.len() == 0 {
        return out;
    }
    let version = match s.any_interface_version("Xger") {
        Some(v) => v,
        None => "2.55".to_owned(),
    };
    out.push(
        SlotCheck {
            module: None,
            request: Request {
                endpoint: Endpoint::Board(slot),
                method: jsonrpc::make_method_name(
                    "Xger",
                    version.as_str(),
                    "cardStatus",
                    "GetCardStatus",
                ),
                params: probe_registry::make_slot_params(slot),
            },
        },
    );
    let ghost first = seq![status_check(slot, s@)];
    assert(checks_view(out@) == first + module_checks(slot, s@.modules, 0));
    for i in 0..s.discovered_modules.len()
        invariant
            checks_view(out@) == first + module_checks(slot, s@.modules, i as nat),
    {
        let ghost now = checks_view(out@);
        assert(s@.modules[i as int] == s.discovered_modules@[i as int]@);
        match make_module_check(slot, &s.discovered_modules[i]) {
            Some(c) => {
                let ghost cv = c@;
                out.push(c);
                assert(checks_view(out@) == now.push(cv));
                assert(checks_view(out@) == first + module_checks(
                    slot,
                    s@.modules,
                    (i + 1) as nat,
                ));
            },
            None => {},
        }
    }
    out
}

/// The line for a module that was read.
pub open spec fn module_line(module: Seq<char>, result: JsonView, size: nat) -> Seq<char> {
    let count = match json::items_of(result.get("data"@)) {
        Some(a) => a.len(),
        None => 0,
    };
    "    "@ + widened(module, 20) + " OK  (data.len="@ + text::decimal(count)
        + ", response bytes="@ + text::decimal(size) + ")"@
}

/// The line for a module that was read, with the number of bytes that its answer has as text.
pub fn make_module_line(module: &str, result: &Json, size: usize) -> (r: String)
    ensures
        r@ == module_line(module@, result@, size as nat),
{
    let count: usize = match result.get("data") {
        Some(d) => match d.as_array() {
            Some(a) => a.len(),
            None => 0,
        },
        None => 0,
    };
    let mut out = "    ".to_owned();
    out.append(widen(module, 20).as_str());
    out.append(" OK  (data.len=");
    out.append(text::decimal_of(count as u64).as_str());
    out.append(", response bytes=");
    out.append(text::decimal_of(size as u64).as_str());
    out.append(")");
    out
}

/// The line for a module that could not be read.
pub fn make_module_error_line(module: &str, error: &str) -> (r: String)
    ensures
        r@ == "    "@ + widened(module@, 20) + " ERR "@ + error@,
{
    let mut out = "    ".to_owned();
    out.append(widen(module, 20).as_str());
    out.append(" ERR ");
    out.append(error);
    out
}

/// What the report says of the clock of a card.
pub open spec fn clock_word(status: JsonView) -> Seq<char> {
    match status.get("ptpLock"@) {
        Some(lock) => if lock.empty_object() {
            "no-signal"@
        } else {
            json::text_or(health::ptp_state(status), "unknown"@)
        },
        None => "unknown"@,
    }
}

/// One measurement of light: in dBm, or nothing where there is no optic.
pub open spec fn light_parts(r: Reading) -> Seq<PartView> {
    if r.value.positive() {
        seq![PartView::Fixed { value: r.dbm, decimals: 1 }, PartView::Text("dBm"@)]
    } else {
        seq![PartView::Text("--"@)]
    }
}

/// Measurements of light with commas between them.
pub open spec fn lights(powers: Seq<Reading>) -> Seq<PartView>
    decreases powers.len(),
{
    if powers.len() == 0 {
        Seq::empty()
    } else if powers.len() == 1 {
        light_parts(powers[0])
    } else {
        lights(powers.drop_last()) + seq![PartView::Text(", "@)] + light_parts(powers.last())
    }
}

/// The line for a port that has diagnostics.
pub open spec fn port_line(port: JsonView) -> Seq<PartView> {
    let name = json::text_or(json::text_of(port.get("key"@)), "?"@);
    seq![PartView::Text("      port "@ + name + ": temp="@)] + match health::reading_in(
        health::diagnostics(port),
        "temp"@,
    ) {
        Some(t) => seq![PartView::Fixed { value: t.value, decimals: 1 }, PartView::Text("°C"@)],
        None => seq![PartView::Text("?"@)],
    } + seq![PartView::Text("  rx=["@)] + lights(health::rx_powers(port)) + seq![
        PartView::Text("]"@),
    ]
}

/// The lines for the first `n` ports.
pub open spec fn port_lines(ports: Seq<JsonView>, n: nat) -> Seq<Seq<PartView>>
    decreases n,
{
    if n == 0 {
        Seq::empty()
    } else {
        let before = port_lines(ports, (n - 1) as nat);
        if health::diagnostics(ports[n - 1]) is Some {
            before.push(port_line(ports[n - 1]))
        } else {
            before
        }
    }
}

/// The last line for a card: the least light and the highest temperature.
pub open spec fn worst_line(ports: Seq<JsonView>) -> Seq<PartView> {
    seq![PartView::Text("    → worst_rx="@)] + match health::worst_light(ports) {
        Some(d) => seq![PartView::Fixed { value: d, decimals: 1 }, PartView::Text(" dBm"@)],
        None => seq![PartView::Text("no-signal"@)],
    } + seq![PartView::Text("  max_temp="@)] + match health::worst_heat(ports) {
        Some(d) => seq![PartView::Fixed { value: d, decimals: 1 }, PartView::Text(" °C"@)],
        None => seq![PartView::Text("-"@)],
    }
}

/// The lines for the state of a card.
pub open spec fn status_lines(status: JsonView) -> Seq<Seq<PartView>> {
    let ports = health::port_entries(status);
    seq![seq![PartView::Text("    cardStatus          OK  ptp="@ + clock_word(status))]]
        + port_lines(ports, ports.len()) + seq![worst_line(ports)]
}

/// A line of a report, in pieces.
#[derive(Debug)]
pub struct Line {
    pub parts: Vec<Part>,
}

impl View for Line {
    type V = Seq<PartView>;

    open spec fn view(&self) -> Seq<PartView> {
        event::parts_view(self.parts@)
    }
}

/// What a list of lines holds.
pub open spec fn lines_view(s: Seq<Line>) -> Seq<Seq<PartView>> {
    s.map_values(|l: Line| l@)
}

impl Line {
    fn new() -> (r: Line)
        ensures
            r@ == Seq::<PartView>::empty(),
    {
        let r = Line { parts: Vec::new() };
        assert(r@ == Seq::<PartView>::empty());
        r
    }

    fn text(&mut self, s: &str)
        ensures
            final(self)@ == old(self)@ + seq![PartView::Text(s@)],
    {
        self.parts.push(Part::Text(s.to_owned()));
        assert(self@ == old(self)@ + seq![PartView::Text(s@)]);
    }

    fn fixed(&mut self, value: Double, unit: &str)
        ensures
            final(self)@ == old(self)@ + seq![
                PartView::Fixed { value, decimals: 1 },
                PartView::Text(unit@),
            ],
    {
        self.parts.push(Part::Fixed { value, decimals: 1 });
        self.parts.push(Part::Text(unit.to_owned()));
        assert(self@ == old(self)@ + seq![
            PartView::Fixed { value, decimals: 1 },
            PartView::Text(unit@),
        ]);
    }
}

fn push_lights(line: &mut Line, powers: &Vec<Reading>)
    ensures
        final(line)@ == old(line)@ + lights(powers@),
{
    let ghost before = line@;
    assert(before == before + lights(powers@.take(0)));
    for i in 0..powers.len()
        invariant
            line@ == before + lights(powers@.take(i as int)),
    {
        assert(powers@.take(i + 1).drop_last() == powers@.take(i as int));
        let ghost r = powers@[i as int];
        let ghost so_far = line@;
        if i > 0 {
            line.text(", ");
        }
        if powers[i].value.is_positive() {
            line.fixed(powers[i].dbm, "dBm");
        } else {
            line.text("--");
        }
        assert(line@ == before + lights(powers@.take(i + 1))) by {
            if i > 0 {
                assert(line@ == so_far + seq![PartView::Text(", "@)] + light_parts(r));
                assert(lights(powers@.take(i + 1)) == lights(powers@.take(i as int)) + seq![
                    PartView::Text(", "@),
                ] + light_parts(r));
            } else {
                assert(line@ == so_far + light_parts(r));
                assert(lights(powers@.take(i + 1)) == light_parts(r));
                assert(lights(powers@.take(0)) == Seq::<PartView>::empty());
            }
        }
    }
    assert(powers@.take(powers@.len() as int) == powers@);
}

fn make_port_line(port: &Json) -> (r: Line)
    ensures
        r@ == port_line(port@),
{
    let mut name = "      port ".to_owned();
    name.append(json::string_or(port.get("key"), "?").as_str());
    name.append(": temp=");
    let diag = health::find_diagnostics(port);
    let mut line = Line::new();
    line.text(name.as_str());
    match health::find_reading(diag, "temp") {
        Some(t) => {
            line.fixed(t.value, "°C");
        },
        None => {
            line.text("?");
        },
    }
    line.text("  rx=[");
    let powers = match json::get_in(diag, "rxPwr") {
        Some(j) => match j.as_array() {
            Some(a) => health::collect_readings(a),
            None => Vec::new(),
        },
        None => Vec::new(),
    };
    assert(powers@ == health::rx_powers(port@));
    push_lights(&mut line, &powers);
    line.text("]");
    assert(line@ == port_line(port@));
    line
}

fn make_worst_line(status: &Json) -> (r: Line)
    ensures
        r@ == worst_line(health::port_entries(status@)),
{
    let mut line = Line::new();
    line.text("    → worst_rx=");
    match health::min_rx_dbm(status) {
        Some(d) => {
            line.fixed(d, " dBm");
        },
        None => {
            line.text("no-signal");
        },
    }
    line.text("  max_temp=");
    match health::max_temp(status) {
        Some(d) => {
            line.fixed(d, " °C");
        },
        None => {
            line.text("-");
        },
    }
    assert(line@ == worst_line(health::port_entries(status@)));
    line
}

/// The lines for the state of a card.
pub fn print_card_status_summary(status: &Json) -> (r: Vec<Line>)
    ensures
        lines_view(r@) == status_lines(status@),
{
    let mut out: Vec<Line> = Vec::new();
    let mut first = "    cardStatus          OK  ptp=".to_owned();
    match status.get("ptpLock") {
        Some(lock) => if lock.is_empty_object() {
            first.append("no-signal");
        } else {
            match health::ptp_state_of(status) {
                Some(s) => {
                    first.append(s.as_str());
                },
                None => {
                    first.append("unknown");
                },
            }
        },
        None => {
            first.append("unknown");
        },
    }
    let mut line = Line::new();
    line.text(first.as_str());
    let ghost head = seq![
        seq![PartView::Text("    cardStatus          OK  ptp="@ + clock_word(status@))],
    ];
    assert(line@ == head[0]);
    out.push(line);
    let ports = health::list_ports(status);
    let ghost all = health::port_entries(status@);
    assert(lines_view(out@) == head + port_lines(all, 0));
    for i in 0..ports.len()
        invariant
            ports@.len() == all.len(),
            forall|k: int| 0 <= k < ports@.len() ==> (#[trigger] ports@[k])@ == all[k],
            lines_view(out@) == head + port_lines(all, i as nat),
    {
        let ghost now = lines_view(out@);
        assert(ports@[i as int]@ == all[i as int]);
        if health::find_diagnostics(ports[i]).is_some() {
            let line = make_port_line(ports[i]);
            let ghost lv = line@;
            out.push(line);
            assert(lines_view(out@) == now.push(lv));
            assert(lines_view(out@) == head + port_lines(all, (i + 1) as nat));
        }
    }
    let ghost now = lines_view(out@);
    let line = make_worst_line(status);
    let ghost lv = line@;
    out.push(line);
    assert(lines_view(out@) == now + seq![lv]);
    out
}

} // verus!
