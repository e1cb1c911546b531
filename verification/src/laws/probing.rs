//! What a trial run asks the unit and prints.

use vstd::prelude::*;

use crate::appear_x::capabilities::{self, DeviceView, RecordView, SlotView};
use crate::appear_x::health;
use crate::appear_x::jsonrpc::Endpoint;
use crate::config::{AppearXConfig, PollingConfig};
use crate::double::Double;
use crate::event::PartView;
use crate::json::{JsonView, Reading};
use crate::laws::{events, health as told, polling, values};
use crate::probe::{self, CheckView, ProbeCallView};
use crate::slots;
use crate::text;

verus! {

/// Tells the modules apart by their length and some of their letters.
spec fn mark(name: Seq<char>) -> int {
    (name.len() as int) * 256 + values::letter(name, 3)
}

proof fn lemma_names()
    ensures
        mark("cardAllocation"@) == 3684,
        mark("multiService"@) == 3188,
        mark("audioProfile"@) == 3177,
        mark("ipInterface"@) == 2926,
        mark("imageUpload"@) == 2919,
        mark("poolConfig"@) == 2668,
        mark("coderService"@) == 3173,
        mark("ipConnection"@) == 3183,
        mark("lockStatus"@) == 2667,
        mark("psiStatus"@) == 2387,
{
    assert(mark("cardAllocation"@) == 3684) by {
        reveal_strlit("cardAllocation");
    }
    assert(mark("multiService"@) == 3188) by {
        reveal_strlit("multiService");
    }
    assert(mark("audioProfile"@) == 3177) by {
        reveal_strlit("audioProfile");
    }
    assert(mark("ipInterface"@) == 2926) by {
        reveal_strlit("ipInterface");
    }
    assert(mark("imageUpload"@) == 2919) by {
        reveal_strlit("imageUpload");
    }
    assert(mark("poolConfig"@) == 2668) by {
        reveal_strlit("poolConfig");
    }
    assert(mark("coderService"@) == 3173) by {
        reveal_strlit("coderService");
    }
    assert(mark("ipConnection"@) == 3183) by {
        reveal_strlit("ipConnection");
    }
    assert(mark("lockStatus"@) == 2667) by {
        reveal_strlit("lockStatus");
    }
    assert(mark("psiStatus"@) == 2387) by {
        reveal_strlit("psiStatus");
    }
}

/// Whether a call to the chassis has the given label and asks for the given thing.
pub open spec fn asks(
    c: ProbeCallView,
    label: Seq<char>,
    version: Seq<char>,
    module: Seq<char>,
    command: Seq<char>,
    params: JsonView,
) -> bool {
    &&& c.label == label
    &&& c.request.endpoint == Endpoint::Mmi
    &&& c.request.method == "mmi"@ + ":"@ + version + "/"@ + module + "/"@ + command
    &&& c.request.params == params
}

/// A trial run asks the chassis for its alarms, its graph, its cards and their states.
pub proof fn law_trial_calls(p: PollingConfig)
    ensures
        ({
            let calls = probe::chassis_calls(p);
            &&& calls.len() == 4
            &&& asks(
                calls[0],
                "alarms"@,
                p.alarms_mmi_version@,
                "alarms"@,
                "GetActiveAlarms"@,
                JsonView::Object(Map::empty().insert("query"@, JsonView::Object(Map::empty()))),
            )
            &&& asks(
                calls[1],
                "chassis"@,
                p.chassis_mmi_version@,
                "chassisModel"@,
                "GetGraph"@,
                JsonView::Object(Map::empty()),
            )
            &&& asks(
                calls[2],
                "cards/GetChassisInfo"@,
                p.cards_mmi_version@,
                "cards"@,
                "GetChassisInfo"@,
                JsonView::Object(Map::empty()),
            )
            &&& asks(
                calls[3],
                "cards/GetCardStates"@,
                p.cards_mmi_version@,
                "cards"@,
                "GetCardStates"@,
                JsonView::Object(Map::empty()),
            )
        }),
{
}

/// Whether a text is another with spaces behind it up to a width.
pub open spec fn padded(t: Seq<char>, s: Seq<char>, width: nat) -> bool {
    &&& s.is_prefix_of(t)
    &&& t.len() == (if s.len() < width {
        width
    } else {
        s.len()
    })
    &&& forall|i: int| s.len() <= i < t.len() ==> #[trigger] t[i] == ' '
}

/// A column is filled up with spaces to its width.
pub proof fn law_columns(s: Seq<char>, width: nat)
    ensures
        padded(probe::widened(s, width), s, width),
{
    assert(probe::widened(s, width).take(s.len() as int) == s);
}

/// A line on a call says whether it passed, what it was called and what came back.
pub proof fn law_call_line(
    label: Seq<char>,
    method: Seq<char>,
    reply: Seq<char>,
)
    ensures
        exists|column: Seq<char>| #[trigger]
            padded(column, label, 24) && probe::call_line(true, label, method, reply) == "  PASS  "@
                + column + " ("@ + method + ") -> "@ + reply && probe::call_line(
                false,
                label,
                method,
                reply,
            ) == "  FAIL  "@ + column + " ("@ + method + ") -> "@ + reply,
{
    law_columns(label, 24);
    assert(padded(probe::widened(label, 24), label, 24));
}

/// The first line says which unit is tried and as whom.
pub proof fn law_opening_line(config: &AppearXConfig, r: String)
    requires
        call_ensures(probe::opening_line, (config,), r),
    ensures
        r@ == "Probing Appear X unit at https://"@ + config.address@ + " (user: "@
            + config.username@ + ")"@,
{
}

/// What came back is shown whole up to two hundred bytes; of more, the characters that fit are shown.
pub proof fn law_preview(s: &str, r: String)
    requires
        call_ensures(probe::preview, (s,), r),
    ensures
        vstd::utf8::encode_utf8(s@).len() <= 200 ==> r@ == s@,
        vstd::utf8::encode_utf8(s@).len() > 200 ==> exists|k: int|
            0 <= k < s@.len() && r@ == #[trigger] s@.take(k).push('…') && vstd::utf8::encode_utf8(
                s@.take(k),
            ).len() <= 200 < vstd::utf8::encode_utf8(s@.take(k + 1)).len(),
{
}

/// Texts are joined with the separator between each two of them.
pub proof fn law_joined(first: Seq<char>, rest: Seq<Seq<char>>, separator: Seq<char>)
    ensures
        probe::joined(Seq::empty(), separator).len() == 0,
        probe::joined(seq![first] + rest, separator) == (if rest.len() == 0 {
            first
        } else {
            first + separator + probe::joined(rest, separator)
        }),
    decreases rest.len(),
{
    let all = seq![first] + rest;
    if rest.len() == 0 {
        assert(all[0] == first);
    } else {
        law_joined(first, rest.drop_last(), separator);
        assert(all.drop_last() == seq![first] + rest.drop_last());
        assert(all.last() == rest.last());
        if rest.len() == 1 {
            assert(rest[0] == rest.last());
            assert(probe::joined(all, separator) == first + separator + probe::joined(
                rest,
                separator,
            ));
        } else {
            assert(probe::joined(all, separator) == first + separator + probe::joined(
                rest,
                separator,
            ));
        }
    }
}

/// What is said where no module of a card is known.
pub open spec fn none_known() -> Seq<char> {
    "         no card-level modules matched the probe registry — this firmware uses a namespace not yet registered in src/appear_x/probe_registry.rs"@
}

/// A text that may be unknown.
pub open spec fn or_unknown(o: Option<Seq<char>>) -> Seq<char> {
    match o {
        Some(s) => s,
        None => "?"@,
    }
}

/// What is printed of a card: what it is, its features where it has any, and each module that answered.
pub proof fn law_card_lines(slot: u32, s: SlotView)
    ensures
        ({
            let lines = probe::slot_lines(slot, s);
            let f: int = if s.features.len() == 0 {
                0
            } else {
                1
            };
            &&& lines[0] == "  Slot "@ + text::decimal(slot as nat) + ": "@ + s.name + " sn="@
                + s.serial + " sw="@ + or_unknown(s.software_id) + " ver="@ + or_unknown(
                s.software_version,
            )
            &&& s.features.len() > 0 ==> lines[1] == "         features: "@ + probe::joined(
                s.features,
                ", "@,
            )
            &&& s.modules.len() == 0 ==> lines.len() == 2 + f && lines[1 + f] == none_known()
            &&& s.modules.len() > 0 ==> lines.len() == 1 + f + s.modules.len()
            &&& forall|i: int|
                0 <= i < s.modules.len() ==> lines[1 + f + i] == "         ✓ "@ + (
                #[trigger] s.modules[i]).interface + "/"@ + s.modules[i].module + ":"@
                    + s.modules[i].version + "  (family="@ + s.modules[i].family + ")  via "@
                    + s.modules[i].probe_method
        }),
{
    let lines = probe::slot_lines(slot, s);
    let f: int = if s.features.len() == 0 {
        0
    } else {
        1
    };
    assert forall|i: int| 0 <= i < s.modules.len() implies lines[1 + f + i]
        == "         ✓ "@ + (#[trigger] s.modules[i]).interface + "/"@ + s.modules[i].module + ":"@
        + s.modules[i].version + "  (family="@ + s.modules[i].family + ")  via "@
        + s.modules[i].probe_method by {
        let r = s.modules[i];
        assert(lines[1 + f + i] == probe::record_line(r));
        assert("         ✓ "@ + (r.interface + "/"@ + r.module) == "         ✓ "@ + r.interface
            + "/"@ + r.module);
    }
}

/// Whether some lines stand together among others.
pub open spec fn stand_in(lines: Seq<Seq<char>>, all: Seq<Seq<char>>, at: int) -> bool {
    0 <= at && at + lines.len() <= all.len() && all.subrange(at, at + lines.len()) == lines
}

proof fn lemma_device_lines(m: Map<u32, SlotView>, n: nat, head: Seq<Seq<char>>)
    requires
        n <= slots::slot_limit(),
    ensures
        ({
            let all = slots::fold_slots(m, n, head, probe::add_slot_lines());
            &&& head.is_prefix_of(all)
            &&& forall|k: u32|
                k < n && #[trigger] m.contains_key(k) ==> exists|at: int|
                    at >= head.len() && stand_in(probe::slot_lines(k, m[k]), all, at)
            &&& (forall|k: u32| k < n ==> !#[trigger] m.contains_key(k)) ==> all == head
        }),
    decreases n,
{
    let all = slots::fold_slots(m, n, head, probe::add_slot_lines());
    if n > 0 {
        let slot = (n - 1) as u32;
        let before = slots::fold_slots(m, (n - 1) as nat, head, probe::add_slot_lines());
        lemma_device_lines(m, (n - 1) as nat, head);
        if m.contains_key(slot) {
            let more = probe::slot_lines(slot, m[slot]);
            assert(all == before + more);
            assert(all.subrange(before.len() as int, before.len() + more.len() as int) == more);
            assert(stand_in(more, all, before.len() as int));
            assert(all.take(head.len() as int) == before.take(head.len() as int));
        }
        assert forall|k: u32| k < n && #[trigger] m.contains_key(k) implies exists|at: int|
            at >= head.len() && stand_in(probe::slot_lines(k, m[k]), all, at) by {
            if k < n - 1 {
                let lines = probe::slot_lines(k, m[k]);
                let at = choose|at: int| at >= head.len() && stand_in(lines, before, at);
                assert(all.subrange(at, at + lines.len()) == before.subrange(at, at + lines.len()));
                assert(stand_in(lines, all, at));
            }
        }
    }
}

/// What is printed of a unit: its chassis, and then each of its cards, or that there is none.
pub proof fn law_unit_lines(d: DeviceView, slot: u32)
    requires
        d.slots.dom().finite(),
    ensures
        ({
            let lines = probe::device_lines(d);
            &&& lines.len() >= 2
            &&& lines[0] == "Discovered capabilities:"@
            &&& lines[1] == "  Chassis: "@ + d.chassis_type + " (MMI cards/* version: "@
                + d.cards_mmi_version + ")"@
            &&& d.slots.contains_key(slot) ==> exists|at: int|
                at >= 2 && #[trigger] stand_in(probe::slot_lines(slot, d.slots[slot]), lines, at)
            &&& d.slots == Map::<u32, SlotView>::empty() ==> lines.len() == 3 && lines[2]
                == "  (no card slots reported)"@
        }),
{
    let first = seq![
        "Discovered capabilities:"@,
        "  Chassis: "@ + d.chassis_type + " (MMI cards/* version: "@ + d.cards_mmi_version + ")"@,
    ];
    let head = if d.slots.len() == 0 {
        first.push("  (no card slots reported)"@)
    } else {
        first
    };
    lemma_device_lines(d.slots, slots::slot_limit(), head);
    let lines = probe::device_lines(d);
    assert(lines.take(head.len() as int) == head);
    assert(lines[0] == lines.take(head.len() as int)[0]);
    assert(lines[1] == lines.take(head.len() as int)[1]);
    if d.slots.contains_key(slot) {
        let more = probe::slot_lines(slot, d.slots[slot]);
        let at = choose|at: int| at >= head.len() && stand_in(more, lines, at);
        assert(at >= 2 && stand_in(more, lines, at));
    }
    if d.slots == Map::<u32, SlotView>::empty() {
        assert(lines == head);
    }
}

/// Which command reads a module of a card.
pub proof fn law_reading_commands(module: Seq<char>)
    ensures
        module == "cardAllocation"@ ==> probe::reading_command(module) == Some("GetCardAllocations"@),
        module == "multiService"@ ==> probe::reading_command(module) == Some("GetMultiServices"@),
        module == "audioProfile"@ ==> probe::reading_command(module) == Some("GetAudioProfiles"@),
        module == "ipInterface"@ ==> probe::reading_command(module) == Some("GetIpInterfaces"@),
        module == "imageUpload"@ ==> probe::reading_command(module) == Some("GetImages"@),
        module == "poolConfig"@ ==> probe::reading_command(module) == Some("GetPoolConfig"@),
        module == "coderService"@ ==> probe::reading_command(module) == Some("GetCoderServices"@),
        module == "ipConnection"@ ==> probe::reading_command(module) == Some("GetIpConnections"@),
        module == "lockStatus"@ ==> probe::reading_command(module) == Some("GetLockStatus"@),
        module == "psiStatus"@ ==> probe::reading_command(module) == Some("GetPsiStatus"@),
        probe::reading_command(module) is Some ==> module == "cardAllocation"@
            || module == "multiService"@
            || module == "audioProfile"@
            || module == "ipInterface"@
            || module == "imageUpload"@
            || module == "poolConfig"@
            || module == "coderService"@
            || module == "ipConnection"@
            || module == "lockStatus"@
            || module == "psiStatus"@,
{
    lemma_names();
}

/// The module in a name is what stands behind its first slash.
pub proof fn law_after_slash(a: Seq<char>, t: Seq<char>)
    requires
        forall|i: int| 0 <= i < a.len() ==> #[trigger] a[i] != '/',
    ensures
        probe::after_slash(a + seq!['/'] + t) == Some(t),
        probe::after_slash(a) is None,
    decreases a.len(),
{
    let s = a + seq!['/'] + t;
    if a.len() == 0 {
        assert(s.subrange(1, s.len() as int) == t);
    } else {
        let rest = a.subrange(1, a.len() as int);
        assert forall|i: int| 0 <= i < rest.len() implies #[trigger] rest[i] != '/' by {
            assert(rest[i] == a[i + 1]);
        }
        law_after_slash(rest, t);
        assert(s[0] == a[0]);
        assert(s.subrange(1, s.len() as int) == rest + seq!['/'] + t);
    }
}

/// Whether a record is the first of an interface.
pub open spec fn first_of(records: Seq<RecordView>, interface: Seq<char>, k: int) -> bool {
    &&& 0 <= k < records.len()
    &&& records[k].interface == interface
    &&& forall|j: int| 0 <= j < k ==> (#[trigger] records[j]).interface != interface
}

/// What is found of an interface is the first record that is of it.
pub proof fn law_first_of_interface(records: Seq<RecordView>, interface: Seq<char>, k: int)
    ensures
        first_of(records, interface, k) ==> capabilities::find_interface(records, interface)
            == Some(records[k]),
        (forall|j: int| 0 <= j < records.len() ==> (#[trigger] records[j]).interface != interface)
            ==> capabilities::find_interface(records, interface) is None,
    decreases records.len(),
{
    if records.len() > 0 {
        let rest = records.subrange(1, records.len() as int);
        law_first_of_interface(rest, interface, k - 1);
        if first_of(records, interface, k) && k > 0 {
            assert(rest[k - 1] == records[k]);
            assert(records[0].interface != interface);
            assert forall|j: int| 0 <= j < k - 1 implies (#[trigger] rest[j]).interface
                != interface by {
                assert(rest[j] == records[j + 1]);
            }
        }
        if forall|j: int|
            0 <= j < records.len() ==> (#[trigger] records[j]).interface != interface {
            assert(records[0].interface != interface);
            assert forall|j: int| 0 <= j < rest.len() implies (#[trigger] rest[j]).interface
                != interface by {
                assert(rest[j] == records[j + 1]);
            }
        }
    }
}

/// A card on which a module answered is asked for its state, under the version of its first module of
/// that interface or else under the one that is known to work. No other card is asked.
pub proof fn law_state_is_asked(slot: u32, s: SlotView, k: int)
    ensures
        s.modules.len() == 0 ==> probe::slot_checks(slot, s).len() == 0,
        s.modules.len() > 0 ==> {
            let first = probe::slot_checks(slot, s)[0];
            &&& probe::slot_checks(slot, s).len() > 0
            &&& first.module is None
            &&& first.request.endpoint == Endpoint::Board(slot)
            &&& first.request.params == polling::slot_only(slot)
            &&& first_of(s.modules, "Xger"@, k) ==> first.request.method == "Xger"@ + ":"@
                + s.modules[k].version + "/"@ + "cardStatus"@ + "/"@ + "GetCardStatus"@
            &&& (forall|j: int|
                0 <= j < s.modules.len() ==> (#[trigger] s.modules[j]).interface != "Xger"@)
                ==> first.request.method == "Xger"@ + ":"@ + "2.55"@ + "/"@ + "cardStatus"@ + "/"@
                + "GetCardStatus"@
        },
{
    law_first_of_interface(s.modules, "Xger"@, k);
    if s.modules.len() > 0 {
        assert(probe::slot_checks(slot, s)[0] == probe::status_check(slot, s));
    }
}

/// Whether a check reads a module of a card under the version with which it answered.
pub open spec fn checks(c: CheckView, slot: u32, r: RecordView, module: Seq<char>) -> bool {
    &&& c.module == Some(module)
    &&& c.request.endpoint == Endpoint::Board(slot)
    &&& probe::reading_command(module) is Some
    &&& c.request.method == "Xger"@ + ":"@ + r.version + "/"@ + module + "/"@
        + probe::reading_command(module)->0
    &&& c.request.params == JsonView::Object(Map::empty())
}

/// Whether a module is read in a trial run.
pub open spec fn is_read(r: RecordView, module: Seq<char>) -> bool {
    &&& r.interface + "/"@ + r.module != "Xger/cardStatus"@
    &&& probe::after_slash(r.interface + "/"@ + r.module) == Some(module)
    &&& probe::reading_command(module) is Some
}

/// Whether a check reads a module among the first records.
pub open spec fn reads_one(c: CheckView, slot: u32, records: Seq<RecordView>, n: nat) -> bool {
    exists|k: int, module: Seq<char>|
        0 <= k < n && is_read(records[k], module) && #[trigger] checks(c, slot, records[k], module)
}

/// Whether a module is read by a check among some.
pub open spec fn read_by(all: Seq<CheckView>, slot: u32, r: RecordView, module: Seq<char>) -> bool {
    exists|i: int| 0 <= i < all.len() && checks(#[trigger] all[i], slot, r, module)
}

proof fn lemma_one_check(slot: u32, r: RecordView, module: Seq<char>)
    ensures
        probe::module_check(slot, r) matches Some(c) ==> {
            let found = probe::after_slash(r.interface + "/"@ + r.module);
            found is Some && is_read(r, found->0) && checks(c, slot, r, found->0)
        },
        is_read(r, module) ==> probe::module_check(slot, r) is Some && checks(
            probe::module_check(slot, r)->0,
            slot,
            r,
            module,
        ),
{
    assert(r.key() == r.interface + "/"@ + r.module);
}

proof fn lemma_checks_arise(slot: u32, records: Seq<RecordView>, n: nat, i: int)
    requires
        n <= records.len(),
        0 <= i < probe::module_checks(slot, records, n).len(),
    ensures
        reads_one(probe::module_checks(slot, records, n)[i], slot, records, n),
    decreases n,
{
    if n > 0 {
        let all = probe::module_checks(slot, records, n);
        let before = probe::module_checks(slot, records, (n - 1) as nat);
        let r = records[n - 1];
        if i < before.len() {
            lemma_checks_arise(slot, records, (n - 1) as nat, i);
            assert(all[i] == before[i]);
            let (k, module) = choose|k: int, module: Seq<char>|
                0 <= k < n - 1 && is_read(records[k], module) && #[trigger] checks(
                    before[i],
                    slot,
                    records[k],
                    module,
                );
            assert(checks(all[i], slot, records[k], module));
        } else {
            lemma_one_check(slot, r, Seq::empty());
            let found = probe::after_slash(r.interface + "/"@ + r.module)->0;
            assert(checks(all[i], slot, records[n - 1], found));
        }
    }
}

proof fn lemma_checks_cover(
    slot: u32,
    records: Seq<RecordView>,
    n: nat,
    k: int,
    module: Seq<char>,
)
    requires
        n <= records.len(),
        0 <= k < n,
        is_read(records[k], module),
    ensures
        read_by(probe::module_checks(slot, records, n), slot, records[k], module),
    decreases n,
{
    let all = probe::module_checks(slot, records, n);
    let before = probe::module_checks(slot, records, (n - 1) as nat);
    if k < n - 1 {
        lemma_checks_cover(slot, records, (n - 1) as nat, k, module);
        let i = choose|i: int|
            0 <= i < before.len() && checks(#[trigger] before[i], slot, records[k], module);
        assert(all[i] == before[i]);
    } else {
        lemma_one_check(slot, records[k], module);
        assert(checks(all[before.len() as int], slot, records[k], module));
    }
}

/// Each module that can be read is read, and every check but the first reads a module that answered.
pub proof fn law_modules_are_checked(slot: u32, s: SlotView, i: int, k: int, module: Seq<char>)
    requires
        s.modules.len() > 0,
    ensures
        1 <= i < probe::slot_checks(slot, s).len() ==> reads_one(
            probe::slot_checks(slot, s)[i],
            slot,
            s.modules,
            s.modules.len(),
        ),
        0 <= k < s.modules.len() && is_read(s.modules[k], module) ==> read_by(
            probe::slot_checks(slot, s).skip(1),
            slot,
            s.modules[k],
            module,
        ),
{
    let all = probe::module_checks(slot, s.modules, s.modules.len());
    assert(probe::slot_checks(slot, s) == seq![probe::status_check(slot, s)] + all);
    assert(probe::slot_checks(slot, s).skip(1) == all);
    if 1 <= i < probe::slot_checks(slot, s).len() {
        lemma_checks_arise(slot, s.modules, s.modules.len(), i - 1);
        assert(probe::slot_checks(slot, s)[i] == all[i - 1]);
    }
    if 0 <= k < s.modules.len() && is_read(s.modules[k], module) {
        lemma_checks_cover(slot, s.modules, s.modules.len(), k, module);
    }
}

/// What is printed of a module that was read: how many elements it has and how large the answer is.
pub proof fn law_module_line(module: Seq<char>, result: JsonView, size: nat)
    ensures
        exists|column: Seq<char>| #[trigger]
            padded(column, module, 20) && probe::module_line(module, result, size) == "    "@ + column
                + " OK  (data.len="@ + text::decimal(
                values::elements(values::under(Some(result), "data"@)).len(),
            ) + ", response bytes="@ + text::decimal(size) + ")"@,
{
    law_columns(module, 20);
    assert(padded(probe::widened(module, 20), module, 20));
}

/// What is printed of a module that could not be read.
pub proof fn law_module_error_line(module: &str, error: &str, r: String)
    requires
        call_ensures(probe::make_module_error_line, (module, error), r),
    ensures
        exists|column: Seq<char>| #[trigger]
            padded(column, module@, 20) && r@ == "    "@ + column + " ERR "@ + error@,
{
    law_columns(module@, 20);
    assert(padded(probe::widened(module@, 20), module@, 20));
}

/// What is printed of a clock: its state, that there is no signal, or that nothing is known.
pub open spec fn clock_in_words(status: JsonView) -> Seq<char> {
    if values::under(Some(status), "ptpLock"@) == Some(JsonView::Object(Map::empty())) {
        "no-signal"@
    } else {
        match told::told_clock(status) {
            Some(s) => s,
            None => "unknown"@,
        }
    }
}

/// What is printed of the light on a lane.
pub open spec fn light_in_words(r: Reading) -> Seq<PartView> {
    if 0 < told::place(r.value) <= 0x7ff0_0000_0000_0000 {
        seq![PartView::Fixed { value: r.dbm, decimals: 1 }, PartView::Text("dBm"@)]
    } else {
        seq![PartView::Text("--"@)]
    }
}

/// The light on each lane is printed, with a comma between two of them.
pub proof fn law_lights(first: Reading, rest: Seq<Reading>)
    ensures
        probe::lights(Seq::empty()).len() == 0,
        probe::lights(seq![first] + rest) == (if rest.len() == 0 {
            light_in_words(first)
        } else {
            light_in_words(first) + seq![PartView::Text(", "@)] + probe::lights(rest)
        }),
    decreases rest.len(),
{
    told::law_doubles_in_order(first.value, first.value);
    assert(probe::light_parts(first) == light_in_words(first));
    let all = seq![first] + rest;
    if rest.len() == 0 {
        assert(all[0] == first);
    } else {
        law_lights(first, rest.drop_last());
        assert(all.drop_last() == seq![first] + rest.drop_last());
        assert(all.last() == rest.last());
        if rest.len() == 1 {
            assert(rest[0] == rest.last());
        }
        assert(probe::lights(all) == light_in_words(first) + seq![PartView::Text(", "@)]
            + probe::lights(rest));
    }
}

/// What is printed of a port: its name, its temperature and the light on its lanes.
pub open spec fn port_in_words(port: JsonView) -> Seq<PartView> {
    let temp = values::measured(values::under(told::measurements(port), "temp"@));
    seq![
        PartView::Text(
            "      port "@ + values::text_or(values::under(Some(port), "key"@), "?"@) + ": temp="@,
        ),
    ] + (if temp is Some {
        seq![PartView::Fixed { value: temp->0.value, decimals: 1 }, PartView::Text("°C"@)]
    } else {
        seq![PartView::Text("?"@)]
    }) + seq![PartView::Text("  rx=["@)] + probe::lights(
        told::all_measured(values::elements(values::under(told::measurements(port), "rxPwr"@))),
    ) + seq![PartView::Text("]"@)]
}

/// What is printed of the worst of the ports.
pub open spec fn worst_in_words(light: Option<Double>, heat: Option<Double>) -> Seq<PartView> {
    seq![PartView::Text("    → worst_rx="@)] + (if light is Some {
        seq![PartView::Fixed { value: light->0, decimals: 1 }, PartView::Text(" dBm"@)]
    } else {
        seq![PartView::Text("no-signal"@)]
    }) + seq![PartView::Text("  max_temp="@)] + (if heat is Some {
        seq![PartView::Fixed { value: heat->0, decimals: 1 }, PartView::Text(" °C"@)]
    } else {
        seq![PartView::Text("-"@)]
    })
}

proof fn lemma_port_lines(ports: Seq<JsonView>, n: nat)
    requires
        n <= ports.len(),
    ensures
        probe::port_lines(ports, n) == ports.take(n as int).filter(
            |p: JsonView| told::measurements(p) is Some,
        ).map_values(|p: JsonView| port_in_words(p)),
    decreases n,
{
    reveal(Seq::filter);
    let p = |q: JsonView| told::measurements(q) is Some;
    let f = |q: JsonView| port_in_words(q);
    let some = ports.take(n as int);
    if n > 0 {
        lemma_port_lines(ports, (n - 1) as nat);
        let fewer = ports.take(n - 1);
        assert(some.drop_last() == fewer);
        assert(some.last() == ports[n - 1]);
        let port = ports[n - 1];
        values::lemma_under(told::told_by(port), "diagnostics"@);
        assert(health::diagnostics(port) == told::measurements(port));
        told::lemma_readings(values::elements(values::under(told::measurements(port), "rxPwr"@)));
        assert(probe::port_line(port) == port_in_words(port));
        if p(port) {
            assert(some.filter(p) == fewer.filter(p).push(port));
            assert(some.filter(p).map_values(f) == fewer.filter(p).map_values(f).push(f(port)));
        } else {
            assert(some.filter(p) == fewer.filter(p));
        }
    } else {
        assert(some == Seq::<JsonView>::empty());
        assert(some.filter(p).map_values(f) == Seq::<Seq<PartView>>::empty());
    }
}

/// What is printed of the state of a card: its clock, each port that tells measurements, and the least
/// light and the greatest heat of them all.
pub proof fn law_status_lines(status: JsonView)
    ensures
        exists|light: Option<Double>, heat: Option<Double>|
            #![trigger events::least_on(light, Some(status)), events::greatest_on(heat, Some(status))]
            {
                &&& events::least_on(light, Some(status))
                &&& events::greatest_on(heat, Some(status))
                &&& probe::status_lines(status) == seq![
                    seq![
                        PartView::Text(
                            "    cardStatus          OK  ptp="@ + clock_in_words(status),
                        ),
                    ],
                ] + told::ports(status).filter(
                    |p: JsonView| told::measurements(p) is Some,
                ).map_values(|p: JsonView| port_in_words(p)) + seq![worst_in_words(light, heat)]
            },
{
    told::lemma_signals(status);
    told::lemma_ports_told(status);
    let all = told::ports(status);
    lemma_port_lines(all, all.len());
    assert(all.take(all.len() as int) == all);
    let light = health::worst_light(all);
    let heat = health::worst_heat(all);
    assert(events::least_on(light, Some(status)));
    assert(events::greatest_on(heat, Some(status)));
    assert(probe::clock_word(status) == clock_in_words(status));
    assert(probe::worst_line(all) == worst_in_words(light, heat));
}

} // verus!
