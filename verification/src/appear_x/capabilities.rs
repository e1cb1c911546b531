//! What the unit and its cards can do, and how that is found out.

use std::collections::BTreeMap;
use vstd::prelude::*;

use crate::json;
use crate::slots;
use crate::text;

verus! {

broadcast use vstd::std_specs::btree::group_btree_axioms;

/// What is known of the unit.
#[derive(Debug)]
pub struct DeviceCapabilities {
    /// The chassis type that the unit reports, such as `X20_2RU`.
    pub chassis_type: String,
    /// The version under which the unit answered `cards/GetChassisInfo`.
    pub cards_mmi_version: String,
    /// What is known of each slot.
    pub slots: BTreeMap<u32, SlotCapabilities>,
}

/// What is known of one slot.
#[derive(Debug)]
pub struct SlotCapabilities {
    pub slot: u32,
    pub name: String,
    pub serial: String,
    pub software_id: Option<String>,
    pub software_display_name: Option<String>,
    pub software_version: Option<String>,
    pub features: Vec<String>,
    /// The modules that answered on this slot, ordered by `<interface>/<module>`.
    pub discovered_modules: Vec<DiscoveredInterfaceRecord>,
}

/// A module that answered.
#[derive(Debug)]
pub struct DiscoveredInterfaceRecord {
    pub family: String,
    pub interface: String,
    pub module: String,
    /// The version that answered.
    pub version: String,
    /// The method that answered.
    pub probe_method: String,
}

/// What a [`DiscoveredInterfaceRecord`] holds.
#[verifier::ext_equal]
pub struct RecordView {
    pub family: Seq<char>,
    pub interface: Seq<char>,
    pub module: Seq<char>,
    pub version: Seq<char>,
    pub probe_method: Seq<char>,
}

/// What a [`SlotCapabilities`] holds.
#[verifier::ext_equal]
pub struct SlotView {
    pub slot: u32,
    pub name: Seq<char>,
    pub serial: Seq<char>,
    pub software_id: Option<Seq<char>>,
    pub software_display_name: Option<Seq<char>>,
    pub software_version: Option<Seq<char>>,
    pub features: Seq<Seq<char>>,
    pub modules: Seq<RecordView>,
}

/// What a [`DeviceCapabilities`] holds.
#[verifier::ext_equal]
pub struct DeviceView {
    pub chassis_type: Seq<char>,
    pub cards_mmi_version: Seq<char>,
    pub slots: Map<u32, SlotView>,
}

impl View for DiscoveredInterfaceRecord {
    type V = RecordView;

    open spec fn view(&self) -> RecordView {
        RecordView {
            family: self.family@,
            interface: self.interface@,
            module: self.module@,
            version: self.version@,
            probe_method: self.probe_method@,
        }
    }
}

/// What a list of records holds.
pub open spec fn records_view(s: Seq<DiscoveredInterfaceRecord>) -> Seq<RecordView> {
    s.map_values(|r: DiscoveredInterfaceRecord| r@)
}

impl View for SlotCapabilities {
    type V = SlotView;

    open spec fn view(&self) -> SlotView {
        SlotView {
            slot: self.slot,
            name: self.name@,
            serial: self.serial@,
            software_id: json::string_view(self.software_id),
            software_display_name: json::string_view(self.software_display_name),
            software_version: json::string_view(self.software_version),
            features: json::strings_view(self.features@),
            modules: records_view(self.discovered_modules@),
        }
    }
}

impl View for DeviceCapabilities {
    type V = DeviceView;

    open spec fn view(&self) -> DeviceView {
        DeviceView {
            chassis_type: self.chassis_type@,
            cards_mmi_version: self.cards_mmi_version@,
            slots: slots::views(self.slots@),
        }
    }
}

/// The name under which a module is recorded.
pub open spec fn module_key(interface: Seq<char>, module: Seq<char>) -> Seq<char> {
    interface + "/"@ + module
}

impl RecordView {
    /// The name under which the module is recorded.
    pub open spec fn key(self) -> Seq<char> {
        module_key(self.interface, self.module)
    }
}

/// The record of a module, where there is one.
pub open spec fn find_record(records: Seq<RecordView>, key: Seq<char>) -> Option<RecordView>
    decreases records.len(),
{
    if records.len() == 0 {
        None
    } else if records[0].key() == key {
        Some(records[0])
    } else {
        find_record(records.subrange(1, records.len() as int), key)
    }
}

/// The records with one more, in the place that its name has in the order.
pub open spec fn with_record(records: Seq<RecordView>, r: RecordView) -> Seq<RecordView>
    decreases records.len(),
{
    if records.len() == 0 || text::before(r.key(), records[0].key()) {
        seq![r] + records
    } else if r.key() == records[0].key() {
        records.update(0, r)
    } else {
        seq![records[0]] + with_record(records.subrange(1, records.len() as int), r)
    }
}

/// Whether the records stand in the order of their names, each name once.
pub open spec fn ordered(records: Seq<RecordView>) -> bool {
    forall|i: int, j: int|
        0 <= i < j < records.len() ==> text::before(
            (#[trigger] records[i]).key(),
            (#[trigger] records[j]).key(),
        )
}

/// The first record of an interface.
pub open spec fn find_interface(records: Seq<RecordView>, interface: Seq<char>) -> Option<RecordView>
    decreases records.len(),
{
    if records.len() == 0 {
        None
    } else if records[0].interface == interface {
        Some(records[0])
    } else {
        find_interface(records.subrange(1, records.len() as int), interface)
    }
}

impl SlotView {
    /// The version under which a module answered on this slot.
    pub open spec fn version_of(self, interface: Seq<char>, module: Seq<char>) -> Option<Seq<char>> {
        match find_record(self.modules, module_key(interface, module)) {
            Some(r) => Some(r.version),
            None => None,
        }
    }
}

/// The name under which a module is recorded.
pub fn make_module_key(interface: &str, module: &str) -> (r: String)
    ensures
        r@ == module_key(interface@, module@),
{
    let mut out = interface.to_owned();
    out.append("/");
    out.append(module);
    out
}

impl SlotCapabilities {
    fn find(&self, interface: &str, module: &str) -> (r: Option<&DiscoveredInterfaceRecord>)
        ensures
            match r {
                Some(rec) => find_record(self@.modules, module_key(interface@, module@)) == Some(
                    rec@,
                ),
                None => find_record(self@.modules, module_key(interface@, module@)) is None,
            },
    {
        let key = make_module_key(interface, module);
        let n: usize = self.discovered_modules.len();
        let ghost all = self@.modules;
        assert(all.subrange(0, n as int) == all);
        for i in 0..n
            invariant
                n == self.discovered_modules@.len(),
                all == self@.modules,
                key@ == module_key(interface@, module@),
                find_record(all.subrange(i as int, n as int), key@) == find_record(all, key@),
        {
            let rec = &self.discovered_modules[i];
            let ghost rest = all.subrange(i as int, n as int);
            assert(rest[0] == rec@);
            assert(rest.subrange(1, rest.len() as int) == all.subrange(i + 1, n as int));
            if make_module_key(rec.interface.as_str(), rec.module.as_str()) == key {
                return Some(rec);
            }
        }
        None
    }

    /// Whether a module answered on this slot.
    pub fn has_module(&self, interface: &str, module: &str) -> (r: bool)
        ensures
            r == (self@.version_of(interface@, module@) is Some),
    {
        self.find(interface, module).is_some()
    }

    /// The version under which a module answered on this slot.
    pub fn module_version(&self, interface: &str, module: &str) -> (r: Option<String>)
        ensures
            json::string_view(r) == self@.version_of(interface@, module@),
    {
        match self.find(interface, module) {
            Some(rec) => Some(rec.version.clone()),
            None => None,
        }
    }

    /// The version of the first recorded module of an interface.
    pub fn any_interface_version(&self, interface: &str) -> (r: Option<String>)
        ensures
            json::string_view(r) == match find_interface(self@.modules, interface@) {
                Some(rec) => Some(rec.version),
                None => None,
            },
    {
        let n: usize = self.discovered_modules.len();
        let wanted = interface.to_owned();
        let ghost all = self@.modules;
        assert(all.subrange(0, n as int) == all);
        for i in 0..n
            invariant
                n == self.discovered_modules@.len(),
                all == self@.modules,
                wanted@ == interface@,
                find_interface(all.subrange(i as int, n as int), interface@) == find_interface(
                    all,
                    interface@,
                ),
        {
            let rec = &self.discovered_modules[i];
            let ghost rest = all.subrange(i as int, n as int);
            assert(rest[0] == rec@);
            assert(rest.subrange(1, rest.len() as int) == all.subrange(i + 1, n as int));
            if rec.interface == wanted {
                return Some(rec.version.clone());
            }
        }
        None
    }

    /// Records a module that answered, in place of an earlier record of the same name.
    pub fn record(&mut self, rec: DiscoveredInterfaceRecord)
        ensures
            final(self)@ == (SlotView {
                modules: with_record(old(self)@.modules, rec@),
                ..old(self)@
            }),
    {
        let key = make_module_key(rec.interface.as_str(), rec.module.as_str());
        let ghost all = self@.modules;
        let ghost new = rec@;
        let n: usize = self.discovered_modules.len();
        let mut i: usize = 0;
        assert(all.subrange(0, n as int) == all);
        assert(all.subrange(0, 0) + with_record(all, new) == with_record(all, new));
        while i < n
            invariant
                n == self.discovered_modules@.len(),
                i <= n,
                all == self@.modules,
                self@ == old(self)@,
                new == rec@,
                key@ == new.key(),
                with_record(all, new) == all.subrange(0, i as int) + with_record(
                    all.subrange(i as int, n as int),
                    new,
                ),
            decreases n - i,
        {
            let ghost rest = all.subrange(i as int, n as int);
            assert(rest[0] == self.discovered_modules@[i as int]@);
            assert(rest.subrange(1, rest.len() as int) == all.subrange(i + 1, n as int));
            let here = make_module_key(
                self.discovered_modules[i].interface.as_str(),
                self.discovered_modules[i].module.as_str(),
            );
            if text::is_before(key.as_str(), here.as_str()) {
                self.discovered_modules.insert(i, rec);
                assert(self@.modules == with_record(all, new));
                return ;
            }
            if key == here {
                self.discovered_modules.set(i, rec);
                assert(self@.modules == with_record(all, new));
                return ;
            }
            assert(all.subrange(0, i as int) + (seq![rest[0]] + with_record(
                all.subrange(i + 1, n as int),
                new,
            )) == all.subrange(0, i + 1) + with_record(all.subrange(i + 1, n as int), new));
            i = i + 1;
        }
        assert(all.subrange(0, n as int) == all);
        self.discovered_modules.push(rec);
        assert(self@.modules == with_record(all, new));
    }
}

/// Recording a module makes it the one that is found under its name, and leaves what is found
/// under other names.
pub proof fn law_recorded_module_is_found(records: Seq<RecordView>, r: RecordView, key: Seq<char>)
    ensures
        find_record(with_record(records, r), key) == if key == r.key() {
            Some(r)
        } else {
            find_record(records, key)
        },
    decreases records.len(),
{
    let out = with_record(records, r);
    let rest = out.subrange(1, out.len() as int);
    if records.len() == 0 || text::before(r.key(), records[0].key()) {
        assert(rest == records);
    } else {
        let tail = records.subrange(1, records.len() as int);
        if r.key() == records[0].key() {
            assert(rest == tail);
        } else {
            assert(rest == with_record(tail, r));
            law_recorded_module_is_found(tail, r, key);
        }
    }
}

proof fn lemma_head_stays_first(records: Seq<RecordView>, r: RecordView, first: Seq<char>)
    requires
        forall|i: int| 0 <= i < records.len() ==> text::before(first, (#[trigger] records[i]).key()),
        text::before(first, r.key()),
    ensures
        forall|i: int|
            0 <= i < with_record(records, r).len() ==> text::before(
                first,
                (#[trigger] with_record(records, r)[i]).key(),
            ),
    decreases records.len(),
{
    let out = with_record(records, r);
    if records.len() > 0 && !text::before(r.key(), records[0].key()) && r.key()
        != records[0].key() {
        let tail = records.subrange(1, records.len() as int);
        assert forall|i: int| 0 <= i < tail.len() implies text::before(
            first,
            (#[trigger] tail[i]).key(),
        ) by {
            assert(tail[i] == records[i + 1]);
        }
        lemma_head_stays_first(tail, r, first);
        assert forall|i: int| 0 <= i < out.len() implies text::before(
            first,
            (#[trigger] out[i]).key(),
        ) by {
            if i > 0 {
                assert(out[i] == with_record(tail, r)[i - 1]);
            } else {
                assert(out[0] == records[0]);
            }
        }
    } else {
        assert forall|i: int| 0 <= i < out.len() implies text::before(
            first,
            (#[trigger] out[i]).key(),
        ) by {
            if records.len() == 0 || text::before(r.key(), records[0].key()) {
                if i > 0 {
                    assert(out[i] == records[i - 1]);
                }
            } else if i > 0 {
                assert(out[i] == records[i]);
            }
        }
    }
}

/// Recording keeps the records in the order of their names, each name once.
pub proof fn law_records_stay_ordered(records: Seq<RecordView>, r: RecordView)
    requires
        ordered(records),
    ensures
        ordered(with_record(records, r)),
    decreases records.len(),
{
    let out = with_record(records, r);
    if records.len() == 0 {
    } else if text::before(r.key(), records[0].key()) {
        assert forall|i: int, j: int| 0 <= i < j < out.len() implies text::before(
            (#[trigger] out[i]).key(),
            (#[trigger] out[j]).key(),
        ) by {
            assert(out[j] == records[j - 1]);
            if i > 0 {
                assert(out[i] == records[i - 1]);
            } else if j > 1 {
                assert(text::before(records[0].key(), records[j - 1].key()));
                text::lemma_before_chain(r.key(), records[0].key(), records[j - 1].key());
            }
        }
    } else if r.key() == records[0].key() {
        assert forall|i: int, j: int| 0 <= i < j < out.len() implies text::before(
            (#[trigger] out[i]).key(),
            (#[trigger] out[j]).key(),
        ) by {
            assert(text::before(records[i].key(), records[j].key()));
        }
    } else {
        let tail = records.subrange(1, records.len() as int);
        assert forall|i: int, j: int| 0 <= i < j < tail.len() implies text::before(
            (#[trigger] tail[i]).key(),
            (#[trigger] tail[j]).key(),
        ) by {
            assert(text::before(records[i + 1].key(), records[j + 1].key()));
        }
        law_records_stay_ordered(tail, r);
        assert forall|i: int| 0 <= i < tail.len() implies text::before(
            records[0].key(),
            (#[trigger] tail[i]).key(),
        ) by {
            assert(text::before(records[0].key(), records[i + 1].key()));
        }
        text::lemma_before_total(r.key(), records[0].key());
        lemma_head_stays_first(tail, r, records[0].key());
        assert forall|i: int, j: int| 0 <= i < j < out.len() implies text::before(
            (#[trigger] out[i]).key(),
            (#[trigger] out[j]).key(),
        ) by {
            assert(out[j] == with_record(tail, r)[j - 1]);
            if i > 0 {
                assert(out[i] == with_record(tail, r)[i - 1]);
            }
        }
    }
}

/// Records that stand in the order of their names have different names.
pub proof fn law_ordered_names_are_different(records: Seq<RecordView>, i: int, j: int)
    requires
        ordered(records),
        0 <= i < j < records.len(),
    ensures
        records[i].key() != records[j].key(),
{
    text::lemma_before_strict(records[i].key(), records[j].key());
    assert(text::before(records[i].key(), records[j].key()));
}

/// What is written in the logs of the modules found.
pub open spec fn summary_of(d: DeviceView) -> Seq<char> {
    "chassis="@ + d.chassis_type + " mmi:"@ + d.cards_mmi_version + " slots="@ + text::decimal(
        d.slots.len(),
    ) + " discovered_interfaces="@ + text::decimal(module_count(d.slots))
}

/// Adds the modules of one slot.
pub open spec fn add_modules() -> spec_fn(nat, u32, SlotView) -> nat {
    |n: nat, slot: u32, s: SlotView| n + s.modules.len()
}

/// The number of modules on all slots.
pub open spec fn module_count(m: Map<u32, SlotView>) -> nat {
    slots::fold_slots(m, slots::slot_limit(), 0, add_modules())
}

impl DeviceCapabilities {
    /// One line for logs and the probe report.
    pub fn summary(&self) -> (r: String)
        ensures
            r@ == summary_of(self@),
    {
        let entries = slots::entries_of(&self.slots);
        let mut total: u128 = 0;
        let ghost m = self.slots@;
        let n: usize = entries.len();
        for i in 0..n
            invariant
                n == entries@.len(),
                slots::lists(entries@, m),
                m == self.slots@,
                total <= i * 0x1_0000_0000_0000_0000,
                total == slots::fold_slots(
                    self@.slots,
                    slots::bound(entries@, i as int),
                    0nat,
                    add_modules(),
                ),
        {
            proof {
                slots::lemma_fold_step_views(entries@, self.slots@, i as int, 0nat, add_modules());
            }
            total = total + entries[i].1.discovered_modules.len() as u128;
        }
        proof {
            slots::lemma_fold_end_views(entries@, self.slots@, 0nat, add_modules());
            assert(self@.slots.dom() == self.slots@.dom());
        }
        let mut out = "chassis=".to_owned();
        out.append(self.chassis_type.as_str());
        out.append(" mmi:");
        out.append(self.cards_mmi_version.as_str());
        out.append(" slots=");
        out.append(text::decimal_of(self.slots.len() as u64).as_str());
        out.append(" discovered_interfaces=");
        out.append(text::wide_decimal_of(total).as_str());
        out
    }
}

} // verus!
