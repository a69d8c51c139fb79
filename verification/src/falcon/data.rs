//! What was collected from the Falcon API.
use crate::falcon::score::{Summary, SummaryView};
use crate::falcon::table::Table;
use crate::json::{json, jsons, Json};
use vstd::prelude::*;

verus! {

/// Everything that was collected. Enrichments stand under the identifier of their device, policies
/// and groups under their own.
pub struct Data {
    pub devices: Vec<serde_json::Value>,
    pub unmanaged: Vec<serde_json::Value>,
    pub zta: Table<serde_json::Value>,
    pub alerts: Table<Vec<serde_json::Value>>,
    pub detections: Table<Vec<serde_json::Value>>,
    pub incidents: Table<Vec<serde_json::Value>>,
    pub vulns: Table<Summary>,
    pub prevention: Table<serde_json::Value>,
    pub sensor: Table<serde_json::Value>,
    pub groups: Table<serde_json::Value>,
    /// The optional APIs that were probed, in order, and whether they were available.
    pub available: Vec<(String, bool)>,
    pub refreshed: String,
}

/// Everything that was collected, by its contents.
#[verifier::ext_equal]
pub struct DataView {
    pub devices: Seq<Json>,
    pub unmanaged: Seq<Json>,
    pub zta: Map<Seq<char>, Json>,
    pub alerts: Map<Seq<char>, Seq<Json>>,
    pub detections: Map<Seq<char>, Seq<Json>>,
    pub incidents: Map<Seq<char>, Seq<Json>>,
    pub vulns: Map<Seq<char>, SummaryView>,
    pub prevention: Map<Seq<char>, Json>,
    pub sensor: Map<Seq<char>, Json>,
    pub groups: Map<Seq<char>, Json>,
    pub available: Seq<(Seq<char>, bool)>,
    pub refreshed: Seq<char>,
}

/// The documents of a table of values.
pub open spec fn documents(table: Map<Seq<char>, serde_json::Value>) -> Map<Seq<char>, Json> {
    table.map_values(|v: serde_json::Value| json(v))
}

/// The documents of a table of lists of values.
pub open spec fn lists(table: Map<Seq<char>, Vec<serde_json::Value>>) -> Map<
    Seq<char>,
    Seq<Json>,
> {
    table.map_values(|v: Vec<serde_json::Value>| jsons(v@))
}

/// The contents of a table of summaries.
pub open spec fn summaries(table: Map<Seq<char>, Summary>) -> Map<Seq<char>, SummaryView> {
    table.map_values(|s: Summary| s@)
}

/// Names with their flags, by their contents.
pub open spec fn flags(entries: Seq<(String, bool)>) -> Seq<(Seq<char>, bool)> {
    entries.map_values(|e: (String, bool)| (e.0@, e.1))
}

impl View for Data {
    type V = DataView;

    open spec fn view(&self) -> DataView {
        DataView {
            devices: jsons(self.devices@),
            unmanaged: jsons(self.unmanaged@),
            zta: documents(self.zta@),
            alerts: lists(self.alerts@),
            detections: lists(self.detections@),
            incidents: lists(self.incidents@),
            vulns: summaries(self.vulns@),
            prevention: documents(self.prevention@),
            sensor: documents(self.sensor@),
            groups: documents(self.groups@),
            available: flags(self.available@),
            refreshed: self.refreshed@,
        }
    }
}

/// Nothing collected.
pub open spec fn no_data() -> DataView {
    DataView {
        devices: Seq::empty(),
        unmanaged: Seq::empty(),
        zta: Map::empty(),
        alerts: Map::empty(),
        detections: Map::empty(),
        incidents: Map::empty(),
        vulns: Map::empty(),
        prevention: Map::empty(),
        sensor: Map::empty(),
        groups: Map::empty(),
        available: Seq::empty(),
        refreshed: Seq::empty(),
    }
}

/// Every summary of a table is well-formed.
pub open spec fn summaries_wf(table: Map<Seq<char>, Summary>) -> bool {
    forall|key: Seq<char>| table.dom().contains(key) ==> (#[trigger] table[key]).wf()
}

impl Data {
    /// Every table is well-formed.
    pub open spec fn wf(&self) -> bool {
        &&& self.zta.wf()
        &&& self.alerts.wf()
        &&& self.detections.wf()
        &&& self.incidents.wf()
        &&& self.vulns.wf()
        &&& summaries_wf(self.vulns@)
        &&& self.prevention.wf()
        &&& self.sensor.wf()
        &&& self.groups.wf()
    }

    /// Nothing collected.
    pub fn new() -> (r: Data)
        ensures
            r.wf(),
            r@ == no_data(),
    {
        let r = Data {
            devices: Vec::new(),
            unmanaged: Vec::new(),
            zta: Table::new(),
            alerts: Table::new(),
            detections: Table::new(),
            incidents: Table::new(),
            vulns: Table::new(),
            prevention: Table::new(),
            sensor: Table::new(),
            groups: Table::new(),
            available: Vec::new(),
            refreshed: String::new(),
        };
        assert(r@ =~= no_data());
        r
    }
}

// ---------------------------------------------------------------------------------------------
// Lookup

/// The value under a key; nothing where the key is missing.
pub open spec fn under<V>(table: Map<Seq<char>, V>, key: Seq<char>) -> Option<V> {
    if table.dom().contains(key) {
        Some(table[key])
    } else {
        None
    }
}

/// The list under a key; empty where the key is missing.
pub open spec fn all_under(table: Map<Seq<char>, Seq<Json>>, key: Seq<char>) -> Seq<Json> {
    if table.dom().contains(key) {
        table[key]
    } else {
        Seq::empty()
    }
}

/// The document of an optional value.
pub open spec fn option_json(value: Option<&serde_json::Value>) -> Option<Json> {
    match value {
        Some(v) => Some(json(*v)),
        None => None,
    }
}

/// The document under a key.
pub fn look_up<'a>(table: &'a Table<serde_json::Value>, key: &str) -> (r: Option<
    &'a serde_json::Value,
>)
    requires
        table.wf(),
    ensures
        option_json(r) == under(documents(table@), key@),
{
    table.get(key)
}

} // verus!
