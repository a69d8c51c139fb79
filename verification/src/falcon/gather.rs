//! Sorting documents into tables.
use crate::falcon::data::{all_under, documents, lists, summaries, summaries_wf, under};
use crate::falcon::record::{items, items_of, string, text_member};
use crate::falcon::score::{no_vulnerabilities, with_vulnerability, Summary, SummaryView};
use crate::falcon::table::{list_under, Table};
use crate::json::{at_pointer, json, jsons, member, member_of, Json};
use vstd::prelude::*;

verus! {

/// The documents of a list under the text of a member; a later one takes the place of an earlier
/// one, and one without such a member is left out.
pub open spec fn indexed(
    base: Map<Seq<char>, Json>,
    found: Seq<Json>,
    key: Seq<char>,
) -> Map<Seq<char>, Json>
    decreases found.len(),
{
    if found.len() == 0 {
        base
    } else {
        match text_member(found.last(), key) {
            Some(id) => indexed(base, found.drop_last(), key).insert(id, found.last()),
            None => indexed(base, found.drop_last(), key),
        }
    }
}

/// Puts documents under the text of a member.
pub fn index(table: &mut Table<serde_json::Value>, found: &Vec<serde_json::Value>, key: &str)
    requires
        old(table).wf(),
    ensures
        final(table).wf(),
        documents(final(table)@) == indexed(documents(old(table)@), jsons(found@), key@),
{
    let ghost base = documents(table@);
    let ghost all = jsons(found@);
    let mut i: usize = 0;
    assert(documents(table@) =~= indexed(base, all.take(0), key@));
    while i < found.len()
        invariant
            i <= found@.len(),
            table.wf(),
            all == jsons(found@),
            documents(table@) == indexed(base, all.take(i as int), key@),
        decreases found@.len() - i,
    {
        assert(all.take(i + 1).drop_last() == all.take(i as int));
        assert(all.take(i + 1).last() == json(found@[i as int]));
        match string(&found[i], key) {
            Some(id) => {
                let ghost before = table@;
                let ghost name = id@;
                let value = found[i].clone();
                table.insert(id, value);
                assert(documents(table@) =~= documents(before).insert(name, json(value)));
            },
            None => {},
        }
        i += 1;
    }
    assert(all.take(found@.len() as int) == all);
}

/// A table of lists with a document appended to the list under a key.
pub open spec fn appended(
    table: Map<Seq<char>, Seq<Json>>,
    key: Seq<char>,
    document: Json,
) -> Map<Seq<char>, Seq<Json>> {
    table.insert(key, all_under(table, key).push(document))
}

fn append(table: &mut Table<Vec<serde_json::Value>>, key: String, value: serde_json::Value)
    requires
        old(table).wf(),
    ensures
        final(table).wf(),
        lists(final(table)@) == appended(lists(old(table)@), key@, json(value)),
{
    let ghost before = table@;
    table.push(key, value);
    proof {
        let list = list_under(before, key@);
        assert(jsons(list.push(value)) =~= jsons(list).push(json(value)));
        assert(jsons(list) =~= all_under(lists(before), key@));
        assert(lists(table@) =~= appended(lists(before), key@, json(value)));
    }
}

/// The device that a document belongs to.
pub open spec fn device_of(document: Json) -> Option<Seq<char>> {
    match at_pointer(document, "/device/device_id"@) {
        Some(Json::Text(id)) => Some(id),
        _ => None,
    }
}

/// The documents of a list under the device that they belong to, in order.
pub open spec fn by_device_of(found: Seq<Json>) -> Map<Seq<char>, Seq<Json>>
    decreases found.len(),
{
    if found.len() == 0 {
        Map::empty()
    } else {
        match device_of(found.last()) {
            Some(id) => appended(by_device_of(found.drop_last()), id, found.last()),
            None => by_device_of(found.drop_last()),
        }
    }
}

/// Sorts documents by the device that they belong to.
pub fn by_device(found: &Vec<serde_json::Value>) -> (r: Table<Vec<serde_json::Value>>)
    ensures
        r.wf(),
        lists(r@) == by_device_of(jsons(found@)),
{
    let mut table: Table<Vec<serde_json::Value>> = Table::new();
    let ghost all = jsons(found@);
    let mut i: usize = 0;
    assert(lists(table@) =~= by_device_of(all.take(0)));
    while i < found.len()
        invariant
            i <= found@.len(),
            table.wf(),
            all == jsons(found@),
            lists(table@) == by_device_of(all.take(i as int)),
        decreases found@.len() - i,
    {
        assert(all.take(i + 1).drop_last() == all.take(i as int));
        assert(all.take(i + 1).last() == json(found@[i as int]));
        match found[i].pointer("/device/device_id") {
            Some(value) => match value.as_str() {
                Some(id) => {
                    append(&mut table, id.to_owned(), found[i].clone());
                },
                None => {},
            },
            None => {},
        }
        i += 1;
    }
    assert(all.take(found@.len() as int) == all);
    table
}

/// A table with an incident appended to the list of each of its hosts.
pub open spec fn with_hosts(
    base: Map<Seq<char>, Seq<Json>>,
    hosts: Seq<Json>,
    incident: Json,
) -> Map<Seq<char>, Seq<Json>>
    decreases hosts.len(),
{
    if hosts.len() == 0 {
        base
    } else {
        match text_member(hosts.last(), "device_id"@) {
            Some(id) => appended(with_hosts(base, hosts.drop_last(), incident), id, incident),
            None => with_hosts(base, hosts.drop_last(), incident),
        }
    }
}

/// The incidents of a list under each of their hosts, in order.
pub open spec fn by_host_of(found: Seq<Json>) -> Map<Seq<char>, Seq<Json>>
    decreases found.len(),
{
    if found.len() == 0 {
        Map::empty()
    } else {
        with_hosts(
            by_host_of(found.drop_last()),
            items_of(member_of(found.last(), "hosts"@)),
            found.last(),
        )
    }
}

fn add_hosts(
    table: &mut Table<Vec<serde_json::Value>>,
    hosts: &Vec<serde_json::Value>,
    incident: &serde_json::Value,
)
    requires
        old(table).wf(),
    ensures
        final(table).wf(),
        lists(final(table)@) == with_hosts(lists(old(table)@), jsons(hosts@), json(*incident)),
{
    let ghost base = lists(table@);
    let ghost all = jsons(hosts@);
    let mut i: usize = 0;
    assert(lists(table@) =~= with_hosts(base, all.take(0), json(*incident)));
    while i < hosts.len()
        invariant
            i <= hosts@.len(),
            table.wf(),
            all == jsons(hosts@),
            lists(table@) == with_hosts(base, all.take(i as int), json(*incident)),
        decreases hosts@.len() - i,
    {
        assert(all.take(i + 1).drop_last() == all.take(i as int));
        assert(all.take(i + 1).last() == json(hosts@[i as int]));
        match string(&hosts[i], "device_id") {
            Some(id) => {
                append(table, id, incident.clone());
            },
            None => {},
        }
        i += 1;
    }
    assert(all.take(hosts@.len() as int) == all);
}

/// Sorts incidents by their hosts.
pub fn by_host(found: &Vec<serde_json::Value>) -> (r: Table<Vec<serde_json::Value>>)
    ensures
        r.wf(),
        lists(r@) == by_host_of(jsons(found@)),
{
    let mut table: Table<Vec<serde_json::Value>> = Table::new();
    let ghost all = jsons(found@);
    let mut i: usize = 0;
    assert(lists(table@) =~= by_host_of(all.take(0)));
    while i < found.len()
        invariant
            i <= found@.len(),
            table.wf(),
            all == jsons(found@),
            lists(table@) == by_host_of(all.take(i as int)),
        decreases found@.len() - i,
    {
        assert(all.take(i + 1).drop_last() == all.take(i as int));
        assert(all.take(i + 1).last() == json(found@[i as int]));
        let hosts = items(member(&found[i], "hosts"));
        add_hosts(&mut table, &hosts, &found[i]);
        i += 1;
    }
    assert(all.take(found@.len() as int) == all);
    table
}

/// The summary under a key; that of no vulnerability where the key is missing.
pub open spec fn summary_under(table: Map<Seq<char>, SummaryView>, key: Seq<char>) -> SummaryView {
    match under(table, key) {
        Some(summary) => summary,
        None => no_vulnerabilities(),
    }
}

/// The summaries with the vulnerabilities of a list counted, each for the device that it names.
pub open spec fn counted(
    base: Map<Seq<char>, SummaryView>,
    found: Seq<Json>,
) -> Map<Seq<char>, SummaryView>
    decreases found.len(),
{
    if found.len() == 0 {
        base
    } else {
        let front = counted(base, found.drop_last());
        match text_member(found.last(), "aid"@) {
            Some(id) => front.insert(
                id,
                with_vulnerability(summary_under(front, id), found.last()),
            ),
            None => front,
        }
    }
}

/// Counts a vulnerability for a device.
fn count_for(table: &mut Table<Summary>, id: String, vulnerability: &serde_json::Value)
    requires
        old(table).wf(),
        summaries_wf(old(table)@),
    ensures
        final(table).wf(),
        summaries_wf(final(table)@),
        summaries(final(table)@) == summaries(old(table)@).insert(
            id@,
            with_vulnerability(summary_under(summaries(old(table)@), id@), json(*vulnerability)),
        ),
{
    let ghost before = table@;
    let ghost key = id@;
    let known: bool = table.get(id.as_str()).is_some();
    if known {
        match table.get_mut(id.as_str()) {
            Some(summary) => {
                summary.count(vulnerability);
            },
            None => {},
        }
    } else {
        let mut summary = Summary::new();
        summary.count(vulnerability);
        table.insert(id, summary);
    }
    assert(summaries(table@) =~= summaries(before).insert(
        key,
        with_vulnerability(summary_under(summaries(before), key), json(*vulnerability)),
    ));
}

/// Counts vulnerabilities for the devices that they name.
pub fn count_all(table: &mut Table<Summary>, found: &Vec<serde_json::Value>)
    requires
        old(table).wf(),
        summaries_wf(old(table)@),
    ensures
        final(table).wf(),
        summaries_wf(final(table)@),
        summaries(final(table)@) == counted(summaries(old(table)@), jsons(found@)),
{
    let ghost base = summaries(table@);
    let ghost all = jsons(found@);
    let mut i: usize = 0;
    assert(summaries(table@) =~= counted(base, all.take(0)));
    while i < found.len()
        invariant
            i <= found@.len(),
            table.wf(),
            summaries_wf(table@),
            all == jsons(found@),
            summaries(table@) == counted(base, all.take(i as int)),
        decreases found@.len() - i,
    {
        assert(all.take(i + 1).drop_last() == all.take(i as int));
        assert(all.take(i + 1).last() == json(found@[i as int]));
        match string(&found[i], "aid") {
            Some(id) => {
                count_for(table, id, &found[i]);
            },
            None => {},
        }
        i += 1;
    }
    assert(all.take(found@.len() as int) == all);
}

} // verus!
