//! What holds of the tables that documents are sorted into.
use crate::falcon::collect_laws::{law_counted, lemma_with_hosts, times_named, with_text};
use crate::falcon::data::{all_under, under};
use crate::falcon::gather::{by_device_of, by_host_of, counted, indexed, summary_under};
use crate::falcon::score::summary_of;
use crate::json::{at_pointer, member_of, Json};
use vstd::prelude::*;

verus! {

/// Under a device stand the alerts or detections that name it as their device, in order.
pub proof fn law_found_on_device(found: Seq<Json>, id: Seq<char>)
    ensures
        all_under(by_device_of(found), id) == found.filter(
            |d: Json| at_pointer(d, "/device/device_id"@) == Some(Json::Text(id)),
        ),
    decreases found.len(),
{
    reveal(Seq::filter);
    if found.len() > 0 {
        law_found_on_device(found.drop_last(), id);
    }
}

proof fn lemma_times_named(hosts: Seq<Json>, id: Seq<char>)
    ensures
        times_named(hosts, id) == hosts.filter(
            |h: Json| member_of(h, "device_id"@) == Some(Json::Text(id)),
        ).len(),
    decreases hosts.len(),
{
    reveal(Seq::filter);
    if hosts.len() > 0 {
        lemma_times_named(hosts.drop_last(), id);
    }
}

/// A further incident stands behind the earlier ones of a device once for each of its hosts that is
/// the device. Without incidents no device has any.
pub proof fn law_hit(found: Seq<Json>, incident: Json, hosts: Seq<Json>, id: Seq<char>)
    requires
        member_of(incident, "hosts"@) == Some(Json::Array(hosts)),
    ensures
        all_under(by_host_of(Seq::empty()), id) == Seq::<Json>::empty(),
        all_under(by_host_of(found.push(incident)), id) == all_under(by_host_of(found), id)
            + Seq::new(
            hosts.filter(|h: Json| member_of(h, "device_id"@) == Some(Json::Text(id))).len(),
            |i: int| incident,
        ),
{
    assert(found.push(incident).drop_last() == found);
    lemma_with_hosts(by_host_of(found), hosts, incident, id);
    lemma_times_named(hosts, id);
}

/// An incident without hosts belongs to no device.
pub proof fn law_no_hosts(found: Seq<Json>, incident: Json)
    requires
        !(member_of(incident, "hosts"@) matches Some(Json::Array(_))),
    ensures
        by_host_of(found.push(incident)) == by_host_of(found),
{
    assert(found.push(incident).drop_last() == found);
}

/// Under an identifier stands the last document whose member is that text, and nothing where there is
/// none.
pub proof fn law_last_with_id(found: Seq<Json>, key: Seq<char>, id: Seq<char>, i: int)
    requires
        -1 <= i < found.len(),
        i >= 0 ==> member_of(found[i], key) == Some(Json::Text(id)),
        forall|j: int|
            i < j < found.len() ==> member_of(#[trigger] found[j], key) != Some(Json::Text(id)),
    ensures
        under(indexed(Map::empty(), found, key), id) == (if i >= 0 {
            Some(found[i])
        } else {
            None
        }),
    decreases found.len(),
{
    if found.len() > 0 {
        let front = found.drop_last();
        assert(found[found.len() - 1] == found.last());
        if i < front.len() {
            assert forall|j: int| i < j < front.len() implies member_of(#[trigger] front[j], key)
                != Some(Json::Text(id)) by {
                assert(front[j] == found[j]);
            }
            law_last_with_id(front, key, id, i);
        }
    }
}

proof fn lemma_with_text(found: Seq<Json>, key: Seq<char>, id: Seq<char>)
    ensures
        with_text(found, key, id) == found.filter(
            |v: Json| member_of(v, key) == Some(Json::Text(id)),
        ),
    decreases found.len(),
{
    reveal(Seq::filter);
    if found.len() > 0 {
        lemma_with_text(found.drop_last(), key, id);
    }
}

/// The summary of a device is that of the vulnerabilities that name it, in order.
pub proof fn law_vulnerable(found: Seq<Json>, id: Seq<char>)
    ensures
        summary_under(counted(Map::empty(), found), id) == summary_of(
            found.filter(|v: Json| member_of(v, "aid"@) == Some(Json::Text(id))),
        ),
        counted(Map::empty(), found).dom().contains(id) <==> exists|i: int|
            0 <= i < found.len() && member_of(#[trigger] found[i], "aid"@) == Some(Json::Text(id)),
    decreases found.len(),
{
    law_counted(found, Seq::empty(), id);
    lemma_with_text(found, "aid"@, id);
    if found.len() > 0 {
        let front = found.drop_last();
        law_vulnerable(front, id);
        assert(found[found.len() - 1] == found.last());
        if exists|i: int|
            0 <= i < front.len() && member_of(#[trigger] front[i], "aid"@) == Some(Json::Text(id)) {
            let i = choose|i: int|
                0 <= i < front.len() && member_of(#[trigger] front[i], "aid"@) == Some(
                    Json::Text(id),
                );
            assert(member_of(found[i], "aid"@) == Some(Json::Text(id)));
        }
        if exists|i: int|
            0 <= i < found.len() && member_of(#[trigger] found[i], "aid"@) == Some(Json::Text(id)) {
            let i = choose|i: int|
                0 <= i < found.len() && member_of(#[trigger] found[i], "aid"@) == Some(
                    Json::Text(id),
                );
            if i < front.len() {
                assert(member_of(front[i], "aid"@) == Some(Json::Text(id)));
            }
        }
    }
}

} // verus!
