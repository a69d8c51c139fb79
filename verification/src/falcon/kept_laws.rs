//! What holds of everything that a collection keeps.
use crate::falcon::collect::{begun, devices_begun, found_taken, ids_of, with_found, CollectorView};
use crate::falcon::collect_laws::law_counted;
use crate::falcon::data::{all_under, under, DataView};
use crate::falcon::gather::{by_host_of, counted, summary_under};
use crate::falcon::gather_laws::{law_found_on_device, law_last_with_id, law_vulnerable};
use crate::falcon::score::summary_of;
use crate::falcon::stage::{following, is_enabled, rank, Stage};
use crate::json::{at_pointer, member_of, Json};
use vstd::prelude::*;

verus! {

/// What is kept of a part: its devices and assets as they are, the last of its policies, groups and
/// assessments under each identifier, the alerts and detections that name a device under it, and its
/// incidents under their hosts. Nothing that was kept of any other part changes.
pub proof fn law_kept(data: DataView, stage: Stage, found: Seq<Json>, id: Seq<char>, i: int)
    requires
        ({
            let key = if stage == Stage::Zta {
                "aid"@
            } else {
                "id"@
            };
            &&& -1 <= i < found.len()
            &&& i >= 0 ==> member_of(found[i], key) == Some(Json::Text(id))
            &&& forall|j: int|
                i < j < found.len() ==> member_of(#[trigger] found[j], key) != Some(Json::Text(id))
        }),
    ensures
        ({
            let kept = with_found(data, stage, found);
            let last = if i >= 0 {
                Some(found[i])
            } else {
                None
            };
            let named = found.filter(
                |d: Json| at_pointer(d, "/device/device_id"@) == Some(Json::Text(id)),
            );
            &&& kept.devices == (if stage == Stage::Devices {
                found
            } else {
                data.devices
            })
            &&& kept.unmanaged == (if stage == Stage::Unmanaged {
                found
            } else {
                data.unmanaged
            })
            &&& if stage == Stage::Prevention {
                under(kept.prevention, id) == last
            } else {
                kept.prevention == data.prevention
            }
            &&& if stage == Stage::Sensor {
                under(kept.sensor, id) == last
            } else {
                kept.sensor == data.sensor
            }
            &&& if stage == Stage::Groups {
                under(kept.groups, id) == last
            } else {
                kept.groups == data.groups
            }
            &&& if stage == Stage::Zta {
                under(kept.zta, id) == last
            } else {
                kept.zta == data.zta
            }
            &&& if stage == Stage::Alerts {
                all_under(kept.alerts, id) == named
            } else {
                kept.alerts == data.alerts
            }
            &&& if stage == Stage::Detections {
                all_under(kept.detections, id) == named
            } else {
                kept.detections == data.detections
            }
            &&& if stage == Stage::Incidents {
                kept.incidents == by_host_of(found)
            } else {
                kept.incidents == data.incidents
            }
            &&& stage != Stage::Vulnerabilities ==> kept.vulns == data.vulns
            &&& kept.available == data.available && kept.refreshed == data.refreshed
        }),
{
    if stage == Stage::Zta {
        law_last_with_id(found, "aid"@, id, i);
    } else {
        law_last_with_id(found, "id"@, id, i);
    }
    law_found_on_device(found, id);
}

/// The vulnerabilities that were found of some devices are counted on top of those of the devices
/// before: the summary of a device is that of all vulnerabilities so far that name it, in order.
pub proof fn law_counted_on(data: DataView, earlier: Seq<Json>, found: Seq<Json>, id: Seq<char>)
    requires
        data.vulns == counted(Map::empty(), earlier),
    ensures
        ({
            let kept = with_found(data, Stage::Vulnerabilities, found);
            &&& kept.vulns == counted(Map::empty(), earlier + found)
            &&& summary_under(kept.vulns, id) == summary_of(
                (earlier + found).filter(|v: Json| member_of(v, "aid"@) == Some(Json::Text(id))),
            )
        }),
{
    law_counted(earlier, found, id);
    law_vulnerable(earlier + found, id);
}

/// The identifiers of devices are the texts under their key, in order.
pub proof fn law_ids_of(devices: Seq<Json>)
    ensures
        ids_of(devices) == devices.filter(
            |d: Json| member_of(d, "device_id"@) matches Some(Json::Text(_)),
        ).map_values(|d: Json| member_of(d, "device_id"@)->0->Text_0),
    decreases devices.len(),
{
    reveal(Seq::filter);
    let p = |d: Json| member_of(d, "device_id"@) matches Some(Json::Text(_));
    let f = |d: Json| member_of(d, "device_id"@)->0->Text_0;
    let all = devices.filter(p).map_values(f);
    if devices.len() > 0 {
        law_ids_of(devices.drop_last());
        let front = devices.drop_last().filter(p);
        if p(devices.last()) {
            assert(all =~= front.map_values(f).push(f(devices.last())));
        }
    } else {
        assert(all =~= Seq::empty());
    }
}

proof fn lemma_begun_data(c: CollectorView, stage: Stage, now: Seq<char>)
    ensures
        ({
            let d = begun(c, stage, now);
            &&& d.data == (DataView { refreshed: d.data.refreshed, ..c.data })
            &&& d.data.refreshed == (if d.phase is Finished {
                now
            } else {
                c.data.refreshed
            })
            &&& d.device_ids == c.device_ids
            &&& d.phase is Finished || d.phase is Probe
        }),
    decreases 10 - rank(stage),
{
    if stage != Stage::Done && !is_enabled(c.features, stage) {
        lemma_begun_data(c, following(stage), now);
    }
}

/// When a part is over, its documents are kept, those of the devices give the identifiers that later
/// parts ask for, and nothing else changes but, behind the last part, the time.
pub proof fn law_part_ends(c: CollectorView, found: Seq<Json>, now: Seq<char>)
    requires
        c.stage != Stage::Done,
    ensures
        ({
            let d = found_taken(c, found, now);
            &&& d.data == (DataView {
                refreshed: d.data.refreshed,
                ..with_found(c.data, c.stage, found)
            })
            &&& d.data.refreshed == (if d.phase is Finished {
                now
            } else {
                c.data.refreshed
            })
            &&& c.stage == Stage::Devices ==> d.device_ids == ids_of(found)
            &&& c.stage != Stage::Devices ==> d.device_ids == c.device_ids
            &&& c.stage != Stage::Vulnerabilities ==> d.phase is Probe || d.phase is Finished
            &&& c.stage == Stage::Vulnerabilities ==> d == devices_begun(
                CollectorView { data: with_found(c.data, c.stage, found), ..c },
                now,
            )
        }),
{
    let taken = CollectorView {
        data: with_found(c.data, c.stage, found),
        device_ids: if c.stage == Stage::Devices {
            ids_of(found)
        } else {
            c.device_ids
        },
        ..c
    };
    lemma_begun_data(taken, following(c.stage), now);
}

} // verus!
