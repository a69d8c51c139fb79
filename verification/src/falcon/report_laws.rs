//! What the pieces of a report make together.
use crate::document::lemma_plain_is_not_escaped;
use crate::falcon::data::DataView;
use crate::falcon::device::{mac_address, managed_record, unmanaged_asset, Fields};
use crate::falcon::report::{
    asset_records, endpoint_records, piece_of, piece_written, report_start, reported, tail_fields,
    tail_of, whole_report, with_mac, Part, ReportView,
};
use crate::json::{collected, comma, items_text, json_text, members_text, quoted, with_member, Json};
use vstd::prelude::*;

verus! {

/// A report behind so many pieces.
pub open spec fn after_pieces(r: ReportView, n: nat) -> ReportView
    decreases n,
{
    if n == 0 {
        r
    } else {
        piece_written(after_pieces(r, (n - 1) as nat))
    }
}

/// The text of the first pieces, given the points of each device.
pub open spec fn text_of_pieces(r: ReportView, points: Seq<u64>, n: nat) -> Seq<char>
    decreases n,
{
    if n == 0 {
        Seq::empty()
    } else {
        let before = after_pieces(r, (n - 1) as nat);
        text_of_pieces(r, points, (n - 1) as nat) + match piece_of(
            before,
            points[before.at as int],
        ) {
            Some(piece) => piece,
            None => Seq::empty(),
        }
    }
}

/// The number of pieces of a report: one for each record, and three around them.
pub open spec fn piece_count(data: DataView) -> nat {
    data.devices.len() + data.unmanaged.len() + 3
}

proof fn lemma_endpoints(r: ReportView, points: Seq<u64>, k: nat)
    requires
        r.part == Part::Head,
        k <= r.data.devices.len(),
    ensures
        after_pieces(r, 1 + k) == (ReportView { part: Part::Endpoints, at: k, ..r }),
        text_of_pieces(r, points, 1 + k) == "{\"endpoints\":["@ + items_text(
            endpoint_records(r.data, points).take(k as int),
        ),
    decreases k,
{
    let records = endpoint_records(r.data, points);
    if k == 0 {
        assert(after_pieces(r, 0) == r);
        assert(text_of_pieces(r, points, 0) == Seq::<char>::empty());
        assert(items_text(records.take(0)) == Seq::<char>::empty());
        assert(text_of_pieces(r, points, 1) =~= "{\"endpoints\":["@);
        assert("{\"endpoints\":["@ + Seq::<char>::empty() =~= "{\"endpoints\":["@);
    } else {
        let j = (k - 1) as nat;
        lemma_endpoints(r, points, j);
        assert(1 + j == k);
        let taken = records.take(k as int);
        assert(taken.drop_last() == records.take(j as int));
        assert(taken[k - 1] == managed_record(r.data.devices[k - 1], r.data, points[k - 1]));
        let head = "{\"endpoints\":["@;
        assert(head + items_text(records.take(j as int)) + (comma(j as int) + json_text(
            taken[k - 1],
        )) =~= head + (items_text(records.take(j as int)) + comma(j as int) + json_text(
            taken[k - 1],
        )));
    }
}

proof fn lemma_assets(r: ReportView, points: Seq<u64>, k: nat)
    requires
        r.part == Part::Head,
        k <= r.data.unmanaged.len(),
    ensures
        after_pieces(r, 2 + r.data.devices.len() + k) == (ReportView {
            part: Part::Unmanaged,
            at: k,
            ..r
        }),
        text_of_pieces(r, points, 2 + r.data.devices.len() + k) == "{\"endpoints\":["@ + items_text(
            endpoint_records(r.data, points),
        ) + "],\"unmanaged\":["@ + items_text(asset_records(r.data).take(k as int)),
    decreases k,
{
    let records = asset_records(r.data);
    let devices = r.data.devices.len();
    let front = "{\"endpoints\":["@ + items_text(endpoint_records(r.data, points))
        + "],\"unmanaged\":["@;
    if k == 0 {
        lemma_endpoints(r, points, devices);
        assert(endpoint_records(r.data, points).take(devices as int) == endpoint_records(
            r.data,
            points,
        ));
        assert(items_text(records.take(0)) == Seq::<char>::empty());
        assert(front + Seq::<char>::empty() =~= front);
        assert((1 + devices + 1) as nat == 2 + devices);
    } else {
        let j = (k - 1) as nat;
        lemma_assets(r, points, j);
        let taken = records.take(k as int);
        assert(taken.drop_last() == records.take(j as int));
        assert(taken[k - 1] == unmanaged_asset(r.data.unmanaged[k - 1], r.data.refreshed));
        assert(2 + devices + j + 1 == 2 + devices + k);
        assert(front + items_text(records.take(j as int)) + (comma(j as int) + json_text(
            taken[k - 1],
        )) =~= front + (items_text(records.take(j as int)) + comma(j as int) + json_text(
            taken[k - 1],
        )));
    }
}

/// Members behind other members.
proof fn lemma_members(a: Fields, b: Fields)
    requires
        a.len() > 0,
        b.len() > 0,
    ensures
        members_text(a + b) == members_text(a) + seq![','] + members_text(b),
    decreases b.len(),
{
    let last = b.len() - 1;
    let whole = a + b;
    assert(whole.drop_last() =~= a + b.drop_last());
    assert(whole[whole.len() - 1] == b[last]);
    let end = quoted(b[last].0) + seq![':'] + json_text(b[last].1);
    if b.len() == 1 {
        assert(a + b.drop_last() =~= a);
        assert(members_text(b.drop_last()) == Seq::<char>::empty());
        assert(members_text(b) =~= end);
        assert(members_text(whole) =~= members_text(a) + seq![','] + end);
    } else {
        lemma_members(a, b.drop_last());
        let front = members_text(b.drop_last());
        assert(members_text(b) =~= front + seq![','] + end);
        assert(members_text(whole) =~= members_text(a) + seq![','] + front + seq![','] + end);
        assert(members_text(whole) =~= members_text(a) + seq![','] + members_text(b));
    }
}

proof fn lemma_with_member_len(members: Fields, key: Seq<char>, value: Json)
    ensures
        with_member(members, key, value).len() > 0,
{
}

/// Members with one more behind them.
proof fn lemma_member(a: Fields, key: Seq<char>, value: Json)
    ensures
        members_text(a.push((key, value))) == members_text(a) + comma(a.len() as int) + quoted(key)
            + seq![':'] + json_text(value),
{
    assert(a.push((key, value)).drop_last() == a);
}

/// The head of a report with its two arrays.
proof fn lemma_arrays(first: Seq<Json>, second: Seq<Json>)
    ensures
        members_text(
            seq![("endpoints"@, Json::Array(first)), ("unmanaged"@, Json::Array(second))],
        ) == "\"endpoints\":["@ + items_text(first) + "],\"unmanaged\":["@ + items_text(second)
            + seq![']'],
{
    reveal_strlit("endpoints");
    reveal_strlit("unmanaged");
    reveal_strlit("\"endpoints\":[");
    reveal_strlit("],\"unmanaged\":[");
    lemma_plain_is_not_escaped("endpoints"@);
    lemma_plain_is_not_escaped("unmanaged"@);
    let none = Fields::empty();
    let one = none.push(("endpoints"@, Json::Array(first)));
    lemma_member(none, "endpoints"@, Json::Array(first));
    lemma_member(one, "unmanaged"@, Json::Array(second));
    let a = items_text(first);
    let b = items_text(second);
    assert(json_text(Json::Array(first)) == seq!['['] + a + seq![']']);
    assert(json_text(Json::Array(second)) == seq!['['] + b + seq![']']);
    assert(members_text(none) == Seq::<char>::empty());
    assert(comma(none.len() as int) == Seq::<char>::empty());
    assert(comma(one.len() as int) == seq![',']);
    assert(one.push(("unmanaged"@, Json::Array(second))) =~= seq![
        ("endpoints"@, Json::Array(first)),
        ("unmanaged"@, Json::Array(second)),
    ]);
    assert(quoted("endpoints"@) + seq![':'] + seq!['['] =~= "\"endpoints\":["@);
    assert(seq![']'] + seq![','] + quoted("unmanaged"@) + seq![':'] + seq!['[']
        =~= "],\"unmanaged\":["@);
    lemma_two(
        quoted("endpoints"@),
        seq![':'],
        seq!['['],
        a,
        seq![']'],
        seq![','],
        quoted("unmanaged"@),
        b,
    );
}

/// How two arrays are put together.
proof fn lemma_two(
    key: Seq<char>,
    colon: Seq<char>,
    open: Seq<char>,
    a: Seq<char>,
    close: Seq<char>,
    separator: Seq<char>,
    second: Seq<char>,
    b: Seq<char>,
)
    ensures
        Seq::<char>::empty() + Seq::<char>::empty() + key + colon + (open + a + close) + separator
            + second + colon + (open + b + close) == (key + colon + open) + a + (close + separator
            + second + colon + open) + b + close,
{
    let none = Seq::<char>::empty();
    assert(none + none + key =~= key);
    assert(key + colon + (open + a + close) =~= (key + colon + open) + a + close);
    let front = (key + colon + open) + a;
    assert(front + close + separator + second + colon + (open + b + close) =~= front + (close
        + separator + second + colon + open) + b + close);
}

/// How a report is put together.
proof fn lemma_frame(
    open: Seq<char>,
    front: Seq<char>,
    close: Seq<char>,
    separator: Seq<char>,
    members: Seq<char>,
    end: Seq<char>,
)
    ensures
        open + (front + close + separator + members) + end == (open + front) + ((close + separator)
            + (members + end)),
{
    assert(open + (front + close + separator + members) + end =~= (open + front) + ((close
        + separator) + (members + end)));
}

/// The text of a report.
proof fn lemma_whole(shown: DataView, points: Seq<u64>)
    ensures
        json_text(whole_report(shown, points)) == "{\"endpoints\":["@ + items_text(
            endpoint_records(shown, points),
        ) + "],\"unmanaged\":["@ + items_text(asset_records(shown)) + ("],"@ + json_text(
            tail_of(shown),
        ).skip(1)),
{
    let first = endpoint_records(shown, points);
    let second = asset_records(shown);
    let tail = collected(tail_fields(shown));
    assert(tail.len() > 0) by {
        let fields = tail_fields(shown);
        lemma_with_member_len(collected(fields.drop_last()), fields.last().0, fields.last().1);
    }
    let arrays = seq![("endpoints"@, Json::Array(first)), ("unmanaged"@, Json::Array(second))];
    lemma_members(arrays, tail);
    lemma_arrays(first, second);
    let a = items_text(first);
    let b = items_text(second);
    let m = members_text(tail);
    assert(json_text(tail_of(shown)).skip(1) =~= m + seq!['}']);
    reveal_strlit("{\"endpoints\":[");
    reveal_strlit("\"endpoints\":[");
    reveal_strlit("],");
    assert(seq![']'] + seq![','] =~= "],"@);
    let front = "\"endpoints\":["@ + a + "],\"unmanaged\":["@ + b;
    lemma_frame(seq!['{'], front, seq![']'], seq![','], m, seq!['}']);
    lemma_head(a, "],\"unmanaged\":["@, b);
}

proof fn lemma_head(a: Seq<char>, middle: Seq<char>, b: Seq<char>)
    ensures
        seq!['{'] + ("\"endpoints\":["@ + a + middle + b) == "{\"endpoints\":["@ + a + middle + b,
{
    reveal_strlit("{\"endpoints\":[");
    reveal_strlit("\"endpoints\":[");
    let key = "\"endpoints\":["@;
    assert(seq!['{'] + key =~= "{\"endpoints\":["@);
    assert(seq!['{'] + (key + a + middle + b) =~= (seq!['{'] + key) + a + middle + b);
}

/// A piece follows while the document is not complete.
proof fn lemma_piece_follows(r: ReportView, points: Seq<u64>, k: nat)
    requires
        r.part == Part::Head,
        k < piece_count(r.data),
    ensures
        !(after_pieces(r, k).part == Part::Closed),
{
    let devices = r.data.devices.len();
    if k == 0 {
        assert(after_pieces(r, 0) == r);
    } else if k <= 1 + devices {
        lemma_endpoints(r, points, (k - 1) as nat);
        assert(1 + (k - 1) as nat == k);
    } else {
        lemma_assets(r, points, (k - 2 - devices) as nat);
        assert(2 + devices + (k - 2 - devices) as nat == k);
    }
}

/// The text of all pieces.
proof fn lemma_all_pieces(r: ReportView, points: Seq<u64>)
    requires
        r.part == Part::Head,
    ensures
        after_pieces(r, piece_count(r.data)).part == Part::Closed,
        text_of_pieces(r, points, piece_count(r.data)) == "{\"endpoints\":["@ + items_text(
            endpoint_records(r.data, points),
        ) + "],\"unmanaged\":["@ + items_text(asset_records(r.data)) + ("],"@ + json_text(
            tail_of(r.data),
        ).skip(1)),
{
    let devices = r.data.devices.len();
    let assets = r.data.unmanaged.len();
    lemma_assets(r, points, assets);
    let records = asset_records(r.data);
    assert(records.take(assets as int) == records);
    let earlier = 2 + devices + assets;
    assert(earlier + 1 == piece_count(r.data));
    let before = after_pieces(r, earlier);
    assert(before == (ReportView { part: Part::Unmanaged, at: assets, ..r }));
    assert(after_pieces(r, earlier + 1) == piece_written(before));
}

/// The pieces of a report, one after the other, are one JSON document: the records of the devices
/// and assets that have a MAC address, in order, and then the totals. Behind the last piece there
/// is none.
pub proof fn law_pieces_make_one_document(data: DataView, points: Seq<u64>)
    ensures
        text_of_pieces(report_start(data), points, piece_count(reported(data))) == json_text(
            whole_report(reported(data), points),
        ),
        after_pieces(report_start(data), piece_count(reported(data))).part == Part::Closed,
        forall|n: u64|
            piece_of(after_pieces(report_start(data), piece_count(reported(data))), n) is None,
        forall|k: nat, n: u64|
            k < piece_count(reported(data)) ==> #[trigger] piece_of(
                after_pieces(report_start(data), k),
                n,
            ) is Some,
{
    let r = report_start(data);
    lemma_all_pieces(r, points);
    lemma_whole(r.data, points);
    assert forall|k: nat, n: u64| k < piece_count(r.data) implies #[trigger] piece_of(
        after_pieces(r, k),
        n,
    ) is Some by {
        lemma_piece_follows(r, points, k);
    }
}

/// Every device and asset that is reported has a MAC address, and none that has one is left out.
pub proof fn law_reported_have_mac(values: Seq<Json>, value: Json)
    ensures
        with_mac(values).contains(value) <==> values.contains(value) && mac_address(value) is Some,
    decreases values.len(),
{
    if values.len() > 0 {
        let front = values.drop_last();
        law_reported_have_mac(front, value);
        if values.contains(value) {
            let i = values.index_of(value);
            if i < front.len() {
                assert(front[i] == value);
            }
        }
        if front.contains(value) {
            let i = front.index_of(value);
            assert(values[i] == value);
        }
        assert(values[values.len() - 1] == values.last());
        let kept = with_mac(front);
        if mac_address(values.last()) is Some {
            assert(with_mac(values)[kept.len() as int] == values.last());
            if kept.contains(value) {
                let i = kept.index_of(value);
                assert(with_mac(values)[i] == value);
            }
            if with_mac(values).contains(value) {
                let i = with_mac(values).index_of(value);
                if i < kept.len() {
                    assert(kept[i] == value);
                }
            }
        }
    }
}

} // verus!
