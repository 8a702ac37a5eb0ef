//! Snapshots: the records of one reading of the process table, busiest first.

use vstd::prelude::*;
use vstd::seq_lib::to_multiset_build;
use crate::process::{
    create_process_info_internal, process_record, ProcessInfo, ProcessRecord, RawProcess,
    RawProcessView,
};

verus! {

/// What a list of records holds.
pub open spec fn records_of(list: Seq<ProcessInfo>) -> Seq<ProcessRecord> {
    list.map_values(|info: ProcessInfo| info@)
}

/// What a process table holds.
pub open spec fn table_of(list: Seq<RawProcess>) -> Seq<RawProcessView> {
    list.map_values(|raw: RawProcess| raw@)
}

/// The records of a process table on a machine with `cores` cores, in the
/// table's order.
pub open spec fn normalized_table(table: Seq<RawProcessView>, cores: usize) -> Seq<ProcessRecord> {
    table.map_values(|raw: RawProcessView| process_record(raw, cores))
}

/// No record uses more of the processor than one before it.
pub open spec fn sorted_by_usage(list: Seq<ProcessRecord>) -> bool {
    forall|i: int, j: int| 0 <= i <= j < list.len() ==> list[i].cpu_usage >= list[j].cpu_usage
}

/// Whether a record has the given usage.
pub open spec fn has_usage(usage: u32) -> spec_fn(ProcessRecord) -> bool {
    |record: ProcessRecord| record.cpu_usage == usage
}

/// The records of `list` with the given usage, in the order of `list`.
pub open spec fn with_usage(list: Seq<ProcessRecord>, usage: u32) -> Seq<ProcessRecord> {
    list.filter(has_usage(usage))
}

/// `sorted` holds the records of `list` busiest first, and records with the
/// same usage stand in it as they stand in `list`.
pub open spec fn is_stable_sort_of(sorted: Seq<ProcessRecord>, list: Seq<ProcessRecord>) -> bool {
    &&& sorted.len() == list.len()
    &&& sorted_by_usage(sorted)
    &&& forall|usage: u32| with_usage(sorted, usage) == with_usage(list, usage)
}

/// `snapshot` is the snapshot of `table` on a machine with `cores` cores.
pub open spec fn is_snapshot_of(
    snapshot: Seq<ProcessRecord>,
    table: Seq<RawProcessView>,
    cores: usize,
) -> bool {
    is_stable_sort_of(snapshot, normalized_table(table, cores))
}

/// Of a single record, the records with a given usage are that record or none.
proof fn lemma_with_usage_of_one(record: ProcessRecord, usage: u32)
    ensures
        with_usage(seq![record], usage) == if record.cpu_usage == usage {
            seq![record]
        } else {
            Seq::empty()
        },
{
    let none = Seq::<ProcessRecord>::empty();
    reveal(Seq::filter);
    none.lemma_filter_push(record, has_usage(usage));
    assert(seq![record] =~= none.push(record));
    assert(none.filter(has_usage(usage)) =~= none);
}

/// Putting `record` in front of the first record that is not busier keeps a
/// sorted list sorted, and puts `record` before its equals.
proof fn lemma_insert_before_equals(
    sorted: Seq<ProcessRecord>,
    list: Seq<ProcessRecord>,
    record: ProcessRecord,
    at: int,
)
    requires
        is_stable_sort_of(sorted, list),
        0 <= at <= sorted.len(),
        forall|i: int| 0 <= i < at ==> sorted[i].cpu_usage > record.cpu_usage,
        at < sorted.len() ==> sorted[at].cpu_usage <= record.cpu_usage,
    ensures
        is_stable_sort_of(sorted.insert(at, record), seq![record] + list),
{
    let longer = sorted.insert(at, record);
    let before = sorted.subrange(0, at);
    let after = sorted.subrange(at, sorted.len() as int);
    assert(sorted =~= before + after);
    assert(longer =~= before + seq![record] + after);
    assert(sorted_by_usage(longer)) by {
        assert forall|i: int, j: int| 0 <= i <= j < longer.len() implies longer[i].cpu_usage
            >= longer[j].cpu_usage by {
            if i < at && j > at {
                assert(longer[j] == sorted[j - 1]);
                assert(sorted[i].cpu_usage >= sorted[j - 1].cpu_usage);
            } else if i > at {
                assert(longer[i] == sorted[i - 1]);
                assert(longer[j] == sorted[j - 1]);
            } else if i == at && j > at {
                assert(longer[j] == sorted[j - 1]);
                assert(sorted[at].cpu_usage >= sorted[j - 1].cpu_usage);
            }
        }
    }
    assert forall|usage: u32| with_usage(longer, usage) == with_usage(
        seq![record] + list,
        usage,
    ) by {
        let pred = has_usage(usage);
        Seq::filter_distributes_over_add(before, after, pred);
        Seq::filter_distributes_over_add(before + seq![record], after, pred);
        Seq::filter_distributes_over_add(before, seq![record], pred);
        Seq::filter_distributes_over_add(seq![record], list, pred);
        lemma_with_usage_of_one(record, usage);
        assert(with_usage(sorted, usage) == with_usage(list, usage));
        if record.cpu_usage == usage {
            before.lemma_all_neg_filter_empty(pred);
            assert(before.filter(pred) =~= Seq::<ProcessRecord>::empty());
            assert(longer.filter(pred) =~= seq![record] + after.filter(pred));
            assert(sorted.filter(pred) =~= after.filter(pred));
        } else {
            assert(longer.filter(pred) =~= before.filter(pred) + after.filter(pred));
        }
    }
}

/// A usage that occurs in one of two lists that agree on the records of every
/// usage occurs in the other.
proof fn lemma_usage_occurs_in_both(a: Seq<ProcessRecord>, b: Seq<ProcessRecord>, i: int)
    requires
        0 <= i < a.len(),
        with_usage(a, a[i].cpu_usage) == with_usage(b, a[i].cpu_usage),
    ensures
        exists|j: int| 0 <= j < b.len() && b[j].cpu_usage == a[i].cpu_usage,
{
    let pred = has_usage(a[i].cpu_usage);
    a.lemma_filter_contains(pred, i);
    b.lemma_filter_contains_rev(pred, a[i]);
    let j = choose|j: int| 0 <= j < b.len() && b[j] == a[i];
    assert(b[j].cpu_usage == a[i].cpu_usage);
}

/// Sorted lists that agree on the records of every usage are one list.
proof fn lemma_sorted_lists_agree(a: Seq<ProcessRecord>, b: Seq<ProcessRecord>)
    requires
        sorted_by_usage(a),
        sorted_by_usage(b),
        a.len() == b.len(),
        forall|usage: u32| with_usage(a, usage) == with_usage(b, usage),
    ensures
        a == b,
    decreases a.len(),
{
    if a.len() == 0 {
        assert(a =~= b);
    } else {
        let x = a[0];
        let y = b[0];
        let a_rest = a.drop_first();
        let b_rest = b.drop_first();
        assert(a =~= seq![x] + a_rest);
        assert(b =~= seq![y] + b_rest);
        assert(with_usage(a, x.cpu_usage) == with_usage(b, x.cpu_usage));
        assert(with_usage(b, y.cpu_usage) == with_usage(a, y.cpu_usage));
        lemma_usage_occurs_in_both(a, b, 0);
        lemma_usage_occurs_in_both(b, a, 0);
        assert(x.cpu_usage == y.cpu_usage);
        assert forall|usage: u32| with_usage(a_rest, usage) == with_usage(b_rest, usage) && (
        usage == x.cpu_usage ==> x == y) by {
            let pred = has_usage(usage);
            a_rest.lemma_filter_prepend(x, pred);
            b_rest.lemma_filter_prepend(y, pred);
            assert(with_usage(a, usage) == with_usage(b, usage));
            if usage == x.cpu_usage {
                let a_most = seq![x] + a_rest.filter(pred);
                let b_most = seq![y] + b_rest.filter(pred);
                assert(a_most == b_most);
                assert(a_most[0] == b_most[0]);
                assert(a_most.drop_first() =~= a_rest.filter(pred));
                assert(b_most.drop_first() =~= b_rest.filter(pred));
            } else {
                assert(Seq::<ProcessRecord>::empty() + a_rest.filter(pred) =~= a_rest.filter(pred));
                assert(Seq::<ProcessRecord>::empty() + b_rest.filter(pred) =~= b_rest.filter(pred));
            }
        }
        assert(with_usage(a_rest, x.cpu_usage) == with_usage(b_rest, x.cpu_usage) && x == y);
        assert(sorted_by_usage(a_rest)) by {
            assert forall|i: int, j: int| 0 <= i <= j < a_rest.len() implies a_rest[i].cpu_usage
                >= a_rest[j].cpu_usage by {
                assert(a_rest[i] == a[i + 1] && a_rest[j] == a[j + 1]);
            }
        }
        assert(sorted_by_usage(b_rest)) by {
            assert forall|i: int, j: int| 0 <= i <= j < b_rest.len() implies b_rest[i].cpu_usage
                >= b_rest[j].cpu_usage by {
                assert(b_rest[i] == b[i + 1] && b_rest[j] == b[j + 1]);
            }
        }
        lemma_sorted_lists_agree(a_rest, b_rest);
    }
}

/// A list has one stable sort: the order of a snapshot is decided by its
/// table alone.
pub proof fn lemma_stable_sort_is_unique(
    first: Seq<ProcessRecord>,
    second: Seq<ProcessRecord>,
    list: Seq<ProcessRecord>,
)
    requires
        is_stable_sort_of(first, list),
        is_stable_sort_of(second, list),
    ensures
        first == second,
{
    assert forall|usage: u32| with_usage(first, usage) == with_usage(second, usage) by {
        assert(with_usage(first, usage) == with_usage(list, usage));
        assert(with_usage(second, usage) == with_usage(list, usage));
    }
    lemma_sorted_lists_agree(first, second);
}

/// A record occurs in a list as often as among the records of its usage.
proof fn lemma_count_with_usage(list: Seq<ProcessRecord>, record: ProcessRecord)
    ensures
        list.to_multiset().count(record) == with_usage(list, record.cpu_usage).to_multiset().count(
            record,
        ),
    decreases list.len(),
{
    let pred = has_usage(record.cpu_usage);
    if list.len() == 0 {
        reveal(Seq::filter);
        assert(list.filter(pred) =~= list);
    } else {
        let front = list.drop_last();
        let last = list.last();
        lemma_count_with_usage(front, record);
        assert(list =~= front.push(last));
        front.lemma_filter_push(last, pred);
        to_multiset_build(front, last);
        if pred(last) {
            to_multiset_build(front.filter(pred), last);
        }
    }
}

/// A stable sort of a list holds every record as often as the list holds it:
/// a snapshot loses no process and invents none.
pub proof fn lemma_stable_sort_keeps_records(sorted: Seq<ProcessRecord>, list: Seq<ProcessRecord>)
    requires
        is_stable_sort_of(sorted, list),
    ensures
        sorted.to_multiset() == list.to_multiset(),
{
    assert forall|record: ProcessRecord|
        sorted.to_multiset().count(record) == list.to_multiset().count(record) by {
        lemma_count_with_usage(sorted, record);
        lemma_count_with_usage(list, record);
        assert(with_usage(sorted, record.cpu_usage) == with_usage(list, record.cpu_usage));
    }
    assert(sorted.to_multiset() =~= list.to_multiset());
}

/// The place of a new record among sorted ones: behind every busier record,
/// in front of the rest.
fn insertion_point(sorted: &Vec<ProcessInfo>, usage: u32) -> (at: usize)
    requires
        sorted_by_usage(records_of(sorted@)),
    ensures
        at <= sorted@.len(),
        forall|i: int| 0 <= i < at ==> sorted@[i].cpu_usage > usage,
        at < sorted@.len() ==> sorted@[at as int].cpu_usage <= usage,
{
    let mut at: usize = 0;
    while at < sorted.len() && sorted[at].cpu_usage > usage
        invariant
            at <= sorted@.len(),
            forall|i: int| 0 <= i < at ==> sorted@[i].cpu_usage > usage,
        decreases sorted@.len() - at,
    {
        at = at + 1;
    }
    at
}

/// Orders records busiest first. Records with the same usage keep their order.
pub fn sort_by_cpu_usage(list: Vec<ProcessInfo>) -> (sorted: Vec<ProcessInfo>)
    ensures
        is_stable_sort_of(records_of(sorted@), records_of(list@)),
{
    let ghost whole = records_of(list@);
    let mut rest = list;
    let mut sorted: Vec<ProcessInfo> = Vec::new();
    proof {
        assert(whole.subrange(rest@.len() as int, whole.len() as int) =~= Seq::empty());
        assert(records_of(sorted@) =~= Seq::empty());
    }
    while rest.len() > 0
        invariant
            rest@.len() <= whole.len(),
            records_of(rest@) == whole.subrange(0, rest@.len() as int),
            is_stable_sort_of(
                records_of(sorted@),
                whole.subrange(rest@.len() as int, whole.len() as int),
            ),
        decreases rest@.len(),
    {
        let ghost tail = whole.subrange(rest@.len() as int, whole.len() as int);
        let ghost before = records_of(sorted@);
        let ghost longer = rest@;
        let record = rest.pop().unwrap();
        let at = insertion_point(&sorted, record.cpu_usage);
        proof {
            lemma_insert_before_equals(before, tail, record@, at as int);
            assert(record@ == records_of(longer)[longer.len() - 1]);
            assert(record@ == whole[rest@.len() as int]);
            assert(seq![record@] + tail =~= whole.subrange(
                rest@.len() as int,
                whole.len() as int,
            ));
            assert(records_of(rest@) =~= whole.subrange(0, rest@.len() as int));
        }
        sorted.insert(at, record);
        proof {
            assert(records_of(sorted@) =~= before.insert(at as int, record@));
        }
    }
    proof {
        assert(whole.subrange(0, whole.len() as int) =~= whole);
    }
    sorted
}

/// The first `count` of the sorted records, or all of them where there are
/// fewer.
pub open spec fn is_top_of(top: Seq<ProcessRecord>, list: Seq<ProcessRecord>, count: int) -> bool {
    exists|sorted: Seq<ProcessRecord>|
        is_stable_sort_of(sorted, list) && top == sorted.take(
            if count <= sorted.len() {
                count
            } else {
                sorted.len() as int
            },
        )
}

/// The busiest records, busiest first: at most `count` of them.
pub fn top_processes(list: Vec<ProcessInfo>, count: usize) -> (top: Vec<ProcessInfo>)
    ensures
        is_top_of(records_of(top@), records_of(list@), count as int),
        sorted_by_usage(records_of(top@)),
{
    let mut top = sort_by_cpu_usage(list);
    let ghost sorted = records_of(top@);
    top.truncate(count);
    proof {
        let kept = if count <= sorted.len() {
            count as int
        } else {
            sorted.len() as int
        };
        assert(records_of(top@) =~= sorted.take(kept));
        assert(is_stable_sort_of(sorted, records_of(list@)));
    }
    top
}

/// Builds the snapshot of a process table: one record for each process, with
/// usage relative to the whole machine, busiest first; processes that are
/// equally busy keep the order of the table.
pub fn build_snapshot(table: &Vec<RawProcess>, cores: usize) -> (snapshot: Vec<ProcessInfo>)
    ensures
        is_snapshot_of(records_of(snapshot@), table_of(table@), cores),
        sorted_by_usage(records_of(snapshot@)),
        snapshot@.len() == table@.len(),
{
    let mut list: Vec<ProcessInfo> = Vec::new();
    let mut i: usize = 0;
    while i < table.len()
        invariant
            i <= table@.len(),
            records_of(list@) == normalized_table(table_of(table@), cores).subrange(0, i as int),
        decreases table@.len() - i,
    {
        let info = create_process_info_internal(&table[i], cores);
        let ghost shorter = records_of(list@);
        list.push(info);
        proof {
            let all = normalized_table(table_of(table@), cores);
            assert(all[i as int] == process_record(table_of(table@)[i as int], cores));
            assert(records_of(list@) =~= shorter.push(info@));
            assert(shorter.push(info@) =~= all.subrange(0, i + 1));
        }
        i = i + 1;
    }
    proof {
        let all = normalized_table(table_of(table@), cores);
        assert(all.subrange(0, all.len() as int) =~= all);
    }
    sort_by_cpu_usage(list)
}

} // verus!
