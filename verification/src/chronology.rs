//! Putting releases in the order of their publication.
use vstd::prelude::*;
use crate::detect::{TagRecord, VersionToTag};
use crate::timestamp::Timestamp;

verus! {

/// `sorted` with `record` put behind every record that was published before
/// it and in front of the others.
pub open spec fn insert_in_order(record: TagRecord, sorted: Seq<TagRecord>) -> Seq<TagRecord>
    decreases sorted.len(),
{
    if sorted.len() == 0 || !sorted.first().created_at.precedes(record.created_at) {
        seq![record] + sorted
    } else {
        seq![sorted.first()] + insert_in_order(record, sorted.drop_first())
    }
}

/// The records ordered by their time of publication, the earliest first.
/// Records of one and the same time keep the order they came in.
pub open spec fn chronological(records: Seq<TagRecord>) -> Seq<TagRecord>
    decreases records.len(),
{
    if records.len() == 0 {
        Seq::empty()
    } else {
        insert_in_order(records.first(), chronological(records.drop_first()))
    }
}

/// No record stands in front of one that was published before it.
pub open spec fn in_order(records: Seq<TagRecord>) -> bool {
    forall|i: int, j: int|
        0 <= i < j < records.len() ==> (#[trigger] records[i]).created_at.not_after(
            (#[trigger] records[j]).created_at,
        )
}

/// The test that a record was published at `time`.
pub open spec fn at_time(time: Timestamp) -> spec_fn(TagRecord) -> bool {
    |record: TagRecord| record.created_at == time
}

/// The records of `records` that were published at `time`, in their order.
pub open spec fn published_at(records: Seq<TagRecord>, time: Timestamp) -> Seq<TagRecord> {
    records.filter(at_time(time))
}

/// Orders the records by their time of publication, the earliest first,
/// keeping records of the same time in the order they came in.
pub fn sort_by_creation(records: Vec<VersionToTag>) -> (sorted: Vec<VersionToTag>)
    ensures
        sorted.deep_view() == chronological(records.deep_view()),
{
    let ghost given = records.deep_view();
    let mut records = records;
    let mut sorted: Vec<VersionToTag> = Vec::new();
    while records.len() > 0
        invariant
            records.len() <= given.len(),
            records.deep_view() == given.take(records.len() as int),
            sorted.deep_view() == chronological(given.skip(records.len() as int)),
        decreases records.len(),
    {
        let ghost remaining = records.len() as int;
        let ghost before = sorted.deep_view();
        let record = records.pop().unwrap();
        proof {
            assert(record.deep_view() == given[remaining - 1]) by {
                assert(given.take(remaining)[remaining - 1] == given[remaining - 1]);
            }
            assert(given.skip(remaining - 1).drop_first() =~= given.skip(remaining));
        }
        let mut place: usize = 0;
        while place < sorted.len() && sorted[place].created_at.is_before(&record.created_at)
            invariant
                place <= sorted.len(),
                sorted.deep_view() == before,
                forall|i: int|
                    0 <= i < place ==> (#[trigger] before[i]).created_at.precedes(
                        record.created_at,
                    ),
            decreases sorted.len() - place,
        {
            place = place + 1;
        }
        proof {
            lemma_insert_at(record.deep_view(), before, place as int);
        }
        sorted.insert(place, record);
    }
    proof {
        assert(given.skip(0) =~= given);
    }
    sorted
}

/// Where every record in front of `place` was published before `record` and
/// the one at `place` was not, `record` goes to `place`.
proof fn lemma_insert_at(record: TagRecord, sorted: Seq<TagRecord>, place: int)
    requires
        0 <= place <= sorted.len(),
        forall|i: int|
            0 <= i < place ==> (#[trigger] sorted[i]).created_at.precedes(record.created_at),
        place < sorted.len() ==> !sorted[place].created_at.precedes(record.created_at),
    ensures
        insert_in_order(record, sorted) == sorted.insert(place, record),
    decreases sorted.len(),
{
    if place > 0 {
        let rest = sorted.drop_first();
        lemma_insert_at(record, rest, place - 1);
    }
}

/// Putting a record into an ordered sequence leaves the sequence ordered.
proof fn lemma_insert_keeps_order(record: TagRecord, sorted: Seq<TagRecord>)
    requires
        in_order(sorted),
    ensures
        in_order(insert_in_order(record, sorted)),
        forall|i: int|
            0 <= i < insert_in_order(record, sorted).len() ==> {
                let member = #[trigger] insert_in_order(record, sorted)[i];
                member == record || sorted.contains(member)
            },
    decreases sorted.len(),
{
    if sorted.len() == 0 || !sorted.first().created_at.precedes(record.created_at) {
    } else {
        let rest = sorted.drop_first();
        lemma_insert_keeps_order(record, rest);
    }
}

/// The output is in order: a record that was published before another one
/// stands in front of it, wherever the two stood before.
pub proof fn lemma_chronological_in_order(records: Seq<TagRecord>)
    ensures
        in_order(chronological(records)),
        forall|i: int, j: int|
            0 <= i < chronological(records).len() && 0 <= j < chronological(records).len() && (
            #[trigger] chronological(records)[i]).created_at.precedes(
                (#[trigger] chronological(records)[j]).created_at,
            ) ==> i < j,
    decreases records.len(),
{
    if records.len() > 0 {
        lemma_chronological_in_order(records.drop_first());
        lemma_insert_keeps_order(records.first(), chronological(records.drop_first()));
    }
}

/// Ordering neither drops a record nor adds one.
pub proof fn lemma_chronological_same_records(records: Seq<TagRecord>)
    ensures
        chronological(records).to_multiset() =~= records.to_multiset(),
        chronological(records).len() == records.len(),
    decreases records.len(),
{
    broadcast use vstd::multiset::group_multiset_axioms;

    if records.len() > 0 {
        let rest = records.drop_first();
        lemma_chronological_same_records(rest);
        lemma_insert_same_records(records.first(), chronological(rest));
        vstd::seq_lib::lemma_multiset_commutative(seq![records.first()], rest);
        assert(seq![records.first()] + rest =~= records);
    }
    chronological(records).to_multiset_ensures();
    records.to_multiset_ensures();
}

proof fn lemma_insert_same_records(record: TagRecord, sorted: Seq<TagRecord>)
    ensures
        insert_in_order(record, sorted).to_multiset() =~= seq![record].to_multiset().add(
            sorted.to_multiset(),
        ),
    decreases sorted.len(),
{
    broadcast use vstd::multiset::group_multiset_axioms;

    if sorted.len() == 0 || !sorted.first().created_at.precedes(record.created_at) {
        vstd::seq_lib::lemma_multiset_commutative(seq![record], sorted);
    } else {
        let rest = sorted.drop_first();
        lemma_insert_same_records(record, rest);
        vstd::seq_lib::lemma_multiset_commutative(
            seq![sorted.first()],
            insert_in_order(record, rest),
        );
        vstd::seq_lib::lemma_multiset_commutative(seq![sorted.first()], rest);
        assert(seq![sorted.first()] + rest =~= sorted);
    }
}

/// A record stands in the ordered sequence if and only if it stood in the
/// sequence before.
pub proof fn lemma_chronological_contains(records: Seq<TagRecord>, record: TagRecord)
    ensures
        chronological(records).contains(record) <==> records.contains(record),
{
    lemma_chronological_same_records(records);
    chronological(records).to_multiset_ensures();
    records.to_multiset_ensures();
    assert(chronological(records).to_multiset().count(record) == records.to_multiset().count(
        record,
    ));
}

/// Ordering is stable: the records of any one time stand in the output as
/// they stood in the input.
pub proof fn lemma_chronological_stable(records: Seq<TagRecord>, time: Timestamp)
    ensures
        published_at(chronological(records), time) == published_at(records, time),
    decreases records.len(),
{
    if records.len() > 0 {
        let rest = records.drop_first();
        lemma_chronological_stable(rest, time);
        lemma_insert_stable(records.first(), chronological(rest), time);
        rest.lemma_filter_prepend(records.first(), at_time(time));
        assert(seq![records.first()] + rest =~= records);
    }
}

proof fn lemma_insert_stable(record: TagRecord, sorted: Seq<TagRecord>, time: Timestamp)
    ensures
        published_at(insert_in_order(record, sorted), time) == (if record.created_at == time {
            seq![record]
        } else {
            Seq::empty()
        }) + published_at(sorted, time),
    decreases sorted.len(),
{
    if sorted.len() == 0 || !sorted.first().created_at.precedes(record.created_at) {
        sorted.lemma_filter_prepend(record, at_time(time));
    } else {
        let rest = sorted.drop_first();
        let first = sorted.first();
        lemma_insert_stable(record, rest, time);
        insert_in_order(record, rest).lemma_filter_prepend(first, at_time(time));
        assert(seq![first] + rest =~= sorted);
    }
}

} // verus!
