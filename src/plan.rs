use crate::record::{bytes_of, size, Limits, Record};
use vstd::multiset::Multiset;
use vstd::prelude::*;

verus! {

/// Whether the open batch must be closed before `r` can join it: it holds
/// something, and one more record, or `r`'s bytes, would go past a limit.
pub open spec fn closes(open: Seq<Record>, r: Record, lim: Limits) -> bool {
    open.len() > 0 && (open.len() + 1 > lim.max_count || bytes_of(open) + size(r) > lim.max_bytes)
}

/// One greedy step on (closed batches, open batch): `r` joins the open batch,
/// or the open batch is closed and `r` starts the next one.
pub open spec fn take_record(state: (Seq<Seq<Record>>, Seq<Record>), r: Record, lim: Limits) -> (
    Seq<Seq<Record>>,
    Seq<Record>,
) {
    if closes(state.1, r, lim) {
        (state.0.push(state.1), seq![r])
    } else {
        (state.0, state.1.push(r))
    }
}

/// The greedy packing of `s`, whose records are taken from the last to the
/// first: the batches closed so far and the open batch.
pub open spec fn pack(s: Seq<Record>, lim: Limits) -> (Seq<Seq<Record>>, Seq<Record>)
    decreases s.len(),
{
    if s.len() == 0 {
        (seq![], seq![])
    } else {
        take_record(pack(s.drop_first(), lim), s.first(), lim)
    }
}

/// The batches that an upload of `s` writes, in the order they are written.
pub open spec fn batches(s: Seq<Record>, lim: Limits) -> Seq<Seq<Record>> {
    let (c, o) = pack(s, lim);
    if o.len() == 0 {
        c
    } else {
        c.push(o)
    }
}

/// All records of a sequence of batches, batch after batch.
pub open spec fn records_of(bs: Seq<Seq<Record>>) -> Seq<Record>
    decreases bs.len(),
{
    if bs.len() == 0 {
        seq![]
    } else {
        records_of(bs.drop_last()) + bs.last()
    }
}

/// A batch is never empty, and one of two or more records keeps both limits.
pub open spec fn within(b: Seq<Record>, lim: Limits) -> bool {
    b.len() >= 1 && (b.len() >= 2 ==> b.len() <= lim.max_count && bytes_of(b) <= lim.max_bytes)
}

/// `a` is a prefix of `b`.
pub open spec fn prefix_of(a: Seq<Seq<Record>>, b: Seq<Seq<Record>>) -> bool {
    a.len() <= b.len() && forall|i: int| 0 <= i < a.len() ==> #[trigger] a[i] == b[i]
}

proof fn lemma_records_of_push(bs: Seq<Seq<Record>>, b: Seq<Record>)
    ensures
        records_of(bs.push(b)) == records_of(bs) + b,
{
    assert(bs.push(b).drop_last() =~= bs);
}

/// Adding a record to a batch adds its size to the batch's bytes.
pub proof fn lemma_bytes_of_push(b: Seq<Record>, r: Record)
    ensures
        bytes_of(b.push(r)) == bytes_of(b) + size(r),
{
    assert(b.push(r).drop_last() =~= b);
}

proof fn lemma_bytes_of_member(b: Seq<Record>, j: int)
    requires
        0 <= j < b.len(),
    ensures
        bytes_of(b) >= size(b[j]),
    decreases b.len(),
{
    if j < b.len() - 1 {
        lemma_bytes_of_member(b.drop_last(), j);
    }
    lemma_bytes_of_nonneg(b.drop_last());
}

proof fn lemma_bytes_of_nonneg(b: Seq<Record>)
    ensures
        bytes_of(b) >= 0,
    decreases b.len(),
{
    if b.len() > 0 {
        lemma_bytes_of_nonneg(b.drop_last());
    }
}

proof fn lemma_pack_records(s: Seq<Record>, lim: Limits)
    ensures
        (records_of(pack(s, lim).0) + pack(s, lim).1).to_multiset() == s.to_multiset(),
    decreases s.len(),
{
    broadcast use vstd::seq_lib::group_to_multiset_ensures;

    if s.len() > 0 {
        let rest = s.drop_first();
        let (c, o) = pack(rest, lim);
        let f = s.first();
        lemma_pack_records(rest, lim);
        if closes(o, f, lim) {
            lemma_records_of_push(c, o);
            assert(records_of(c.push(o)) + seq![f] =~= (records_of(c) + o).push(f));
        } else {
            assert(records_of(c) + o.push(f) =~= (records_of(c) + o).push(f));
        }
        assert(s =~= seq![f] + rest);
        vstd::seq_lib::lemma_multiset_commutative(seq![f], rest);
        assert(seq![f].to_multiset() =~= Multiset::empty().insert(f)) by {
            assert(Seq::<Record>::empty().push(f) =~= seq![f]);
        }
    }
}

proof fn lemma_pack_within(s: Seq<Record>, lim: Limits)
    ensures
        forall|i: int| 0 <= i < pack(s, lim).0.len() ==> within(#[trigger] pack(s, lim).0[i], lim),
        s.len() > 0 ==> within(pack(s, lim).1, lim),
    decreases s.len(),
{
    if s.len() > 0 {
        let rest = s.drop_first();
        let (c, o) = pack(rest, lim);
        let f = s.first();
        lemma_pack_within(rest, lim);
        lemma_bytes_of_push(o, f);
        assert(seq![f].len() == 1);
        if !closes(o, f, lim) && o.len() == 0 {
            assert(o.push(f).len() == 1);
        }
    }
}

/// Every record of the input lands in exactly one batch: the records of all
/// batches, counted with multiplicity, are those of the input.
pub proof fn lemma_batches_complete(s: Seq<Record>, lim: Limits)
    ensures
        records_of(batches(s, lim)).to_multiset() == s.to_multiset(),
{
    let (c, o) = pack(s, lim);
    lemma_pack_records(s, lim);
    if o.len() == 0 {
        assert(records_of(c) + o =~= records_of(c));
    } else {
        lemma_records_of_push(c, o);
    }
}

/// No batch is empty, and every batch of two or more records holds at most
/// `max_count` records and at most `max_bytes` bytes; only a record alone in
/// its batch may go past a limit.
pub proof fn lemma_batches_within_limits(s: Seq<Record>, lim: Limits)
    ensures
        forall|i: int| 0 <= i < batches(s, lim).len() ==> within(#[trigger] batches(s, lim)[i], lim),
{
    lemma_pack_within(s, lim);
}

/// A record larger than `max_bytes` is written in a batch of its own.
pub proof fn lemma_oversized_record_alone(s: Seq<Record>, lim: Limits, i: int, j: int)
    requires
        0 <= i < batches(s, lim).len(),
        0 <= j < batches(s, lim)[i].len(),
        size(batches(s, lim)[i][j]) > lim.max_bytes,
    ensures
        batches(s, lim)[i].len() == 1,
{
    lemma_batches_within_limits(s, lim);
    lemma_bytes_of_member(batches(s, lim)[i], j);
}

/// An empty input gives no batch, whatever the limits.
pub proof fn lemma_empty_input_no_batches(lim: Limits)
    ensures
        batches(Seq::<Record>::empty(), lim).len() == 0,
{
}

/// The batches closed after taking the records of a suffix of `s` stay the
/// first batches of `s`.
pub proof fn lemma_pack_prefix(s: Seq<Record>, m: int, lim: Limits)
    requires
        0 <= m <= s.len(),
    ensures
        prefix_of(pack(s.subrange(m, s.len() as int), lim).0, batches(s, lim)),
    decreases m,
{
    if m == 0 {
        assert(s.subrange(0, s.len() as int) =~= s);
    } else {
        lemma_pack_prefix(s, m - 1, lim);
        let t = s.subrange(m - 1, s.len() as int);
        assert(t.drop_first() =~= s.subrange(m, s.len() as int));
        let c = pack(s.subrange(m, s.len() as int), lim).0;
        let d = pack(t, lim).0;
        assert(prefix_of(c, d));
        assert forall|i: int| 0 <= i < c.len() implies #[trigger] c[i] == batches(s, lim)[i] by {
            assert(c[i] == d[i]);
        }
    }
}

} // verus!
