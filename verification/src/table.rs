//! Tables of records kept in the order of the addresses at which they
//! start, and the search for the record nearest below an address.

use vstd::prelude::*;

verus! {

/// A value that describes something which starts at an address.
pub trait Starts {
    /// The address at which it starts.
    spec fn start(&self) -> u64;
}

/// A record held in memory, for which a value stands in contracts.
pub trait Addressed {
    /// The type of the value that stands for the record.
    type Record: Starts;

    /// The value that stands for the record.
    spec fn record(&self) -> Self::Record;

    /// The address at which the record starts.
    fn start_address(&self) -> (a: u64)
        ensures
            a == self.record().start(),
    ;
}

/// The values that stand for the records of a table.
pub open spec fn views<T: Addressed>(s: Seq<T>) -> Seq<T::Record> {
    s.map_values(|t: T| t.record())
}

/// Whether the records stand in the order of their addresses.
pub open spec fn sorted<V: Starts>(s: Seq<V>) -> bool {
    forall|i: int, j: int| 0 <= i <= j < s.len() ==> s[i].start() <= s[j].start()
}

/// The position after the last record that starts at or below `addr`; zero
/// where there is none. In a sorted table every record before that position
/// starts at or below `addr`, and every later one above it.
pub open spec fn rank<V: Starts>(s: Seq<V>, addr: u64) -> int
    decreases s.len(),
{
    if s.len() == 0 {
        0
    } else if s.last().start() <= addr {
        s.len() as int
    } else {
        rank(s.drop_last(), addr)
    }
}

/// The table with `item` added in its place: after the records that start
/// at or below its address, before those above.
pub open spec fn with_record<V: Starts>(s: Seq<V>, item: V) -> Seq<V> {
    s.insert(rank(s, item.start()), item)
}

/// The record nearest below `addr`: the last that starts at or below it.
pub open spec fn nearest_below<V: Starts>(s: Seq<V>, addr: u64) -> Option<V> {
    if rank(s, addr) > 0 {
        Some(s[rank(s, addr) - 1])
    } else {
        None
    }
}

/// The rank lies inside the table; the record before it starts at or below
/// the address, and every record from it on starts above.
pub proof fn lemma_rank_bounds<V: Starts>(s: Seq<V>, addr: u64)
    ensures
        0 <= rank(s, addr) <= s.len(),
        rank(s, addr) > 0 ==> s[rank(s, addr) - 1].start() <= addr,
        forall|i: int| rank(s, addr) <= i < s.len() ==> s[i].start() > addr,
    decreases s.len(),
{
    if s.len() > 0 && s.last().start() > addr {
        lemma_rank_bounds(s.drop_last(), addr);
        assert forall|i: int| rank(s, addr) <= i < s.len() implies s[i].start() > addr by {
            if i < s.len() - 1 {
                assert(s.drop_last()[i] == s[i]);
            }
        }
    }
}

/// A position that parts the records at or below an address from those
/// above it is the rank of that address.
pub proof fn lemma_rank_is_partition<V: Starts>(s: Seq<V>, addr: u64, r: int)
    requires
        0 <= r <= s.len(),
        forall|i: int| 0 <= i < r ==> s[i].start() <= addr,
        forall|i: int| r <= i < s.len() ==> s[i].start() > addr,
    ensures
        rank(s, addr) == r,
{
    lemma_rank_bounds(s, addr);
    let k = rank(s, addr);
    if k < r {
        assert(s[k].start() <= addr);
    } else if k > r {
        assert(s[k - 1].start() > addr);
    }
}

/// Adding a record in its place keeps a sorted table sorted.
pub proof fn lemma_with_record_sorted<V: Starts>(s: Seq<V>, item: V)
    requires
        sorted(s),
    ensures
        sorted(with_record(s, item)),
{
    let r = rank(s, item.start());
    let t = with_record(s, item);
    lemma_rank_bounds(s, item.start());
    assert forall|i: int, j: int| 0 <= i <= j < t.len() implies t[i].start() <= t[j].start() by {
        if i < r {
            assert(s[i].start() <= s[r - 1].start());
        } else if i > r {
            assert(t[i] == s[i - 1]);
        }
        if j < r {
            assert(t[j] == s[j]);
        } else if j > r {
            assert(t[j] == s[j - 1]);
        }
    }
}

/// The position after the last record of a sorted table that starts at or
/// below `addr`.
pub(crate) fn find_rank<T: Addressed>(table: &Vec<T>, addr: u64) -> (r: usize)
    requires
        sorted(views(table@)),
    ensures
        r == rank(views(table@), addr),
        r <= table.len(),
{
    let mut lo: usize = 0;
    let mut hi: usize = table.len();
    while lo < hi
        invariant
            lo <= hi <= table.len(),
            sorted(views(table@)),
            forall|i: int| 0 <= i < lo ==> (#[trigger] views(table@)[i]).start() <= addr,
            forall|i: int| hi <= i < table.len() ==> (#[trigger] views(table@)[i]).start() > addr,
        decreases hi - lo,
    {
        let mid = lo + (hi - lo) / 2;
        if table[mid].start_address() <= addr {
            assert forall|i: int| 0 <= i < mid + 1 implies (#[trigger] views(table@)[i]).start()
                <= addr by {
                assert(views(table@)[i].start() <= views(table@)[mid as int].start());
            }
            lo = mid + 1;
        } else {
            assert forall|i: int| mid <= i < table.len() implies (#[trigger] views(
                table@,
            )[i]).start() > addr by {
                assert(views(table@)[mid as int].start() <= views(table@)[i].start());
            }
            hi = mid;
        }
    }
    proof {
        lemma_rank_is_partition(views(table@), addr, lo as int);
    }
    lo
}

/// Adds `item` to a sorted table in its place, and returns the position it
/// was given.
pub(crate) fn insert_record<T: Addressed>(table: &mut Vec<T>, item: T) -> (at: usize)
    requires
        sorted(views(old(table)@)),
    ensures
        final(table)@ == old(table)@.insert(at as int, item),
        views(final(table)@) == with_record(views(old(table)@), item.record()),
        at == rank(views(old(table)@), item.record().start()),
        at <= old(table)@.len(),
        sorted(views(final(table)@)),
{
    let at = find_rank(table, item.start_address());
    proof {
        lemma_with_record_sorted(views(table@), item.record());
        assert(views(table@.insert(at as int, item)) =~= views(table@).insert(
            at as int,
            item.record(),
        ));
    }
    table.insert(at, item);
    at
}

} // verus!
