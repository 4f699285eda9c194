//! A sparse seek index for one loaded media file: an ordered table of
//! (playback position, byte offset) samples, answering floor lookups in
//! both directions.

use vstd::prelude::*;

verus! {

/// One entry of a seek index: a playback position (milliseconds) paired
/// with the byte offset in the media stream where that position begins.
#[derive(Clone, Copy, Debug, PartialEq, Eq, Structural)]
pub struct SeekSample {
    pub time_ms: u64,
    pub byte_offset: u64,
}

/// The table is ordered: both timestamps and byte offsets are
/// non-decreasing along the samples.
pub open spec fn sorted_samples(s: Seq<SeekSample>) -> bool {
    forall|i: int, j: int|
        #![trigger s[i], s[j]]
        0 <= i <= j < s.len() ==> s[i].time_ms <= s[j].time_ms
            && s[i].byte_offset <= s[j].byte_offset
}

/// The byte offset of the last sample whose timestamp is at or before
/// `time_ms`; 0 (start of stream) if no sample qualifies.
pub open spec fn offset_at_or_before(s: Seq<SeekSample>, time_ms: u64) -> u64
    decreases s.len(),
{
    if s.len() == 0 {
        0
    } else if s.last().time_ms <= time_ms {
        s.last().byte_offset
    } else {
        offset_at_or_before(s.drop_last(), time_ms)
    }
}

/// The timestamp of the last sample whose byte offset is at or before
/// `byte_offset`; 0 if no sample qualifies.
pub open spec fn time_at_or_before(s: Seq<SeekSample>, byte_offset: u64) -> u64
    decreases s.len(),
{
    if s.len() == 0 {
        0
    } else if s.last().byte_offset <= byte_offset {
        s.last().time_ms
    } else {
        time_at_or_before(s.drop_last(), byte_offset)
    }
}

/// An ordered, immutable-once-built table of seek samples for one loaded
/// file. Construction checks the ordering, so every `SeekIndex` value
/// holds a sorted table.
pub struct SeekIndex {
    samples: Vec<SeekSample>,
}

impl View for SeekIndex {
    type V = Seq<SeekSample>;

    closed spec fn view(&self) -> Seq<SeekSample> {
        self.samples@
    }
}

impl SeekIndex {
    /// Every seek index value satisfies this: its table is sorted.
    #[verifier::type_invariant]
    pub open spec fn wf(self) -> bool {
        sorted_samples(self.view())
    }

    /// Builds an index from an analyzer-produced sample table; rejects a
    /// table that is not non-decreasing in both fields.
    pub fn from_samples(samples: Vec<SeekSample>) -> (r: Option<SeekIndex>)
        ensures
            match r {
                Some(ix) => ix@ == samples@ && sorted_samples(samples@),
                None => !sorted_samples(samples@),
            },
    {
        let n = samples.len();
        if n > 0 {
            let mut k: usize = 0;
            while k < n - 1
                invariant
                    n == samples@.len(),
                    0 < n,
                    k <= n - 1,
                    forall|i: int|
                        #![trigger samples@[i]]
                        0 <= i < k ==> samples@[i].time_ms <= samples@[i + 1].time_ms
                            && samples@[i].byte_offset <= samples@[i + 1].byte_offset,
                decreases n - k,
            {
                let a = samples[k];
                let b = samples[k + 1];
                if b.time_ms < a.time_ms || b.byte_offset < a.byte_offset {
                    proof {
                        assert(samples@[k as int].time_ms > samples@[k + 1].time_ms
                            || samples@[k as int].byte_offset > samples@[k + 1].byte_offset);
                    }
                    return None;
                }
                k += 1;
            }
        }
        proof {
            lemma_adjacent_sorted(samples@);
        }
        Some(SeekIndex { samples })
    }

    /// How many samples the index holds.
    pub fn len(&self) -> (r: usize)
        ensures
            r == self@.len(),
    {
        self.samples.len()
    }

    /// Floor lookup, time to byte offset: the offset of the last sample at
    /// or before `time_ms`, or 0 if the query lies before the whole table.
    pub fn offset_for_time(&self, time_ms: u64) -> (r: u64)
        ensures
            r == offset_at_or_before(self@, time_ms),
    {
        proof {
            use_type_invariant(self);
        }
        let n = self.samples.len();
        let mut off: u64 = 0;
        let mut k: usize = 0;
        while k < n && self.samples[k].time_ms <= time_ms
            invariant
                n == self@.len(),
                self@ == self.samples@,
                k <= n,
                sorted_samples(self@),
                off == offset_at_or_before(self@.take(k as int), time_ms),
            decreases n - k,
        {
            off = self.samples[k].byte_offset;
            k += 1;
            proof {
                assert(self@.take(k as int).drop_last() =~= self@.take(k as int - 1));
            }
        }
        proof {
            if k < n {
                lemma_offset_floor_ignores_tail(self@, time_ms, k as int);
            } else {
                assert(self@.take(n as int) =~= self@);
            }
        }
        off
    }

    /// Floor lookup, byte offset to time: the timestamp of the last sample
    /// at or before `byte_offset`, or 0 if the query lies before the table.
    pub fn time_for_offset(&self, byte_offset: u64) -> (r: u64)
        ensures
            r == time_at_or_before(self@, byte_offset),
    {
        proof {
            use_type_invariant(self);
        }
        let n = self.samples.len();
        let mut t: u64 = 0;
        let mut k: usize = 0;
        while k < n && self.samples[k].byte_offset <= byte_offset
            invariant
                n == self@.len(),
                self@ == self.samples@,
                k <= n,
                sorted_samples(self@),
                t == time_at_or_before(self@.take(k as int), byte_offset),
            decreases n - k,
        {
            t = self.samples[k].time_ms;
            k += 1;
            proof {
                assert(self@.take(k as int).drop_last() =~= self@.take(k as int - 1));
            }
        }
        proof {
            if k < n {
                lemma_time_floor_ignores_tail(self@, byte_offset, k as int);
            } else {
                assert(self@.take(n as int) =~= self@);
            }
        }
        t
    }
}

/// The timestamps are strictly increasing along the table: no two samples
/// share a timestamp.
pub open spec fn times_strictly_increasing(s: Seq<SeekSample>) -> bool {
    forall|i: int, j: int|
        #![trigger s[i], s[j]]
        0 <= i < j < s.len() ==> s[i].time_ms < s[j].time_ms
}

/// The byte offsets are strictly increasing along the table: no two
/// samples share a byte offset.
pub open spec fn offsets_strictly_increasing(s: Seq<SeekSample>) -> bool {
    forall|i: int, j: int|
        #![trigger s[i], s[j]]
        0 <= i < j < s.len() ==> s[i].byte_offset < s[j].byte_offset
}

/// A floor lookup never answers past the last sample's byte offset.
proof fn lemma_offset_floor_le_last(s: Seq<SeekSample>, time_ms: u64)
    requires
        sorted_samples(s),
        s.len() > 0,
    ensures
        offset_at_or_before(s, time_ms) <= s.last().byte_offset,
    decreases s.len(),
{
    if s.last().time_ms > time_ms {
        assert(offset_at_or_before(s, time_ms) == offset_at_or_before(s.drop_last(), time_ms));
        lemma_sorted_drop_last(s);
        if s.len() > 1 {
            lemma_offset_floor_le_last(s.drop_last(), time_ms);
            assert(s.drop_last().last() == s[s.len() - 2]);
            assert(s[s.len() - 2].byte_offset <= s[s.len() - 1].byte_offset);
            assert(s.last() == s[s.len() - 1]);
        } else {
            assert(s.drop_last().len() == 0);
            assert(offset_at_or_before(s.drop_last(), time_ms) == 0);
        }
    }
}

/// A floor lookup never answers past the last sample's timestamp.
proof fn lemma_time_floor_le_last(s: Seq<SeekSample>, byte_offset: u64)
    requires
        sorted_samples(s),
        s.len() > 0,
    ensures
        time_at_or_before(s, byte_offset) <= s.last().time_ms,
    decreases s.len(),
{
    if s.last().byte_offset > byte_offset {
        assert(time_at_or_before(s, byte_offset) == time_at_or_before(s.drop_last(), byte_offset));
        lemma_sorted_drop_last(s);
        if s.len() > 1 {
            lemma_time_floor_le_last(s.drop_last(), byte_offset);
            assert(s.drop_last().last() == s[s.len() - 2]);
            assert(s[s.len() - 2].time_ms <= s[s.len() - 1].time_ms);
            assert(s.last() == s[s.len() - 1]);
        } else {
            assert(s.drop_last().len() == 0);
            assert(time_at_or_before(s.drop_last(), byte_offset) == 0);
        }
    }
}

/// Floor-lookup consistency, time direction: over a sorted table, the
/// time-to-offset query is monotonic non-decreasing in the queried time.
pub proof fn lemma_offset_query_monotonic(s: Seq<SeekSample>, t1: u64, t2: u64)
    requires
        sorted_samples(s),
        t1 <= t2,
    ensures
        offset_at_or_before(s, t1) <= offset_at_or_before(s, t2),
    decreases s.len(),
{
    if s.len() > 0 {
        lemma_sorted_drop_last(s);
        if s.last().time_ms <= t1 {
            assert(offset_at_or_before(s, t1) == s.last().byte_offset);
            assert(offset_at_or_before(s, t2) == s.last().byte_offset);
        } else if s.last().time_ms <= t2 {
            assert(offset_at_or_before(s, t2) == s.last().byte_offset);
            assert(offset_at_or_before(s, t1) == offset_at_or_before(s.drop_last(), t1));
            if s.len() > 1 {
                lemma_offset_floor_le_last(s.drop_last(), t1);
                assert(s.drop_last().last() == s[s.len() - 2]);
                assert(s[s.len() - 2].byte_offset <= s[s.len() - 1].byte_offset);
                assert(s.last() == s[s.len() - 1]);
            } else {
                assert(s.drop_last().len() == 0);
                assert(offset_at_or_before(s.drop_last(), t1) == 0);
            }
        } else {
            assert(offset_at_or_before(s, t1) == offset_at_or_before(s.drop_last(), t1));
            assert(offset_at_or_before(s, t2) == offset_at_or_before(s.drop_last(), t2));
            lemma_offset_query_monotonic(s.drop_last(), t1, t2);
        }
    } else {
        assert(offset_at_or_before(s, t1) == 0);
        assert(offset_at_or_before(s, t2) == 0);
    }
}

/// Floor-lookup consistency, offset direction: over a sorted table, the
/// offset-to-time query is monotonic non-decreasing in the queried offset.
pub proof fn lemma_time_query_monotonic(s: Seq<SeekSample>, o1: u64, o2: u64)
    requires
        sorted_samples(s),
        o1 <= o2,
    ensures
        time_at_or_before(s, o1) <= time_at_or_before(s, o2),
    decreases s.len(),
{
    if s.len() > 0 {
        lemma_sorted_drop_last(s);
        if s.last().byte_offset <= o1 {
            assert(time_at_or_before(s, o1) == s.last().time_ms);
            assert(time_at_or_before(s, o2) == s.last().time_ms);
        } else if s.last().byte_offset <= o2 {
            assert(time_at_or_before(s, o2) == s.last().time_ms);
            assert(time_at_or_before(s, o1) == time_at_or_before(s.drop_last(), o1));
            if s.len() > 1 {
                lemma_time_floor_le_last(s.drop_last(), o1);
                assert(s.drop_last().last() == s[s.len() - 2]);
                assert(s[s.len() - 2].time_ms <= s[s.len() - 1].time_ms);
                assert(s.last() == s[s.len() - 1]);
            } else {
                assert(s.drop_last().len() == 0);
                assert(time_at_or_before(s.drop_last(), o1) == 0);
            }
        } else {
            assert(time_at_or_before(s, o1) == time_at_or_before(s.drop_last(), o1));
            assert(time_at_or_before(s, o2) == time_at_or_before(s.drop_last(), o2));
            lemma_time_query_monotonic(s.drop_last(), o1, o2);
        }
    } else {
        assert(time_at_or_before(s, o1) == 0);
        assert(time_at_or_before(s, o2) == 0);
    }
}

/// Round-trip bound, time direction: when no two samples share a
/// timestamp, each sample is a fixed point of the time-to-offset query.
pub proof fn lemma_sample_time_round_trip(s: Seq<SeekSample>, i: int)
    requires
        times_strictly_increasing(s),
        0 <= i < s.len(),
    ensures
        offset_at_or_before(s, s[i].time_ms) == s[i].byte_offset,
    decreases s.len(),
{
    if i == s.len() - 1 {
        assert(s.last() == s[i]);
    } else {
        assert(s[i].time_ms < s[s.len() - 1].time_ms);
        assert forall|p: int, q: int|
            #![trigger s.drop_last()[p], s.drop_last()[q]]
            0 <= p < q < s.drop_last().len() implies s.drop_last()[p].time_ms
            < s.drop_last()[q].time_ms by {
            assert(s.drop_last()[p] == s[p]);
            assert(s.drop_last()[q] == s[q]);
        }
        lemma_sample_time_round_trip(s.drop_last(), i);
        assert(s.drop_last()[i] == s[i]);
    }
}

/// Round-trip bound, offset direction: when no two samples share a byte
/// offset, each sample is a fixed point of the offset-to-time query.
pub proof fn lemma_sample_offset_round_trip(s: Seq<SeekSample>, i: int)
    requires
        offsets_strictly_increasing(s),
        0 <= i < s.len(),
    ensures
        time_at_or_before(s, s[i].byte_offset) == s[i].time_ms,
    decreases s.len(),
{
    if i == s.len() - 1 {
        assert(s.last() == s[i]);
    } else {
        assert(s[i].byte_offset < s[s.len() - 1].byte_offset);
        assert forall|p: int, q: int|
            #![trigger s.drop_last()[p], s.drop_last()[q]]
            0 <= p < q < s.drop_last().len() implies s.drop_last()[p].byte_offset
            < s.drop_last()[q].byte_offset by {
            assert(s.drop_last()[p] == s[p]);
            assert(s.drop_last()[q] == s[q]);
        }
        lemma_sample_offset_round_trip(s.drop_last(), i);
        assert(s.drop_last()[i] == s[i]);
    }
}

/// What the time-to-offset floor lookup picks, declaratively: if sample
/// `i` is at or before the query and the next sample (if any) is after
/// it, the answer is sample `i`'s byte offset.
pub proof fn lemma_offset_query_picks_last_at_or_before(s: Seq<SeekSample>, time_ms: u64, i: int)
    requires
        sorted_samples(s),
        0 <= i < s.len(),
        s[i].time_ms <= time_ms,
        i == s.len() - 1 || time_ms < s[i + 1].time_ms,
    ensures
        offset_at_or_before(s, time_ms) == s[i].byte_offset,
{
    if i == s.len() - 1 {
        assert(s.last() == s[i]);
    } else {
        lemma_offset_floor_ignores_tail(s, time_ms, i + 1);
        assert(s.take(i + 1).last() == s[i]);
    }
}

/// The same for the offset-to-time floor lookup.
pub proof fn lemma_time_query_picks_last_at_or_before(s: Seq<SeekSample>, byte_offset: u64, i: int)
    requires
        sorted_samples(s),
        0 <= i < s.len(),
        s[i].byte_offset <= byte_offset,
        i == s.len() - 1 || byte_offset < s[i + 1].byte_offset,
    ensures
        time_at_or_before(s, byte_offset) == s[i].time_ms,
{
    if i == s.len() - 1 {
        assert(s.last() == s[i]);
    } else {
        lemma_time_floor_ignores_tail(s, byte_offset, i + 1);
        assert(s.take(i + 1).last() == s[i]);
    }
}

/// A time query that lies before the first sample answers offset 0.
pub proof fn lemma_offset_query_before_first(s: Seq<SeekSample>, time_ms: u64)
    requires
        sorted_samples(s),
        s.len() > 0,
        time_ms < s[0].time_ms,
    ensures
        offset_at_or_before(s, time_ms) == 0,
    decreases s.len(),
{
    assert(s[0].time_ms <= s[s.len() - 1].time_ms);
    assert(s.last() == s[s.len() - 1]);
    assert(offset_at_or_before(s, time_ms) == offset_at_or_before(s.drop_last(), time_ms));
    lemma_sorted_drop_last(s);
    if s.len() > 1 {
        assert(s.drop_last()[0] == s[0]);
        lemma_offset_query_before_first(s.drop_last(), time_ms);
    } else {
        assert(s.drop_last().len() == 0);
        assert(offset_at_or_before(s.drop_last(), time_ms) == 0);
    }
}

/// An offset query that lies before the first sample answers time 0.
pub proof fn lemma_time_query_before_first(s: Seq<SeekSample>, byte_offset: u64)
    requires
        sorted_samples(s),
        s.len() > 0,
        byte_offset < s[0].byte_offset,
    ensures
        time_at_or_before(s, byte_offset) == 0,
    decreases s.len(),
{
    assert(s[0].byte_offset <= s[s.len() - 1].byte_offset);
    assert(s.last() == s[s.len() - 1]);
    assert(time_at_or_before(s, byte_offset) == time_at_or_before(s.drop_last(), byte_offset));
    lemma_sorted_drop_last(s);
    if s.len() > 1 {
        assert(s.drop_last()[0] == s[0]);
        lemma_time_query_before_first(s.drop_last(), byte_offset);
    } else {
        assert(s.drop_last().len() == 0);
        assert(time_at_or_before(s.drop_last(), byte_offset) == 0);
    }
}

/// A table whose adjacent samples are ordered is ordered as a whole.
proof fn lemma_adjacent_sorted(s: Seq<SeekSample>)
    requires
        forall|i: int|
            #![trigger s[i]]
            0 <= i < s.len() - 1 ==> s[i].time_ms <= s[i + 1].time_ms
                && s[i].byte_offset <= s[i + 1].byte_offset,
    ensures
        sorted_samples(s),
{
    assert forall|i: int, j: int|
        #![trigger s[i], s[j]]
        0 <= i <= j < s.len() implies s[i].time_ms <= s[j].time_ms
        && s[i].byte_offset <= s[j].byte_offset by {
        lemma_chain(s, i, j);
    }
}

proof fn lemma_chain(s: Seq<SeekSample>, i: int, j: int)
    requires
        forall|k: int|
            #![trigger s[k]]
            0 <= k < s.len() - 1 ==> s[k].time_ms <= s[k + 1].time_ms
                && s[k].byte_offset <= s[k + 1].byte_offset,
        0 <= i <= j < s.len(),
    ensures
        s[i].time_ms <= s[j].time_ms,
        s[i].byte_offset <= s[j].byte_offset,
    decreases j - i,
{
    if i < j {
        lemma_chain(s, i + 1, j);
    }
}

/// Dropping the last sample of a sorted table keeps it sorted.
proof fn lemma_sorted_drop_last(s: Seq<SeekSample>)
    requires
        sorted_samples(s),
        s.len() > 0,
    ensures
        sorted_samples(s.drop_last()),
{
    assert forall|i: int, j: int|
        #![trigger s.drop_last()[i], s.drop_last()[j]]
        0 <= i <= j < s.drop_last().len() implies s.drop_last()[i].time_ms
        <= s.drop_last()[j].time_ms && s.drop_last()[i].byte_offset
        <= s.drop_last()[j].byte_offset by {
        assert(s.drop_last()[i] == s[i]);
        assert(s.drop_last()[j] == s[j]);
    }
}

/// In a sorted table, samples from position `k` on cannot answer a time
/// query below `s[k].time_ms`, so the floor over the whole table equals
/// the floor over the prefix before `k`.
proof fn lemma_offset_floor_ignores_tail(s: Seq<SeekSample>, time_ms: u64, k: int)
    requires
        sorted_samples(s),
        0 <= k < s.len(),
        s[k].time_ms > time_ms,
    ensures
        offset_at_or_before(s, time_ms) == offset_at_or_before(s.take(k), time_ms),
    decreases s.len(),
{
    assert(s.last() == s[s.len() - 1]);
    assert(s.last().time_ms > time_ms);
    lemma_sorted_drop_last(s);
    if k == s.len() - 1 {
        assert(s.take(k) =~= s.drop_last());
    } else {
        assert(s.drop_last()[k] == s[k]);
        lemma_offset_floor_ignores_tail(s.drop_last(), time_ms, k);
        assert(s.drop_last().take(k) =~= s.take(k));
    }
}

/// The same for an offset query below `s[k].byte_offset`.
proof fn lemma_time_floor_ignores_tail(s: Seq<SeekSample>, byte_offset: u64, k: int)
    requires
        sorted_samples(s),
        0 <= k < s.len(),
        s[k].byte_offset > byte_offset,
    ensures
        time_at_or_before(s, byte_offset) == time_at_or_before(s.take(k), byte_offset),
    decreases s.len(),
{
    assert(s.last() == s[s.len() - 1]);
    assert(s.last().byte_offset > byte_offset);
    lemma_sorted_drop_last(s);
    if k == s.len() - 1 {
        assert(s.take(k) =~= s.drop_last());
    } else {
        assert(s.drop_last()[k] == s[k]);
        lemma_time_floor_ignores_tail(s.drop_last(), byte_offset, k);
        assert(s.drop_last().take(k) =~= s.take(k));
    }
}

} // verus!
