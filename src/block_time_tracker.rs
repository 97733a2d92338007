use vstd::prelude::*;
use vstd::relations::{sorted_by, total_ordering};
use vstd::seq_lib::lemma_sorted_unique;

verus! {

/// Number of recent timestamps kept for the median-time-past rule.
pub const WINDOW_LEN: usize = 11;

/// The order used to sort timestamps.
pub open spec fn ts_leq(a: u32, b: u32) -> bool {
    a <= b
}

/// The median of a window: the element at index `(len + 1) / 2` of the window
/// sorted in ascending order.
pub open spec fn median_of(s: Seq<u32>) -> u32 {
    s.sort_by(|a: u32, b: u32| ts_leq(a, b))[(s.len() as int + 1) / 2]
}

/// The window after `t` is pushed at the front and the oldest entry dropped.
pub open spec fn pushed_front(s: Seq<u32>, t: u32) -> Seq<u32> {
    seq![t] + s.take(s.len() - 1)
}

/// A fixed window of the most recent block timestamps, newest first.
pub struct RecentBlockTimeStamp {
    pub data: [u32; 11],
}

impl View for RecentBlockTimeStamp {
    type V = Seq<u32>;

    open spec fn view(&self) -> Seq<u32> {
        self.data@
    }
}

/// Relies on `slice::sort`: the result is ascending and holds the same elements.
#[verifier::external_body]
fn sort_in_place(v: &mut Vec<u32>)
    ensures
        sorted_by(final(v)@, |a: u32, b: u32| ts_leq(a, b)),
        final(v)@.to_multiset() == old(v)@.to_multiset(),
{
    v.sort();
}

proof fn lemma_ts_leq_total()
    ensures
        total_ordering(|a: u32, b: u32| ts_leq(a, b)),
{
}

impl RecentBlockTimeStamp {
    pub fn new(data: &[u32; 11]) -> (r: Self)
        ensures
            r@ == data@,
    {
        RecentBlockTimeStamp { data: *data }
    }

    /// The current window, newest first.
    pub fn output(&self) -> (r: [u32; 11])
        ensures
            r@ == self@,
    {
        self.data
    }

    /// The median of the window (the 7th smallest of the 11 entries).
    pub fn get_median_time(&self) -> (r: u32)
        ensures
            r == median_of(self@),
    {
        let mut permute_data: Vec<u32> = Vec::new();
        let mut i: usize = 0;
        while i < WINDOW_LEN
            invariant
                i <= WINDOW_LEN,
                permute_data@ == self@.take(i as int),
                self@.len() == WINDOW_LEN,
            decreases WINDOW_LEN - i,
        {
            permute_data.push(self.data[i]);
            i = i + 1;
            proof {
                assert(permute_data@ =~= self@.take(i as int));
            }
        }
        assert(permute_data@ =~= self@);
        sort_in_place(&mut permute_data);
        proof {
            lemma_ts_leq_total();
            self@.lemma_sort_by_ensures(|a: u32, b: u32| ts_leq(a, b));
            lemma_sorted_unique(
                permute_data@,
                self@.sort_by(|a: u32, b: u32| ts_leq(a, b)),
                |a: u32, b: u32| ts_leq(a, b),
            );
            permute_data@.to_multiset_ensures();
            self@.to_multiset_ensures();
            assert(permute_data@.len() == WINDOW_LEN);
        }
        let nth_term: usize = (permute_data.len() + 1) / 2;
        permute_data[nth_term]
    }

    /// Pushes `new_timestamp` at the front and drops the oldest entry.
    pub fn insert_timestamp(&mut self, new_timestamp: u32)
        ensures
            final(self)@ == pushed_front(old(self)@, new_timestamp),
    {
        let d = self.data;
        self.data = [new_timestamp, d[0], d[1], d[2], d[3], d[4], d[5], d[6], d[7], d[8], d[9]];
        assert(self.data@ =~= pushed_front(d@, new_timestamp));
    }
}

impl From<[u32; 11]> for RecentBlockTimeStamp {
    fn from(array: [u32; 11]) -> (r: Self) {
        RecentBlockTimeStamp { data: array }
    }
}

impl vstd::std_specs::convert::FromSpecImpl<[u32; 11]> for RecentBlockTimeStamp {
    open spec fn obeys_from_spec() -> bool {
        true
    }

    open spec fn from_spec(array: [u32; 11]) -> Self {
        RecentBlockTimeStamp { data: array }
    }
}

} // verus!
