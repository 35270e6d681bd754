//! Which recorded task durations the history keeps.

use crate::shortcuts::same_text;
use vstd::prelude::*;

verus! {

/// How old a record may be, in seconds: twelve months of thirty days.
pub const MAX_AGE_SECONDS: u64 = 31104000;

/// How many records each task and parameter set keeps.
pub const PER_GROUP: usize = 100;

/// Whether a record made at `ts` is young enough at `now` (a record from
/// the future counts as new).
pub open spec fn fresh(now: u64, ts: u64) -> bool {
    (if now >= ts {
        now - ts
    } else {
        0
    }) <= MAX_AGE_SECONDS
}

/// Whether record `j` comes before record `i` in `i`'s group: same key,
/// young enough, and newer, or as new and recorded earlier.
pub open spec fn outranks(now: u64, rs: Seq<(u64, String)>, j: int, i: int) -> bool {
    rs[j].1@ == rs[i].1@ && fresh(now, rs[j].0) && (rs[j].0 > rs[i].0 || (rs[j].0 == rs[i].0
        && j < i))
}

/// How many of the first `upto` records come before record `i` in its group.
pub open spec fn rank_below(now: u64, rs: Seq<(u64, String)>, i: int, upto: int) -> nat
    decreases upto,
{
    if upto <= 0 {
        0
    } else {
        rank_below(now, rs, i, upto - 1) + (if outranks(now, rs, upto - 1, i) {
            1nat
        } else {
            0nat
        })
    }
}

/// Whether the history keeps record `i`: it is young enough and among the
/// newest hundred of its group.
pub open spec fn kept_record(now: u64, rs: Seq<(u64, String)>, i: int) -> bool {
    fresh(now, rs[i].0) && rank_below(now, rs, i, rs.len() as int) < PER_GROUP
}

/// The indices of the kept records among the first `k`, in order.
pub open spec fn kept_up_to(now: u64, rs: Seq<(u64, String)>, k: int) -> Seq<usize>
    decreases k,
{
    if k <= 0 {
        Seq::empty()
    } else {
        kept_up_to(now, rs, k - 1) + (if kept_record(now, rs, k - 1) {
            seq![(k - 1) as usize]
        } else {
            Seq::<usize>::empty()
        })
    }
}

proof fn lemma_rank_bound(now: u64, rs: Seq<(u64, String)>, i: int, upto: int)
    ensures
        rank_below(now, rs, i, upto) <= if upto < 0 { 0 } else { upto },
    decreases upto,
{
    if upto > 0 {
        lemma_rank_bound(now, rs, i, upto - 1);
    }
}

/// The records that the history keeps, given each record's time and the key
/// of its task and parameters: the indices, in order, of the records at
/// most twelve months old at `now` that are among the hundred newest of
/// their key (records of the same time ranked in the order they came).
pub fn retained_records(now: u64, records: &Vec<(u64, String)>) -> (r: Vec<usize>)
    ensures
        r@ == kept_up_to(now, records@, records@.len() as int),
{
    let n = records.len();
    let mut out: Vec<usize> = Vec::new();
    let mut i: usize = 0;
    while i < n
        invariant
            n == records@.len(),
            i <= n,
            out@ == kept_up_to(now, records@, i as int),
        decreases n - i,
    {
        let ts = records[i].0;
        let age = if now >= ts {
            now - ts
        } else {
            0
        };
        let mut rank: usize = 0;
        let mut j: usize = 0;
        while j < n
            invariant
                n == records@.len(),
                i < n,
                j <= n,
                ts == records@[i as int].0,
                rank as nat == rank_below(now, records@, i as int, j as int),
                rank <= j,
            decreases n - j,
        {
            let tj = records[j].0;
            let fresh_j = (if now >= tj {
                now - tj
            } else {
                0
            }) <= MAX_AGE_SECONDS;
            let same = same_text(records[j].1.as_str(), records[i].1.as_str());
            let hit = same && fresh_j && (tj > ts || (tj == ts && j < i));
            proof {
                assert(hit == outranks(now, records@, j as int, i as int));
                assert(rank_below(now, records@, i as int, j + 1) == rank_below(
                    now,
                    records@,
                    i as int,
                    j as int,
                ) + (if outranks(now, records@, j as int, i as int) {
                    1nat
                } else {
                    0nat
                }));
            }
            if hit {
                rank = rank + 1;
            }
            j = j + 1;
        }
        if age <= MAX_AGE_SECONDS && rank < PER_GROUP {
            out.push(i);
        }
        i = i + 1;
    }
    out
}

} // verus!
