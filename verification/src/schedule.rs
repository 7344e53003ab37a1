//! The run scheduler's aggregation: counting passes and failures over the
//! per-entry statuses and picking one failure as representative. The
//! statuses may have been produced sequentially or by a worker pool;
//! aggregation sees only the collected results.

use vstd::prelude::*;

use crate::status::Status;

verus! {

/// How many of the results are `Verified`.
pub open spec fn passes_of(results: Seq<Status>) -> int
    decreases results.len(),
{
    if results.len() == 0 {
        0int
    } else {
        passes_of(results.drop_last()) + (if results.last() == Status::Verified {
            1int
        } else {
            0int
        })
    }
}

/// The first non-`Verified` result, if any: the representative failure.
/// Which failure is surfaced when several occur is a lossy design choice;
/// callers may rely only on it being some failing entry's status.
pub open spec fn first_failure(results: Seq<Status>) -> Option<Status>
    decreases results.len(),
{
    if results.len() == 0 {
        None
    } else if results.first() != Status::Verified {
        Some(results.first())
    } else {
        first_failure(results.drop_first())
    }
}

/// The aggregate status: the representative failure, or `Verified` when
/// every entry passed.
pub open spec fn aggregate_status(results: Seq<Status>) -> Status {
    match first_failure(results) {
        Some(s) => s,
        None => Status::Verified,
    }
}

/// Law: the pass count never exceeds the number of entries; no failure is
/// reported exactly when every entry passed; and a reported representative
/// is never `Verified`.
pub proof fn lemma_aggregate(results: Seq<Status>)
    ensures
        0 <= passes_of(results) <= results.len(),
        (first_failure(results) is None) <==> passes_of(results) == results.len(),
        match first_failure(results) {
            Some(s) => s != Status::Verified,
            None => true,
        },
    decreases results.len(),
{
    if results.len() > 0 {
        lemma_passes_first(results);
        lemma_aggregate(results.drop_first());
    }
}

/// Counting passes from the front agrees with counting from the back.
proof fn lemma_passes_first(results: Seq<Status>)
    requires
        results.len() > 0,
    ensures
        passes_of(results) == passes_of(results.drop_first()) + (if results.first()
            == Status::Verified {
            1int
        } else {
            0int
        }),
    decreases results.len(),
{
    if results.len() == 1 {
        assert(passes_of(results.drop_last()) == 0);
        assert(passes_of(results.drop_first()) == 0);
        assert(results.last() == results.first());
    }
    if results.len() > 1 {
        lemma_passes_first(results.drop_last());
        assert(results.drop_last().first() == results.first());
        assert(results.drop_last().drop_first() =~= results.drop_first().drop_last());
        assert(results.drop_first().last() == results.last());
        assert(passes_of(results.drop_first()) == passes_of(results.drop_first().drop_last()) + (
        if results.drop_first().last() == Status::Verified {
            1int
        } else {
            0int
        }));
    }
}

/// Counts the passes and failures and picks the representative status:
/// with `fails > 0` the representative is some failing entry's status,
/// otherwise it is `Verified`.
pub fn aggregate(results: &Vec<Status>) -> (r: (usize, usize, Status))
    ensures
        r.0 as int == passes_of(results@),
        r.1 as int == results@.len() - passes_of(results@),
        r.2 == aggregate_status(results@),
        r.1 > 0 ==> r.2 != Status::Verified,
        r.1 == 0 ==> r.2 == Status::Verified,
{
    let ghost all = results@;
    let mut passes: usize = 0;
    let mut rep: Option<Status> = None;
    let mut j: usize = 0;
    proof {
        assert(all.take(0) =~= Seq::<Status>::empty());
        lemma_aggregate(all);
    }
    while j < results.len()
        invariant
            j <= all.len(),
            all == results@,
            passes as int == passes_of(all.take(j as int)),
            passes <= j,
            rep == first_failure(all.take(j as int)),
        decreases all.len() - j,
    {
        proof {
            assert(all.take(j + 1) =~= all.take(j as int).push(all[j as int]));
            assert(all.take(j + 1).drop_last() =~= all.take(j as int));
            assert(all.take(j + 1).last() == all[j as int]);
            lemma_first_failure_push(all.take(j as int), all[j as int]);
        }
        let s = results[j];
        if s.is_verified() {
            passes = passes + 1;
        } else {
            if rep.is_none() {
                rep = Some(s);
            }
        }
        j = j + 1;
    }
    proof {
        assert(all.take(j as int) =~= all);
        lemma_aggregate(all);
    }
    let fails = results.len() - passes;
    let status = match rep {
        Some(s) => s,
        None => Status::Verified,
    };
    (passes, fails, status)
}

/// Appending one result keeps the earlier representative, or introduces
/// the new result as representative when none failed before and it fails.
proof fn lemma_first_failure_push(results: Seq<Status>, s: Status)
    ensures
        first_failure(results.push(s)) == (match first_failure(results) {
            Some(f) => Some(f),
            None => if s != Status::Verified {
                Some(s)
            } else {
                None
            },
        }),
    decreases results.len(),
{
    let p = results.push(s);
    if results.len() == 0 {
        assert(p.first() == s);
        assert(p.drop_first() =~= Seq::<Status>::empty());
    } else {
        assert(p.first() == results.first());
        assert(p.drop_first() =~= results.drop_first().push(s));
        lemma_first_failure_push(results.drop_first(), s);
    }
}

/// Settles one entry's outcome: an invocation that could not run at all
/// is downgraded to `Unknown` so that the other entries still run.
pub fn settle_outcome(outcome: Option<Status>) -> (r: Status)
    ensures
        r == (match outcome {
            Some(s) => s,
            None => Status::Unknown,
        }),
{
    match outcome {
        Some(s) => s,
        None => Status::Unknown,
    }
}

} // verus!
