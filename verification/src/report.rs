use vstd::prelude::*;

use crate::CheckResult;

verus! {

/// How many of the collected outcomes are failures.
pub open spec fn spec_count_failures(s: Seq<CheckResult>) -> int
    decreases s.len(),
{
    if s.len() == 0 {
        0
    } else {
        spec_count_failures(s.drop_last()) + if s.last() is Failure {
            1int
        } else {
            0int
        }
    }
}

/// Counts the checks whose terminal outcome was `Failure`.
pub fn count_failures(results: &Vec<CheckResult>) -> (n: usize)
    ensures
        n == spec_count_failures(results@),
{
    let mut n: usize = 0;
    let mut i: usize = 0;
    while i < results.len()
        invariant
            0 <= i <= results.len(),
            n == spec_count_failures(results@.take(i as int)),
            n <= i,
        decreases results.len() - i,
    {
        proof {
            assert(results@.take(i as int + 1).drop_last() =~= results@.take(i as int));
            assert(results@.take(i as int + 1).last() == results@[i as int]);
        }
        if results[i].is_failure() {
            n = n + 1;
        }
        i = i + 1;
    }
    proof {
        assert(results@.take(results.len() as int) =~= results@);
    }
    n
}

/// What a report-mode run amounts to: `Err` with the failure count exactly
/// when some check failed, so the process can exit non-zero; `Ok` otherwise.
pub fn report_outcome(results: &Vec<CheckResult>) -> (r: Result<(), usize>)
    ensures
        match r {
            Ok(_) => spec_count_failures(results@) == 0,
            Err(n) => n == spec_count_failures(results@) && n > 0,
        },
{
    let n = count_failures(results);
    if n > 0 {
        Err(n)
    } else {
        Ok(())
    }
}

} // verus!
