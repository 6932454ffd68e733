use vstd::prelude::*;

use crate::error::{ForeachError, failure_code};

verus! {

/// The result for the whole run: success when every repository succeeded,
/// otherwise the first failure in the order of the outcomes.
pub open spec fn aggregate_of(outcomes: Seq<Result<(), ForeachError>>) -> Result<(), ForeachError>
    decreases outcomes.len(),
{
    if outcomes.len() == 0 {
        Ok(())
    } else if outcomes[0] is Err {
        outcomes[0]
    } else {
        aggregate_of(outcomes.drop_first())
    }
}

/// The process exit code for a result: 0 for success, else the failure's code.
pub open spec fn exit_code_of(result: Result<(), ForeachError>) -> i32 {
    match result {
        Ok(_) => 0,
        Err(e) => failure_code(e),
    }
}

/// Successes before index `k` do not change the aggregate.
proof fn lemma_skip_successes(outcomes: Seq<Result<(), ForeachError>>, k: int)
    requires
        0 <= k <= outcomes.len(),
        forall|j: int| 0 <= j < k ==> outcomes[j] is Ok,
    ensures
        aggregate_of(outcomes) == aggregate_of(outcomes.subrange(k, outcomes.len() as int)),
    decreases k,
{
    if k > 0 {
        let rest = outcomes.drop_first();
        assert forall|j: int| 0 <= j < k - 1 implies rest[j] is Ok by {
            assert(rest[j] == outcomes[j + 1]);
        }
        lemma_skip_successes(rest, k - 1);
        assert(rest.subrange(k - 1, rest.len() as int) =~= outcomes.subrange(k, outcomes.len() as int));
    } else {
        assert(outcomes.subrange(0, outcomes.len() as int) =~= outcomes);
    }
}

/// Reduces the outcomes of all repositories, in the order of the roots, to
/// one result: `Ok` when all succeeded, otherwise the first failure. With the
/// roots in lexicographic order, the failure reported is that of the least
/// failing root, however the runs interleaved. Every outcome is already in:
/// the reduction stops no work.
pub fn aggregate(outcomes: Vec<Result<(), ForeachError>>) -> (r: Result<(), ForeachError>)
    ensures
        r == aggregate_of(outcomes@),
{
    let ghost all = outcomes@;
    let mut pending = outcomes;
    let mut i: usize = 0;
    while i < pending.len()
        invariant
            pending@ == all,
            all == outcomes@,
            i <= all.len(),
            forall|j: int| 0 <= j < i ==> all[j] is Ok,
        decreases all.len() - i,
    {
        let failed = match &pending[i] {
            Ok(_) => false,
            Err(_) => true,
        };
        if failed {
            proof {
                lemma_skip_successes(all, i as int);
                assert(all.subrange(i as int, all.len() as int)[0] == all[i as int]);
            }
            return pending.remove(i);
        }
        i = i + 1;
    }
    proof {
        lemma_skip_successes(all, i as int);
    }
    Ok(())
}

/// The process exit code for the result of a run.
pub fn exit_code(result: &Result<(), ForeachError>) -> (r: i32)
    ensures
        r == exit_code_of(*result),
{
    match result {
        Ok(_) => 0,
        Err(e) => e.get_exit_code(),
    }
}

/// When every repository's command succeeds, the run exits with 0.
pub proof fn lemma_all_succeed(outcomes: Seq<Result<(), ForeachError>>)
    requires
        forall|j: int| 0 <= j < outcomes.len() ==> outcomes[j] is Ok,
    ensures
        exit_code_of(aggregate_of(outcomes)) == 0,
{
    lemma_skip_successes(outcomes, outcomes.len() as int);
}

/// When one repository's command exits with code `n` and all others succeed,
/// the run exits with `n`.
pub proof fn lemma_single_failure(
    outcomes: Seq<Result<(), ForeachError>>,
    k: int,
    path: String,
    n: i32,
)
    requires
        0 <= k < outcomes.len(),
        outcomes[k] == Err::<(), ForeachError>(
            ForeachError::CommandExecutionFailedWithNonZeroExitCode { path, exit_code: n },
        ),
        forall|j: int| 0 <= j < outcomes.len() && j != k ==> outcomes[j] is Ok,
    ensures
        exit_code_of(aggregate_of(outcomes)) == n,
{
    lemma_skip_successes(outcomes, k);
    assert(outcomes.subrange(k, outcomes.len() as int)[0] == outcomes[k]);
}

/// When the command cannot be started in a repository, the run exits with 1,
/// whatever happens in the repositories after it. Before it, a repository
/// that failed with another code would be reported first.
pub proof fn lemma_start_failure(outcomes: Seq<Result<(), ForeachError>>, k: int, path: String)
    requires
        0 <= k < outcomes.len(),
        outcomes[k] == Err::<(), ForeachError>(ForeachError::CommandExecutionFailed { path }),
        forall|j: int| 0 <= j < k ==> outcomes[j] is Ok || exit_code_of(#[trigger] outcomes[j]) == 1,
    ensures
        exit_code_of(aggregate_of(outcomes)) == 1,
    decreases k,
{
    if outcomes[0] is Ok {
        let rest = outcomes.drop_first();
        assert forall|j: int| 0 <= j < k - 1 implies rest[j] is Ok || exit_code_of(#[trigger] rest[j]) == 1 by {
            assert(rest[j] == outcomes[j + 1]);
        }
        lemma_start_failure(rest, k - 1, path);
    }
}

} // verus!
