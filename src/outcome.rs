use vstd::prelude::*;

verus! {

/// Why one download failed.
#[derive(Debug, Clone, Copy, PartialEq, Eq, Structural)]
pub enum DownloadError {
    /// The HTTP request or the reading of the response body failed.
    Transport,
    /// The destination file could not be created or written.
    Filesystem,
    /// A worker ended abnormally.
    WorkerPanic,
}

/// Index of the first failed outcome, or `outcomes.len()` when all succeeded.
pub open spec fn first_failed_index(outcomes: Seq<Result<(), DownloadError>>) -> nat
    decreases outcomes.len(),
{
    if outcomes.len() == 0 {
        0
    } else if outcomes[0] is Err {
        0
    } else {
        1 + first_failed_index(outcomes.drop_first())
    }
}

proof fn lemma_first_failed_index(outcomes: Seq<Result<(), DownloadError>>)
    ensures
        first_failed_index(outcomes) <= outcomes.len(),
        forall|i: int| 0 <= i < first_failed_index(outcomes) ==> #[trigger] outcomes[i] is Ok,
        first_failed_index(outcomes) < outcomes.len() ==> outcomes[first_failed_index(
            outcomes,
        ) as int] is Err,
    decreases outcomes.len(),
{
    if outcomes.len() > 0 && outcomes[0] is Ok {
        let rest = outcomes.drop_first();
        lemma_first_failed_index(rest);
        assert forall|i: int| 0 <= i < first_failed_index(outcomes) implies #[trigger] outcomes[i] is Ok by {
            if i > 0 {
                assert(outcomes[i] == rest[i - 1]);
            }
        }
    }
}

/// The result of a group of downloads: `Ok` when every one succeeded, else the
/// error of the first that failed, in task order.
pub fn group_result(outcomes: &Vec<Result<(), DownloadError>>) -> (r: Result<(), DownloadError>)
    ensures
        r is Ok <==> forall|i: int| 0 <= i < outcomes@.len() ==> #[trigger] outcomes@[i] is Ok,
        r is Err ==> r == outcomes@[first_failed_index(outcomes@) as int],
{
    proof {
        lemma_first_failed_index(outcomes@);
    }
    let mut i: usize = 0;
    while i < outcomes.len()
        invariant
            i <= outcomes@.len(),
            forall|j: int| 0 <= j < i ==> #[trigger] outcomes@[j] is Ok,
            first_failed_index(outcomes@) <= outcomes@.len(),
            forall|j: int| 0 <= j < first_failed_index(outcomes@) ==> #[trigger] outcomes@[j] is Ok,
            first_failed_index(outcomes@) < outcomes@.len() ==> outcomes@[first_failed_index(
                outcomes@,
            ) as int] is Err,
        decreases outcomes@.len() - i,
    {
        match outcomes[i] {
            Ok(()) => {},
            Err(e) => {
                proof {
                    if first_failed_index(outcomes@) < i {
                        assert(outcomes@[first_failed_index(outcomes@) as int] is Ok);
                    }
                    if first_failed_index(outcomes@) > i {
                        assert(outcomes@[i as int] is Ok);
                    }
                }
                return Err(e);
            },
        }
        i = i + 1;
    }
    proof {
        if first_failed_index(outcomes@) < outcomes@.len() {
            assert(outcomes@[first_failed_index(outcomes@) as int] is Ok);
        }
    }
    Ok(())
}

} // verus!
