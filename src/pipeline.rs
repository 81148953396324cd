use crate::moving::MovePhase;
use crate::retry::FailureClass;
use vstd::prelude::*;

verus! {

/// Why a run stopped.
#[derive(Clone, Copy, Debug, PartialEq, Eq, Structural)]
pub enum ArchiveError {
    /// The signed-in user does not own the source playlist; nothing was
    /// changed.
    NotOwner,
    /// The title of a month's playlist could not be rendered.
    NameUnavailable,
    /// Creating a month's playlist failed for good, with this class.
    BucketCreation(FailureClass),
    /// A move failed for good in this phase, with this class. After a
    /// failed add the source is unchanged; after a failed remove the
    /// month's playlist holds the items, which the source holds too.
    Move(MovePhase, FailureClass),
}

/// A run only touches a playlist that the signed-in user owns.
pub fn check_owner(user_id: &String, owner_id: &String) -> (r: Result<(), ArchiveError>)
    ensures
        r is Ok <==> user_id@ == owner_id@,
        r is Err ==> r->Err_0 == ArchiveError::NotOwner,
{
    if *user_id == *owner_id {
        Ok(())
    } else {
        Err(ArchiveError::NotOwner)
    }
}

/// The first failure among the outcomes of the moves, in the order they
/// were reported, or success where every move succeeded.
pub fn first_failure(outcomes: &Vec<Result<(), ArchiveError>>) -> (r: Result<(), ArchiveError>)
    ensures
        r is Ok <==> forall|i: int| 0 <= i < outcomes@.len() ==> outcomes@[i] is Ok,
        r is Err ==> exists|i: int|
            0 <= i < outcomes@.len() && outcomes@[i] == r && forall|j: int|
                0 <= j < i ==> outcomes@[j] is Ok,
{
    let mut i: usize = 0;
    while i < outcomes.len()
        invariant
            i <= outcomes@.len(),
            forall|j: int| 0 <= j < i ==> outcomes@[j] is Ok,
        decreases outcomes@.len() - i,
    {
        if let Err(e) = outcomes[i] {
            return Err(e);
        }
        i = i + 1;
    }
    Ok(())
}

} // verus!
