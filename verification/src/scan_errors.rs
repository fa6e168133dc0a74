//! The error accumulator of the physical scan.

use crate::open_error::DurableOpenError;
use vstd::prelude::*;

verus! {

/// The error that a finished scan reports: a size observation dominates, otherwise the earliest one.
pub open spec fn dominant(recorded: Seq<DurableOpenError>) -> Option<DurableOpenError> {
    if recorded.contains(DurableOpenError::DurableStateTooLarge) {
        Some(DurableOpenError::DurableStateTooLarge)
    } else if recorded.len() > 0 {
        Some(recorded[0])
    } else {
        None
    }
}

/// The result of a scan that computed `value` while it recorded errors.
pub open spec fn settled<T>(recorded: Seq<DurableOpenError>, value: T) -> Result<
    T,
    DurableOpenError,
> {
    match dominant(recorded) {
        Some(error) => Err(error),
        None => Ok(value),
    }
}

/// What recording one result adds.
pub open spec fn noted<T>(result: Result<T, DurableOpenError>) -> Seq<DurableOpenError> {
    match result {
        Ok(_) => seq![],
        Err(error) => seq![error],
    }
}

/// What recording a corruption under a condition adds.
pub open spec fn corrupt_if(condition: bool) -> Seq<DurableOpenError> {
    if condition {
        seq![DurableOpenError::DurableStateCorrupt]
    } else {
        seq![]
    }
}

spec fn first_other(recorded: Seq<DurableOpenError>) -> Option<DurableOpenError>
    decreases recorded.len(),
{
    if recorded.len() == 0 {
        None
    } else {
        match first_other(recorded.drop_last()) {
            Some(error) => Some(error),
            None => if recorded.last() == DurableOpenError::DurableStateTooLarge {
                None
            } else {
                Some(recorded.last())
            },
        }
    }
}

proof fn lemma_first_other(recorded: Seq<DurableOpenError>)
    requires
        !recorded.contains(DurableOpenError::DurableStateTooLarge),
    ensures
        first_other(recorded) == if recorded.len() > 0 {
            Some(recorded[0])
        } else {
            None
        },
    decreases recorded.len(),
{
    if recorded.len() > 0 {
        let front = recorded.drop_last();
        assert(recorded.contains(recorded.last()));
        assert forall|e: DurableOpenError| front.contains(e) implies recorded.contains(e) by {
            let k = choose|k: int| 0 <= k < front.len() && front[k] == e;
            assert(recorded[k] == e);
        }
        lemma_first_other(front);
    }
}

/// A deliberately narrow error accumulator: a scan goes on after an error, keeps the earliest one
/// that is not about size, and lets any size observation dominate at the end.
pub struct PhysicalScanErrors {
    first: Option<DurableOpenError>,
    too_large: bool,
    recorded: Ghost<Seq<DurableOpenError>>,
}

impl View for PhysicalScanErrors {
    type V = Seq<DurableOpenError>;

    /// Every error recorded so far, in order.
    closed spec fn view(&self) -> Seq<DurableOpenError> {
        self.recorded@
    }
}

impl PhysicalScanErrors {
    #[verifier::type_invariant]
    spec fn summarises(&self) -> bool {
        &&& self.first == first_other(self.recorded@)
        &&& self.too_large == self.recorded@.contains(DurableOpenError::DurableStateTooLarge)
    }

    pub fn new() -> (errors: Self)
        ensures
            errors@ == Seq::<DurableOpenError>::empty(),
    {
        PhysicalScanErrors { first: None, too_large: false, recorded: Ghost(Seq::empty()) }
    }

    /// Keeps a value, or takes note of the error in its place.
    pub fn record<T>(&mut self, result: Result<T, DurableOpenError>) -> (value: Option<T>)
        ensures
            final(self)@ == old(self)@ + noted(result),
            value == match result {
                Ok(v) => Some(v),
                Err(_) => None::<T>,
            },
    {
        match result {
            Ok(value) => {
                assert(self@ + noted(result) =~= self@);
                Some(value)
            },
            Err(error) => {
                self.note(error);
                None
            },
        }
    }

    /// Takes note of one error.
    pub fn note(&mut self, error: DurableOpenError)
        ensures
            final(self)@ == old(self)@ + seq![error],
    {
        proof {
            use_type_invariant(&*self);
        }
        let ghost recorded = self.recorded@.push(error);
        let is_size = error == DurableOpenError::DurableStateTooLarge;
        let first = match self.first {
            Some(first) => Some(first),
            None => if is_size {
                None
            } else {
                Some(error)
            },
        };
        let too_large = self.too_large || is_size;
        proof {
            let before = self.recorded@;
            assert(recorded.drop_last() =~= before);
            assert(recorded.last() == error);
            let size = DurableOpenError::DurableStateTooLarge;
            if before.contains(size) {
                let k = choose|k: int| 0 <= k < before.len() && before[k] == size;
                assert(recorded[k] == size);
            }
            if recorded.contains(size) {
                let k = choose|k: int| 0 <= k < recorded.len() && recorded[k] == size;
                if k < before.len() {
                    assert(before[k] == size);
                }
            }
            assert(recorded.contains(error));
            assert(recorded =~= before + seq![error]);
        }
        *self = PhysicalScanErrors { first, too_large, recorded: Ghost(recorded) };
    }

    /// Takes note of a corruption under a condition.
    pub fn note_corrupt_if(&mut self, condition: bool)
        ensures
            final(self)@ == old(self)@ + corrupt_if(condition),
    {
        if condition {
            self.note(DurableOpenError::DurableStateCorrupt);
        } else {
            assert(self@ + corrupt_if(condition) =~= self@);
        }
    }

    /// The verdict of the finished scan.
    pub fn finish(self) -> (result: Result<(), DurableOpenError>)
        ensures
            result == settled(self@, ()),
    {
        proof {
            use_type_invariant(&self);
            if !self.recorded@.contains(DurableOpenError::DurableStateTooLarge) {
                lemma_first_other(self.recorded@);
            }
        }
        if self.too_large {
            Err(DurableOpenError::DurableStateTooLarge)
        } else {
            match self.first {
                Some(error) => Err(error),
                None => Ok(()),
            }
        }
    }
}

/// A scan that recorded a size observation anywhere reports it, whatever else it recorded before or
/// after; a scan that recorded nothing succeeds, and no other one does.
pub proof fn law_size_dominates(
    before: Seq<DurableOpenError>,
    after: Seq<DurableOpenError>,
    other: DurableOpenError,
)
    ensures
        dominant(before + seq![DurableOpenError::DurableStateTooLarge] + after) == Some(
            DurableOpenError::DurableStateTooLarge,
        ),
        dominant(before) is None <==> before.len() == 0,
        !before.contains(DurableOpenError::DurableStateTooLarge) && before.len() > 0 && other
            != DurableOpenError::DurableStateTooLarge ==> dominant(before + seq![other])
            == dominant(before),
{
    let size = DurableOpenError::DurableStateTooLarge;
    let all = before + seq![size] + after;
    assert(all[before.len() as int] == size);
    let extended = before + seq![other];
    if extended.contains(size) {
        let k = choose|k: int| 0 <= k < extended.len() && extended[k] == size;
        if k < before.len() {
            assert(before[k] == size);
        }
    }
}

} // verus!
