//! Applying one byte patch to the game's memory, step by step: the
//! decisions are made here; the reads and writes are the caller's.

use vstd::prelude::*;

use crate::scarlet::config::{PatchOp, PatchView};

verus! {

/// Why a patch was not applied.
#[derive(Debug, Clone, Copy, PartialEq, Eq, Structural)]
pub enum PatchFailure {
    /// The bytes to check could not be read.
    CheckReadFailed,
    /// The bytes at the patch address are not those the check expects.
    CheckMismatch,
    /// The patch bytes could not be written.
    WriteFailed,
    /// The written bytes could not be read back.
    ReadBackFailed,
    /// The bytes read back are not the patch bytes.
    WriteMismatch,
}

/// What has been done so far, with its result.
pub enum PatchProgress {
    /// Nothing yet.
    Started,
    /// The bytes at the address were read for the check; none when the read
    /// failed.
    CheckRead(Option<Vec<u8>>),
    /// The patch bytes were written, or the write failed.
    Wrote(bool),
    /// The bytes at the address were read back; none when the read failed.
    ReadBack(Option<Vec<u8>>),
}

/// What to do next.
#[derive(Debug, Clone, Copy, PartialEq, Eq, Structural)]
pub enum PatchAction {
    /// Read as many bytes as the patch has at its address, for the check.
    ReadCheck,
    /// Write the patch bytes at its address.
    Write,
    /// Read as many bytes as the patch has at its address, to compare.
    ReadBack,
    /// The patch is applied.
    Done,
    /// The patch is not applied.
    Failed(PatchFailure),
}

/// The check that is made before a patch is written: its check, when it is
/// as long as its bytes.
pub open spec fn spec_fitting_check(op: PatchView) -> Option<Seq<u8>> {
    match op.2 {
        Some(c) => if c.len() == op.1.len() {
            Some(c)
        } else {
            None
        },
        None => None,
    }
}

/// The bytes of a read, as the contracts see them.
pub open spec fn read_view(read: Option<Vec<u8>>) -> Option<Seq<u8>> {
    match read {
        Some(b) => Some(b@),
        None => None,
    }
}

/// The next step of applying patch `op` after `progress`: a fitting check is
/// read and compared first, then the bytes are written and read back; any
/// failed read or write, or a difference, ends in a failure.
pub open spec fn spec_patch_action(op: PatchView, progress: PatchProgress) -> PatchAction {
    match progress {
        PatchProgress::Started => if spec_fitting_check(op) is Some {
            PatchAction::ReadCheck
        } else {
            PatchAction::Write
        },
        PatchProgress::CheckRead(read) => match read_view(read) {
            None => PatchAction::Failed(PatchFailure::CheckReadFailed),
            Some(b) => if spec_fitting_check(op) == Some(b) || spec_fitting_check(op) is None {
                PatchAction::Write
            } else {
                PatchAction::Failed(PatchFailure::CheckMismatch)
            },
        },
        PatchProgress::Wrote(ok) => if ok {
            PatchAction::ReadBack
        } else {
            PatchAction::Failed(PatchFailure::WriteFailed)
        },
        PatchProgress::ReadBack(read) => match read_view(read) {
            None => PatchAction::Failed(PatchFailure::ReadBackFailed),
            Some(b) => if b == op.1 {
                PatchAction::Done
            } else {
                PatchAction::Failed(PatchFailure::WriteMismatch)
            },
        },
    }
}

/// Whether two byte strings are equal.
pub fn bytes_equal(a: &[u8], b: &[u8]) -> (r: bool)
    ensures
        r == (a@ == b@),
{
    if a.len() != b.len() {
        return false;
    }
    let mut i: usize = 0;
    while i < a.len()
        invariant
            a@.len() == b@.len(),
            i <= a@.len(),
            forall|j: int| 0 <= j < i ==> a@[j] == b@[j],
        decreases a@.len() - i,
    {
        if a[i] != b[i] {
            return false;
        }
        i += 1;
    }
    assert(a@ =~= b@);
    true
}

/// The next step of applying patch `op`; see `spec_patch_action`.
pub fn patch_action(op: &PatchOp, progress: &PatchProgress) -> (r: PatchAction)
    ensures
        r == spec_patch_action(op@, *progress),
{
    let check: Option<&Vec<u8>> = match &op.check {
        Some(c) => if c.len() == op.bytes.len() {
            Some(c)
        } else {
            None
        },
        None => None,
    };
    match progress {
        PatchProgress::Started => match check {
            Some(_) => PatchAction::ReadCheck,
            None => PatchAction::Write,
        },
        PatchProgress::CheckRead(read) => match read {
            None => PatchAction::Failed(PatchFailure::CheckReadFailed),
            Some(b) => match check {
                Some(c) => if bytes_equal(c.as_slice(), b.as_slice()) {
                    PatchAction::Write
                } else {
                    PatchAction::Failed(PatchFailure::CheckMismatch)
                },
                None => PatchAction::Write,
            },
        },
        PatchProgress::Wrote(ok) => if *ok {
            PatchAction::ReadBack
        } else {
            PatchAction::Failed(PatchFailure::WriteFailed)
        },
        PatchProgress::ReadBack(read) => match read {
            None => PatchAction::Failed(PatchFailure::ReadBackFailed),
            Some(b) => if bytes_equal(b.as_slice(), op.bytes.as_slice()) {
                PatchAction::Done
            } else {
                PatchAction::Failed(PatchFailure::WriteMismatch)
            },
        },
    }
}

/// A patch whose reads give what its check expects, whose write succeeds and
/// whose bytes read back as written, is applied: the steps run a read for
/// a fitting check, the write and the read back, and then it is done.
pub proof fn lemma_patch_applies(op: PatchView, check_read: Option<Vec<u8>>, read_back: Vec<u8>)
    requires
        spec_fitting_check(op) is Some ==> read_view(check_read) == spec_fitting_check(op),
        read_back@ == op.1,
    ensures
        spec_fitting_check(op) is Some ==> spec_patch_action(op, PatchProgress::Started)
            == PatchAction::ReadCheck && spec_patch_action(op, PatchProgress::CheckRead(check_read))
            == PatchAction::Write,
        spec_fitting_check(op) is None ==> spec_patch_action(op, PatchProgress::Started)
            == PatchAction::Write,
        spec_patch_action(op, PatchProgress::Wrote(true)) == PatchAction::ReadBack,
        spec_patch_action(op, PatchProgress::ReadBack(Some(read_back))) == PatchAction::Done,
{
}

/// A patch with a fitting check is never written where other bytes lie:
/// after a check read that differs from the check, the step is a failure,
/// not a write.
pub proof fn lemma_mismatch_not_written(op: PatchView, check_read: Vec<u8>)
    requires
        spec_fitting_check(op) is Some,
        spec_fitting_check(op) != Some(check_read@),
    ensures
        spec_patch_action(op, PatchProgress::CheckRead(Some(check_read))) == PatchAction::Failed(
            PatchFailure::CheckMismatch,
        ),
{
}

} // verus!
