//! The upload status recorded for each attachment.

use vstd::prelude::*;

verus! {

/// Where an attachment stands in the upload pipeline.
#[derive(Clone, Copy, Debug, PartialEq, Eq, Structural)]
pub enum AttachmentStatus {
    Pending,
    Processing,
    Processed,
}

impl AttachmentStatus {
    /// The byte that stores this status.
    pub open spec fn code(self) -> u8 {
        match self {
            AttachmentStatus::Pending => 0,
            AttachmentStatus::Processing => 1,
            AttachmentStatus::Processed => 2,
        }
    }
}

impl AsRef<[u8]> for AttachmentStatus {
    /// The stored value: the status code as a single byte.
    fn as_ref(&self) -> (r: &[u8])
        ensures
            r@ == seq![self.code()],
    {
        match self {
            AttachmentStatus::Pending => &[0u8],
            AttachmentStatus::Processing => &[1u8],
            AttachmentStatus::Processed => &[2u8],
        }
    }
}

/// Different statuses are stored as different values.
pub proof fn lemma_status_codes_distinct(a: AttachmentStatus, b: AttachmentStatus)
    requires
        a != b,
    ensures
        a.code() != b.code(),
{
}

/// The stored values: pending is 0, processing 1, processed 2.
pub proof fn lemma_status_code_values()
    ensures
        AttachmentStatus::Pending.code() == 0,
        AttachmentStatus::Processing.code() == 1,
        AttachmentStatus::Processed.code() == 2,
{
}

} // verus!
