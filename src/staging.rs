//! The one-time upload of the initial particles: a host-visible source
//! buffer holding their bytes, copied once into a device-only buffer of as
//! many records that the compute and render programs share.
use vstd::prelude::*;
use crate::particle::{Material, encode_records, records_bytes, lemma_records_bytes};

verus! {

/// Particles that one compute workgroup processes.
pub const WORKGROUP_SIZE: u32 = 64;

/// How many particles a dispatch of `groups` workgroups covers.
pub fn particle_capacity(groups: u32) -> (n: u64)
    ensures
        n == WORKGROUP_SIZE * groups,
{
    WORKGROUP_SIZE as u64 * groups as u64
}

/// The two buffers of the upload.
pub struct TransferPlan {
    /// What the host-visible source buffer holds.
    pub source: Vec<u8>,
    /// How many records the device-only destination buffer holds.
    pub destination_len: usize,
}

/// The source bytes for `records`, and a destination of as many records.
pub fn plan_upload(records: &Vec<Material>) -> (p: TransferPlan)
    ensures
        p.source@ == records_bytes(records@),
        p.source@.len() == 80 * records@.len(),
        p.destination_len == records@.len(),
{
    proof {
        lemma_records_bytes(records@);
    }
    TransferPlan { source: encode_records(records), destination_len: records.len() }
}

} // verus!
