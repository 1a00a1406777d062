//! The parameters of the Avalanche consensus algorithm.

use crate::bytes::bytes_equal;
use crate::models::address::Digest;
use crate::models::error::{Error, Result};
use crate::models::stage::Stage;
use vstd::prelude::*;

verus! {

/// `ConsensusParams` represents the Avalanche consensus parameters. Its id
/// is the hash of its serialization without the id.
#[derive(Clone, PartialEq, Eq, Debug)]
pub struct ConsensusParams {
    pub id: Digest,
    pub stage: Stage,
    pub alfa: u64,
    pub beta1: Option<u64>,
    pub beta2: Option<u64>,
}

impl ConsensusParams {
    /// `new` creates new `ConsensusParams`. Their id is left empty: the
    /// caller sets it to the hash of the parameters.
    pub fn new(stage: Stage, alfa: u64, beta1: Option<u64>, beta2: Option<u64>) -> (r: Result<ConsensusParams>)
        ensures
            r matches Ok(p) && p.id@ == Seq::<u8>::empty() && p.stage == stage && p.alfa == alfa && p.beta1 == beta1
                && p.beta2 == beta2,
    {
        Ok(ConsensusParams { id: Vec::new(), stage, alfa, beta1, beta2 })
    }

    /// `validate` validates the `ConsensusParams` against `calc_id`, the
    /// hash of their serialization without the id, computed by the caller:
    /// the id must be it.
    pub fn validate(&self, calc_id: &Digest) -> (r: Result<()>)
        ensures
            r is Ok <==> self.id@ == calc_id@,
            r matches Err(e) ==> e is InvalidId,
    {
        if !bytes_equal(self.id.as_slice(), calc_id.as_slice()) {
            return Err(Error::InvalidId);
        }
        Ok(())
    }
}

} // verus!
