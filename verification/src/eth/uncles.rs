//! Uncles, of which the blocks here have none.

use vstd::prelude::*;

use crate::eth::queries::{BlockNumberOrHash, Eth, RpcError};
use crate::eth::rich::BlockAnswer;
use crate::node::Node;
use crate::primitives::{H256, U256};

verus! {

impl Eth {
    /// The number of uncles of the block with the hash: none.
    pub fn block_uncles_count_by_hash<N: Node>(&self, _hash: H256) -> (count: Result<
        U256,
        RpcError<N>,
    >)
        ensures
            count matches Ok(number) && number@ == 0,
    {
        Ok(U256::zero())
    }

    /// The number of uncles of the block at the place: none.
    pub fn block_uncles_count_by_number<N: Node>(&self, _place: BlockNumberOrHash<N>) -> (count:
        Result<U256, RpcError<N>>)
        ensures
            count matches Ok(number) && number@ == 0,
    {
        Ok(U256::zero())
    }

    /// The uncle at the index of the block with the hash: there is none.
    pub fn uncle_by_block_hash_and_index<N: Node>(&self, _hash: H256, _index: usize) -> (uncle:
        BlockAnswer<N>)
        ensures
            uncle matches Ok(None),
    {
        Ok(None)
    }

    /// The uncle at the index of the block at the place: there is none.
    pub fn uncle_by_block_number_and_index<N: Node>(
        &self,
        _place: BlockNumberOrHash<N>,
        _index: usize,
    ) -> (uncle: BlockAnswer<N>)
        ensures
            uncle matches Ok(None),
    {
        Ok(None)
    }
}

} // verus!
