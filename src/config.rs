use vstd::prelude::*;

use crate::key::BlockHeight;

verus! {

/// The output of a transaction that a coin or contract came from.
#[derive(Clone, Copy, Debug, PartialEq, Eq)]
pub struct UtxoId {
    pub tx_id: [u8; 32],
    pub output_index: u8,
}

/// Where a transaction stands: the block's height and its index in the block.
#[derive(Clone, Copy, Debug, PartialEq, Eq, Structural)]
pub struct TxPointer {
    pub block_height: BlockHeight,
    pub tx_index: u16,
}

impl TxPointer {
    /// The pointer to the first transaction of block zero.
    pub fn zero() -> (r: TxPointer)
        ensures
            r.block_height.value == 0 && r.tx_index == 0,
    {
        TxPointer { block_height: BlockHeight { value: 0 }, tx_index: 0 }
    }
}

/// A contract as the chain configuration describes it at genesis.
#[derive(Clone, Debug)]
pub struct ContractConfig {
    pub contract_id: [u8; 32],
    pub code: Vec<u8>,
    pub salt: [u8; 32],
    pub tx_id: Option<[u8; 32]>,
    pub output_index: Option<u8>,
    /// The block height the contract was last used in, where it was forked
    /// from another chain.
    pub tx_pointer_block_height: Option<BlockHeight>,
    /// The index of the originating transaction within that block.
    pub tx_pointer_tx_idx: Option<u16>,
}

impl ContractConfig {
    /// The originating output, where both its transaction and index are given.
    pub fn utxo_id(&self) -> (r: Option<UtxoId>)
        ensures
            r is Some <==> self.tx_id is Some && self.output_index is Some,
            r is Some ==> r->Some_0.tx_id == self.tx_id->Some_0 && r->Some_0.output_index
                == self.output_index->Some_0,
    {
        match (self.tx_id, self.output_index) {
            (Some(tx_id), Some(output_index)) => Some(UtxoId { tx_id, output_index }),
            _ => None,
        }
    }

    /// The originating transaction pointer, where both its parts are given;
    /// the zero pointer otherwise.
    pub fn tx_pointer(&self) -> (r: TxPointer)
        ensures
            (self.tx_pointer_block_height is Some && self.tx_pointer_tx_idx is Some) ==> r.block_height
                == self.tx_pointer_block_height->Some_0 && r.tx_index == self.tx_pointer_tx_idx->Some_0,
            !(self.tx_pointer_block_height is Some && self.tx_pointer_tx_idx is Some) ==> r.block_height.value
                == 0 && r.tx_index == 0,
    {
        match (self.tx_pointer_block_height, self.tx_pointer_tx_idx) {
            (Some(block_height), Some(tx_index)) => TxPointer { block_height, tx_index },
            _ => TxPointer::zero(),
        }
    }
}

} // verus!
