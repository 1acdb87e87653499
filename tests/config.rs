use temporal_registry::config::{ContractConfig, TxPointer, UtxoId};
use temporal_registry::key::BlockHeight;

fn config() -> ContractConfig {
    ContractConfig {
        contract_id: [1; 32],
        code: vec![1, 2, 3],
        salt: [2; 32],
        tx_id: None,
        output_index: None,
        tx_pointer_block_height: None,
        tx_pointer_tx_idx: None,
    }
}

#[test]
fn utxo_id_needs_both_parts() {
    let mut c = config();
    assert_eq!(c.utxo_id(), None);
    c.tx_id = Some([3; 32]);
    assert_eq!(c.utxo_id(), None);
    c.output_index = Some(4);
    assert_eq!(c.utxo_id(), Some(UtxoId { tx_id: [3; 32], output_index: 4 }));
}

#[test]
fn tx_pointer_defaults_to_zero() {
    let mut c = config();
    assert_eq!(c.tx_pointer(), TxPointer::zero());
    c.tx_pointer_block_height = Some(BlockHeight { value: 9 });
    assert_eq!(c.tx_pointer(), TxPointer::zero());
    c.tx_pointer_tx_idx = Some(5);
    assert_eq!(
        c.tx_pointer(),
        TxPointer { block_height: BlockHeight { value: 9 }, tx_index: 5 }
    );
}
