use lem::block::Block;
use lem::convert::{
    compare_arrays, concatenate_arrays, convert_int_array_to_string, convert_string_to_int_array,
};
use lem::err::VmError;
use lem::pool::Pool;
use lem::table::BlockManager;

#[test]
fn allocate_write_read_round_trip() {
    // any block with at least one slot: write v at index i, read i back
    let mut manager = BlockManager::new();
    let id = manager.create_block(vec![0; 4]);
    let mut block = manager.get_block(id).unwrap();
    assert_eq!(block.set(2, 77), Ok(()));
    manager.update_block(id, block.slots).unwrap();
    let back = manager.get_block(id).unwrap();
    assert_eq!(back.get(2), Some(77));
    // the other slots keep their allocated contents
    assert_eq!(back.get(0), Some(0));
    assert_eq!(back.get(3), Some(0));
}

#[test]
fn free_list_reuse_is_lifo() {
    let mut pool = Pool::new(8);
    let a = pool.allocate(vec![1]);
    let b = pool.allocate(vec![2]);
    assert_eq!((a, b), (0, 1));
    // freeing a then b must hand b back first, then a, then a fresh one
    assert_eq!(pool.free(a), Ok(()));
    assert_eq!(pool.free(b), Ok(()));
    assert_eq!(pool.allocate(vec![3]), b);
    assert_eq!(pool.allocate(vec![4]), a);
    assert_eq!(pool.allocate(vec![5]), 2);
}

#[test]
fn freeing_an_unknown_identifier_is_reported() {
    let mut pool = Pool::new(2);
    assert_eq!(pool.free(3), Err(VmError::UnknownBlockIdentifier));
    let id = pool.allocate(vec![1]);
    assert_eq!(pool.free(id), Ok(()));
    assert_eq!(pool.free(id), Err(VmError::UnknownBlockIdentifier));
}

#[test]
fn block_get_is_none_past_the_fixed_length() {
    let block = Block::new(vec![5, 6]);
    assert_eq!(block.get(0), Some(5));
    assert_eq!(block.get(1), Some(6));
    assert_eq!(block.get(2), None);
}

#[test]
fn block_set_rejects_an_out_of_range_index() {
    let mut block = Block::new(vec![1, 2]);
    assert_eq!(block.set(2, 9), Err(VmError::OutOfBoundsIndex));
    assert_eq!(block.slots, vec![1, 2]);
}

#[test]
fn block_arithmetic_wraps_like_a_register() {
    let mut block = Block::new(vec![u32::MAX - 1]);
    assert_eq!(block.add(0, 5), Ok(()));
    assert_eq!(block.get(0), Some(3));
    assert_eq!(block.sub(0, 4), Ok(()));
    assert_eq!(block.get(0), Some(u32::MAX));
    assert_eq!(block.mul(0, 2), Ok(()));
    assert_eq!(block.get(0), Some(u32::MAX - 1));
}

#[test]
fn block_div_reports_a_zero_divisor() {
    let mut block = Block::new(vec![10]);
    assert_eq!(block.div(0, 0), Err(VmError::DivisionByZero));
    assert_eq!(block.get(0), Some(10));
    assert_eq!(block.div(0, 3), Ok(()));
    assert_eq!(block.get(0), Some(3));
}

#[test]
fn block_arithmetic_rejects_an_out_of_range_index() {
    let mut block = Block::new(vec![1]);
    assert_eq!(block.add(1, 1), Err(VmError::OutOfBoundsIndex));
    assert_eq!(block.sub(1, 1), Err(VmError::OutOfBoundsIndex));
    assert_eq!(block.mul(1, 1), Err(VmError::OutOfBoundsIndex));
    assert_eq!(block.div(1, 1), Err(VmError::OutOfBoundsIndex));
    assert_eq!(block.slots, vec![1]);
}

#[test]
fn manager_mints_fresh_identifiers_never_reusing() {
    let mut manager = BlockManager::new();
    let a = manager.create_block(vec![1]);
    let b = manager.create_block(vec![2]);
    assert_eq!(manager.delete_block(a), Ok(()));
    let c = manager.create_block(vec![3]);
    assert!(c != a && c != b);
    assert!(manager.get_block(a).is_none());
    assert_eq!(manager.get_block(c).unwrap().slots, vec![3]);
}

#[test]
fn manager_update_and_delete_report_unknown_identifiers() {
    let mut manager = BlockManager::new();
    assert_eq!(manager.update_block(0, vec![1]), Err(VmError::UnknownBlockIdentifier));
    assert_eq!(manager.delete_block(0), Err(VmError::UnknownBlockIdentifier));
}

#[test]
fn string_encodes_one_code_point_per_slot() {
    assert_eq!(convert_string_to_int_array("AB"), vec![65, 66]);
    assert_eq!(convert_string_to_int_array(""), Vec::<u32>::new());
    assert_eq!(convert_string_to_int_array("héllo").len(), 5);
}

#[test]
fn int_array_decodes_back_to_the_string() {
    assert_eq!(convert_int_array_to_string(&[104, 105]), "hi");
    let original = "snake 🐍 charmer";
    let encoded = convert_string_to_int_array(original);
    assert_eq!(convert_int_array_to_string(&encoded), original);
}

#[test]
fn compare_arrays_checks_values_and_order() {
    assert!(compare_arrays(&[1, 2, 3], &[1, 2, 3]));
    assert!(!compare_arrays(&[1, 2, 3], &[1, 2]));
    assert!(!compare_arrays(&[1, 2, 3], &[1, 2, 4]));
    assert!(compare_arrays(&[], &[]));
}

#[test]
fn concatenate_arrays_appends_in_order() {
    assert_eq!(concatenate_arrays(&[1, 2], &[3]), vec![1, 2, 3]);
    assert_eq!(concatenate_arrays(&[], &[7]), vec![7]);
    assert_eq!(concatenate_arrays(&[7], &[]), vec![7]);
}

#[test]
fn error_kinds_describe_themselves() {
    assert!(!VmError::DivisionByZero.describe().is_empty());
    assert!(!VmError::MalformedProgram.describe().is_empty());
}
