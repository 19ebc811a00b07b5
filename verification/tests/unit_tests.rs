use tensorfile::bytes::{decode_u16_le, decode_u32_le, read_u64_le};
use tensorfile::decode::checked_product;
use tensorfile::desc::TensorDescriptor;
use tensorfile::error::DecodeError;
use tensorfile::order::order_by_start;

#[test]
fn read_u64_le_reads_the_first_eight_bytes() {
    let b = [0x01u8, 0x02, 0x03, 0x04, 0x05, 0x06, 0x07, 0x08, 0xFF];
    assert_eq!(read_u64_le(&b), 0x0807060504030201u64);
    assert_eq!(read_u64_le(&[0xFF; 8]), u64::MAX);
    assert_eq!(read_u64_le(&[0; 8]), 0);
}

#[test]
fn decode_u16_le_pairs_bytes_little_endian() {
    let b = [0x34u8, 0x12, 0xCD, 0xAB];
    assert_eq!(decode_u16_le(&b), vec![0x1234u16, 0xABCD]);
    assert_eq!(decode_u16_le(&[]), Vec::<u16>::new());
}

#[test]
fn decode_u32_le_groups_four_bytes_little_endian() {
    let b = [0x78u8, 0x56, 0x34, 0x12, 0x00, 0x00, 0x80, 0x3F];
    assert_eq!(decode_u32_le(&b), vec![0x12345678u32, 0x3F800000]);
}

#[test]
fn checked_product_multiplies_extents() {
    assert_eq!(checked_product(&vec![2, 3, 4]), Some(24));
    assert_eq!(checked_product(&vec![]), Some(1));
    assert_eq!(checked_product(&vec![0, 5]), Some(0));
    assert_eq!(checked_product(&vec![usize::MAX, 2]), None);
    assert_eq!(checked_product(&vec![usize::MAX, 2, 0]), Some(0));
}

#[test]
fn order_by_start_sorts_ascending_by_offset() {
    let mk = |name: &str, start: usize, end: usize| {
        (
            name.to_string(),
            TensorDescriptor {
                dtype: "U8".to_string(),
                shape: vec![end - start],
                start,
                end,
            },
        )
    };
    let entries = vec![mk("c", 20, 21), mk("a", 0, 4), mk("b", 4, 20)];
    let sorted = order_by_start(entries);
    let names: Vec<&str> = sorted.iter().map(|(n, _)| n.as_str()).collect();
    assert_eq!(names, vec!["a", "b", "c"]);
    assert_eq!(sorted[0].1.start, 0);
    assert_eq!(sorted[1].1.start, 4);
    assert_eq!(sorted[2].1.start, 20);
}

#[test]
fn error_messages_name_each_condition() {
    assert!(DecodeError::TruncatedHeaderError.message().contains("8 bytes"));
    assert!(DecodeError::AlignmentError.message().contains("width"));
    assert!(DecodeError::UnsupportedDtypeError.message().contains("dtype"));
}
