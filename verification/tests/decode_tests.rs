use tensorfile::decode::decode_tensor;
use tensorfile::desc::TensorDescriptor;
use tensorfile::dtype::{parse_dtype, Dtype};
use tensorfile::error::DecodeError;
use tensorfile::reader::{decode_entries, Reader};
use tensorfile::tensor::Tensor;

fn build_file(json: &str, data: &[u8]) -> Vec<u8> {
    let mut out = Vec::new();
    out.extend_from_slice(&(json.len() as u64).to_le_bytes());
    out.extend_from_slice(json.as_bytes());
    out.extend_from_slice(data);
    out
}

fn find<'a>(reader: &'a Reader, name: &str) -> Option<&'a Tensor> {
    reader
        .tensors
        .iter()
        .find(|(n, _)| n == name)
        .map(|(_, t)| t)
}

fn find_failure(reader: &Reader, name: &str) -> Option<DecodeError> {
    reader
        .failures
        .iter()
        .find(|(n, _)| n == name)
        .map(|(_, e)| *e)
}

#[test]
fn f32_tensor_decodes_to_written_bit_patterns() {
    let values: [f32; 4] = [1.0, -2.5, 0.0, 3.25];
    let mut data = Vec::new();
    for v in &values {
        data.extend_from_slice(&v.to_le_bytes());
    }
    let json = r#"{"a":{"dtype":"F32","shape":[4],"data_offsets":[0,16]}}"#;
    let file = build_file(json, &data);
    let reader = Reader::from_bytes(&file).unwrap();
    assert_eq!(reader.tensors.len(), 1);
    assert_eq!(reader.failures.len(), 0);
    match find(&reader, "a").unwrap() {
        Tensor::F32 { data, shape } => {
            assert_eq!(shape, &vec![4usize]);
            assert_eq!(data.len(), 4);
            for i in 0..4 {
                assert_eq!(data[i], values[i].to_bits());
            }
        }
        _ => panic!("expected an F32 tensor"),
    }
}

#[test]
fn shapes_match_declared_arrays() {
    let json = r#"{"a":{"dtype":"U8","shape":[2,3],"data_offsets":[0,6]},"b":{"dtype":"F16","shape":[1,2],"data_offsets":[6,10]}}"#;
    let file = build_file(json, &[1, 2, 3, 4, 5, 6, 7, 8, 9, 10]);
    let reader = Reader::from_bytes(&file).unwrap();
    assert_eq!(reader.failures.len(), 0);
    assert_eq!(find(&reader, "a").unwrap().shape(), &[2, 3]);
    assert_eq!(find(&reader, "b").unwrap().shape(), &[1, 2]);
}

#[test]
fn misaligned_f16_fails_with_alignment_error() {
    let json = r#"{"a":{"dtype":"F16","shape":[1],"data_offsets":[0,3]}}"#;
    let file = build_file(json, &[1, 2, 3]);
    let reader = Reader::from_bytes(&file).unwrap();
    assert_eq!(reader.tensors.len(), 0);
    assert_eq!(find_failure(&reader, "a"), Some(DecodeError::AlignmentError));
}

#[test]
fn misaligned_bf16_and_f32_fail_with_alignment_error() {
    let json = r#"{"a":{"dtype":"BF16","shape":[1],"data_offsets":[0,5]},"b":{"dtype":"F32","shape":[1],"data_offsets":[0,6]}}"#;
    let file = build_file(json, &[0, 0, 0, 0, 0, 0]);
    let reader = Reader::from_bytes(&file).unwrap();
    assert_eq!(find_failure(&reader, "a"), Some(DecodeError::AlignmentError));
    assert_eq!(find_failure(&reader, "b"), Some(DecodeError::AlignmentError));
}

#[test]
fn unsupported_dtype_fails_but_siblings_decode() {
    let json = r#"{"bad":{"dtype":"I64","shape":[1],"data_offsets":[0,8]},"good":{"dtype":"U8","shape":[2],"data_offsets":[8,10]}}"#;
    let file = build_file(json, &[0, 0, 0, 0, 0, 0, 0, 0, 7, 9]);
    let reader = Reader::from_bytes(&file).unwrap();
    assert_eq!(
        find_failure(&reader, "bad"),
        Some(DecodeError::UnsupportedDtypeError)
    );
    match find(&reader, "good").unwrap() {
        Tensor::U8 { data, shape } => {
            assert_eq!(data, &vec![7u8, 9u8]);
            assert_eq!(shape, &vec![2usize]);
        }
        _ => panic!("expected a U8 tensor"),
    }
}

#[test]
fn reverse_processing_order_gives_identical_results() {
    // The same file image and descriptor table, handed to the decode
    // stage in opposite orders: the per-name outcomes must agree.
    let json = r#"{"x":{"dtype":"U8","shape":[2],"data_offsets":[0,2]},"y":{"dtype":"F16","shape":[1],"data_offsets":[2,4]}}"#;
    let file = build_file(json, &[5, 6, 0x34, 0x12]);
    let n = json.len();
    let forward = vec![
        (
            "x".to_string(),
            TensorDescriptor {
                dtype: "U8".to_string(),
                shape: vec![2],
                start: 0,
                end: 2,
            },
        ),
        (
            "y".to_string(),
            TensorDescriptor {
                dtype: "F16".to_string(),
                shape: vec![1],
                start: 2,
                end: 4,
            },
        ),
    ];
    let backward = vec![
        (
            "y".to_string(),
            TensorDescriptor {
                dtype: "F16".to_string(),
                shape: vec![1],
                start: 2,
                end: 4,
            },
        ),
        (
            "x".to_string(),
            TensorDescriptor {
                dtype: "U8".to_string(),
                shape: vec![2],
                start: 0,
                end: 2,
            },
        ),
    ];
    let (t1, f1) = decode_entries(&file, n, &forward);
    let (t2, f2) = decode_entries(&file, n, &backward);
    assert_eq!(f1.len(), 0);
    assert_eq!(f2.len(), 0);
    assert_eq!(t1.len(), 2);
    assert_eq!(t2.len(), 2);
    for (name, tensor) in &t1 {
        let other = t2.iter().find(|(n2, _)| n2 == name).map(|(_, t)| t).unwrap();
        match (tensor, other) {
            (Tensor::U8 { data: a, shape: sa }, Tensor::U8 { data: b, shape: sb }) => {
                assert_eq!(a, b);
                assert_eq!(sa, sb);
            }
            (Tensor::F16 { data: a, shape: sa }, Tensor::F16 { data: b, shape: sb }) => {
                assert_eq!(a, b);
                assert_eq!(sa, sb);
            }
            _ => panic!("dtype changed with processing order"),
        }
    }
}

#[test]
fn four_byte_file_fails_with_truncated_header() {
    let file = vec![1u8, 2, 3, 4];
    assert!(matches!(
        Reader::from_bytes(&file),
        Err(DecodeError::TruncatedHeaderError)
    ));
}

#[test]
fn short_metadata_block_fails_with_truncated_metadata() {
    let mut file = Vec::new();
    file.extend_from_slice(&100u64.to_le_bytes());
    file.extend_from_slice(b"{}");
    assert!(matches!(
        Reader::from_bytes(&file),
        Err(DecodeError::TruncatedMetadataError)
    ));
}

#[test]
fn thousand_tensors_decode_concurrently() {
    let mut json = String::from("{");
    let mut data = Vec::new();
    for i in 0..1000usize {
        if i > 0 {
            json.push(',');
        }
        json.push_str(&format!(
            r#""t{}":{{"dtype":"U8","shape":[1],"data_offsets":[{},{}]}}"#,
            i,
            i,
            i + 1
        ));
        data.push((i % 251) as u8);
    }
    json.push('}');
    let file = build_file(&json, &data);
    let reader = Reader::from_bytes(&file).unwrap();
    assert_eq!(reader.failures.len(), 0);
    assert_eq!(reader.tensors.len(), 1000);
    for i in 0..1000usize {
        let name = format!("t{}", i);
        match find(&reader, &name).unwrap() {
            Tensor::U8 { data, shape } => {
                assert_eq!(data, &vec![(i % 251) as u8]);
                assert_eq!(shape, &vec![1usize]);
            }
            _ => panic!("expected a U8 tensor"),
        }
    }
}

#[test]
fn u8_range_of_four_bytes_reads_exactly_four() {
    // The corrected, consistent convention: an exclusive end, so
    // data_offsets=[0,4] is exactly 4 bytes — never a fifth.
    let json = r#"{"a":{"dtype":"U8","shape":[4],"data_offsets":[0,4]}}"#;
    let file = build_file(json, &[10, 20, 30, 40, 99]);
    let reader = Reader::from_bytes(&file).unwrap();
    match find(&reader, "a").unwrap() {
        Tensor::U8 { data, .. } => {
            assert_eq!(data.len(), 4);
            assert_eq!(data, &vec![10u8, 20, 30, 40]);
        }
        _ => panic!("expected a U8 tensor"),
    }
}

#[test]
fn invalid_range_fails_with_range_error() {
    let json = r#"{"a":{"dtype":"U8","shape":[1],"data_offsets":[8,4]}}"#;
    let file = build_file(json, &[0; 16]);
    let reader = Reader::from_bytes(&file).unwrap();
    assert_eq!(
        find_failure(&reader, "a"),
        Some(DecodeError::InvalidRangeError)
    );
}

#[test]
fn range_past_data_end_fails_with_io_error() {
    let json = r#"{"a":{"dtype":"U8","shape":[100],"data_offsets":[0,100]}}"#;
    let file = build_file(json, &[0; 4]);
    let reader = Reader::from_bytes(&file).unwrap();
    assert_eq!(find_failure(&reader, "a"), Some(DecodeError::IoError));
}

#[test]
fn shape_product_mismatch_fails_with_shape_error() {
    let json = r#"{"a":{"dtype":"U8","shape":[3],"data_offsets":[0,4]}}"#;
    let file = build_file(json, &[1, 2, 3, 4]);
    let reader = Reader::from_bytes(&file).unwrap();
    assert_eq!(
        find_failure(&reader, "a"),
        Some(DecodeError::ShapeMismatchError)
    );
}

#[test]
fn invalid_json_fails_with_malformed_metadata() {
    let file = build_file("{not json", &[]);
    assert!(matches!(
        Reader::from_bytes(&file),
        Err(DecodeError::MalformedMetadataError)
    ));
}

#[test]
fn non_object_metadata_fails_with_malformed_metadata() {
    let file = build_file("[1,2,3]", &[]);
    assert!(matches!(
        Reader::from_bytes(&file),
        Err(DecodeError::MalformedMetadataError)
    ));
}

#[test]
fn missing_descriptor_field_fails_with_malformed_metadata() {
    let json = r#"{"a":{"dtype":"U8","data_offsets":[0,1]}}"#;
    let file = build_file(json, &[0]);
    assert!(matches!(
        Reader::from_bytes(&file),
        Err(DecodeError::MalformedMetadataError)
    ));
}

#[test]
fn three_element_offsets_fail_with_malformed_metadata() {
    let json = r#"{"a":{"dtype":"U8","shape":[1],"data_offsets":[0,1,2]}}"#;
    let file = build_file(json, &[0, 0, 0]);
    assert!(matches!(
        Reader::from_bytes(&file),
        Err(DecodeError::MalformedMetadataError)
    ));
}

#[test]
fn negative_offset_fails_with_malformed_metadata() {
    let json = r#"{"a":{"dtype":"U8","shape":[1],"data_offsets":[-1,0]}}"#;
    let file = build_file(json, &[0]);
    assert!(matches!(
        Reader::from_bytes(&file),
        Err(DecodeError::MalformedMetadataError)
    ));
}

#[test]
fn empty_object_gives_empty_reader() {
    let file = build_file("{}", &[]);
    let reader = Reader::from_bytes(&file).unwrap();
    assert_eq!(reader.tensors.len(), 0);
    assert_eq!(reader.failures.len(), 0);
    assert!(reader.metadata.is_none());
}

#[test]
fn metadata_value_passes_through() {
    let json = r#"{"__metadata__":{"framework":"test","count":3}}"#;
    let file = build_file(json, &[]);
    let reader = Reader::from_bytes(&file).unwrap();
    let value = reader.metadata.as_ref().unwrap();
    let expected: serde_json::Value =
        serde_json::from_str(r#"{"framework":"test","count":3}"#).unwrap();
    assert_eq!(value, &expected);
    assert_eq!(reader.tensors.len(), 0);
}

#[test]
fn empty_shape_means_one_element() {
    let json = r#"{"a":{"dtype":"U8","shape":[],"data_offsets":[0,1]}}"#;
    let file = build_file(json, &[42]);
    let reader = Reader::from_bytes(&file).unwrap();
    match find(&reader, "a").unwrap() {
        Tensor::U8 { data, shape } => {
            assert_eq!(data, &vec![42u8]);
            assert_eq!(shape.len(), 0);
        }
        _ => panic!("expected a U8 tensor"),
    }
}

#[test]
fn zero_extent_shape_means_empty_tensor() {
    let json = r#"{"a":{"dtype":"F32","shape":[0],"data_offsets":[0,0]}}"#;
    let file = build_file(json, &[]);
    let reader = Reader::from_bytes(&file).unwrap();
    match find(&reader, "a").unwrap() {
        Tensor::F32 { data, shape } => {
            assert_eq!(data.len(), 0);
            assert_eq!(shape, &vec![0usize]);
        }
        _ => panic!("expected an F32 tensor"),
    }
}

#[test]
fn f16_and_bf16_keep_little_endian_bit_patterns() {
    let json = r#"{"h":{"dtype":"F16","shape":[2],"data_offsets":[0,4]},"b":{"dtype":"BF16","shape":[2],"data_offsets":[4,8]}}"#;
    let file = build_file(json, &[0x00, 0x3C, 0x00, 0xC0, 0x80, 0x3F, 0x00, 0xBF]);
    let reader = Reader::from_bytes(&file).unwrap();
    match find(&reader, "h").unwrap() {
        Tensor::F16 { data, .. } => assert_eq!(data, &vec![0x3C00u16, 0xC000u16]),
        _ => panic!("expected an F16 tensor"),
    }
    match find(&reader, "b").unwrap() {
        Tensor::Bf16 { data, .. } => assert_eq!(data, &vec![0x3F80u16, 0xBF00u16]),
        _ => panic!("expected a BF16 tensor"),
    }
}

#[test]
fn decode_tensor_is_pure_over_its_own_range() {
    // decode_tensor reads only [8 + n + start, 8 + n + end).
    let json = r#"{"a":{"dtype":"U8","shape":[2],"data_offsets":[1,3]}}"#;
    let file = build_file(json, &[9, 11, 13, 15]);
    let d = TensorDescriptor {
        dtype: "U8".to_string(),
        shape: vec![2],
        start: 1,
        end: 3,
    };
    match decode_tensor(&file, json.len(), &d).unwrap() {
        Tensor::U8 { data, .. } => assert_eq!(data, vec![11u8, 13u8]),
        _ => panic!("expected a U8 tensor"),
    }
}

#[test]
fn parse_dtype_recognizes_exactly_the_supported_set() {
    assert_eq!(parse_dtype(&"U8".to_string()), Some(Dtype::U8));
    assert_eq!(parse_dtype(&"F16".to_string()), Some(Dtype::F16));
    assert_eq!(parse_dtype(&"BF16".to_string()), Some(Dtype::Bf16));
    assert_eq!(parse_dtype(&"F32".to_string()), Some(Dtype::F32));
    assert_eq!(parse_dtype(&"f32".to_string()), None);
    assert_eq!(parse_dtype(&"I64".to_string()), None);
    assert_eq!(parse_dtype(&"".to_string()), None);
}
