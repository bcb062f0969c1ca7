use embed_pipeline::error::{ParseFault, PipelineError};
use embed_pipeline::source::{parse_array, parse_label_vector, FLOAT_CODE, INT_CODE,
    LITTLE_ENDIAN_CODE};

fn encode(kind: u8, elem_size: u8, dims: &[u32], payload: &[u8]) -> Vec<u8> {
    let mut buf = vec![kind, elem_size, LITTLE_ENDIAN_CODE, dims.len() as u8];
    for d in dims {
        buf.extend_from_slice(&d.to_le_bytes());
    }
    buf.extend_from_slice(payload);
    buf
}

#[test]
fn labels_parse_from_single_byte_elements() {
    let buf = encode(INT_CODE, 1, &[4], &[7, 3, 2, 9]);
    let labels = parse_label_vector(&buf).unwrap();
    assert_eq!(labels.values, vec![7, 3, 2, 9]);
}

#[test]
fn labels_parse_from_four_byte_elements() {
    let mut payload = Vec::new();
    for v in [300u32, 0, 65536] {
        payload.extend_from_slice(&v.to_le_bytes());
    }
    let buf = encode(INT_CODE, 4, &[3], &payload);
    let labels = parse_label_vector(&buf).unwrap();
    assert_eq!(labels.values, vec![300, 0, 65536]);
}

#[test]
fn feature_matrix_parses_little_endian_floats() {
    let values = [1.5f32, -2.0, 0.25, 1000.0];
    let mut payload = Vec::new();
    for v in values {
        payload.extend_from_slice(&v.to_le_bytes());
    }
    let buf = encode(FLOAT_CODE, 4, &[2, 2], &payload);
    let parsed = parse_array(&buf, FLOAT_CODE, 2, |bits: u64| f32::from_bits(bits as u32)).unwrap();
    assert_eq!(parsed.shape, vec![2, 2]);
    assert_eq!(parsed.data, values.to_vec());
}

#[test]
fn truncated_buffer_is_a_parse_error() {
    let buf = vec![INT_CODE, 1];
    let r = parse_label_vector(&buf);
    assert!(matches!(
        r,
        Err(PipelineError::ParseError { fault: ParseFault::TruncatedHeader })
    ));
}

#[test]
fn truncated_dimension_list_is_a_parse_error() {
    let buf = vec![INT_CODE, 1, LITTLE_ENDIAN_CODE, 2, 4, 0];
    let r = parse_array(&buf, INT_CODE, 2, |bits: u64| bits as i64);
    assert!(matches!(
        r,
        Err(PipelineError::ParseError { fault: ParseFault::TruncatedHeader })
    ));
}

#[test]
fn unknown_type_code_is_rejected() {
    let buf = encode(0x7a, 1, &[1], &[0]);
    let r = parse_array(&buf, 0x7a, 1, |bits: u64| bits as i64);
    assert!(matches!(
        r,
        Err(PipelineError::ParseError { fault: ParseFault::UnsupportedElement })
    ));
}

#[test]
fn float_buffer_is_not_a_label_vector() {
    let buf = encode(FLOAT_CODE, 1, &[2], &[0, 0]);
    let r = parse_label_vector(&buf);
    assert!(matches!(
        r,
        Err(PipelineError::ParseError { fault: ParseFault::UnsupportedElement })
    ));
}

#[test]
fn big_endian_mark_is_rejected() {
    let mut buf = encode(INT_CODE, 1, &[1], &[0]);
    buf[2] = 0x42;
    let r = parse_label_vector(&buf);
    assert!(matches!(
        r,
        Err(PipelineError::ParseError { fault: ParseFault::UnsupportedElement })
    ));
}

#[test]
fn odd_element_size_is_rejected() {
    let buf = encode(INT_CODE, 3, &[1], &[0, 0, 0]);
    let r = parse_label_vector(&buf);
    assert!(matches!(
        r,
        Err(PipelineError::ParseError { fault: ParseFault::UnsupportedElement })
    ));
}

#[test]
fn wrong_rank_is_rejected() {
    let buf = encode(INT_CODE, 1, &[2, 2], &[0, 1, 2, 3]);
    let r = parse_label_vector(&buf);
    match r {
        Err(PipelineError::ParseError { fault: ParseFault::RankMismatch { expected, found } }) => {
            assert_eq!(expected, 1);
            assert_eq!(found, 2);
        }
        _ => panic!("expected a rank mismatch"),
    }
}

#[test]
fn zero_dimension_is_rejected() {
    let buf = encode(INT_CODE, 1, &[0], &[]);
    let r = parse_label_vector(&buf);
    assert!(matches!(
        r,
        Err(PipelineError::ParseError { fault: ParseFault::EmptyDimension })
    ));
}

#[test]
fn payload_length_mismatch_is_rejected() {
    let buf = encode(INT_CODE, 1, &[4], &[7, 3, 2]);
    let r = parse_label_vector(&buf);
    assert!(matches!(
        r,
        Err(PipelineError::ParseError { fault: ParseFault::LengthMismatch })
    ));
}
