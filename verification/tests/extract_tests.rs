use gpu_dispatch::extract::{extract, pack, ExtractError};

#[test]
fn extract_cuts_records_in_order() {
    let bytes: Vec<u8> = vec![1, 2, 3, 4, 5, 6];
    let records = extract::<2>(&bytes).unwrap();
    assert_eq!(records, vec![[1u8, 2], [3, 4], [5, 6]]);
}

#[test]
fn extract_single_byte_records() {
    let bytes: Vec<u8> = vec![9, 8, 7];
    assert_eq!(extract::<1>(&bytes).unwrap(), vec![[9u8], [8], [7]]);
}

#[test]
fn extract_of_nothing_is_empty() {
    let bytes: Vec<u8> = Vec::new();
    assert_eq!(extract::<12>(&bytes).unwrap(), Vec::<[u8; 12]>::new());
}

#[test]
fn extract_one_element_exactly() {
    let bytes: Vec<u8> = (0u8..12).collect();
    let records = extract::<12>(&bytes).unwrap();
    assert_eq!(records.len(), 1);
    assert_eq!(records[0], [0u8, 1, 2, 3, 4, 5, 6, 7, 8, 9, 10, 11]);
}

#[test]
fn extract_rejects_slop() {
    let bytes: Vec<u8> = vec![1, 2, 3, 4, 5];
    assert_eq!(extract::<2>(&bytes), Err(ExtractError::SizeMismatch));
}

#[test]
fn extract_rejects_range_shorter_than_one_record() {
    let bytes: Vec<u8> = vec![1, 2, 3];
    assert_eq!(extract::<12>(&bytes), Err(ExtractError::SizeMismatch));
}

#[test]
fn extract_rejects_zero_sized_elements() {
    let bytes: Vec<u8> = vec![1, 2];
    assert_eq!(extract::<0>(&bytes), Err(ExtractError::ZeroSizedElement));
    let nothing: Vec<u8> = Vec::new();
    assert_eq!(extract::<0>(&nothing), Err(ExtractError::ZeroSizedElement));
}

#[test]
fn extract_reads_float_bit_patterns_unchanged() {
    let colour = [1.0f32, 0.5, 0.0];
    let mut bytes: Vec<u8> = Vec::new();
    for channel in colour {
        bytes.extend_from_slice(&channel.to_ne_bytes());
    }
    let records = extract::<12>(&bytes).unwrap();
    let red = f32::from_ne_bytes([records[0][0], records[0][1], records[0][2], records[0][3]]);
    let green = f32::from_ne_bytes([records[0][4], records[0][5], records[0][6], records[0][7]]);
    let blue = f32::from_ne_bytes([records[0][8], records[0][9], records[0][10], records[0][11]]);
    assert_eq!((red, green, blue), (1.0, 0.5, 0.0));
}

#[test]
fn pack_lays_records_out_in_order() {
    let records = vec![[1u8, 2, 3], [4, 5, 6]];
    assert_eq!(pack::<3>(&records), vec![1u8, 2, 3, 4, 5, 6]);
}

#[test]
fn pack_of_nothing_is_empty() {
    let records: Vec<[u8; 4]> = Vec::new();
    assert_eq!(pack::<4>(&records), Vec::<u8>::new());
    let empty_records = vec![[0u8; 0]; 3];
    assert_eq!(pack::<0>(&empty_records), Vec::<u8>::new());
}

#[test]
fn pack_then_extract_gives_the_records_back() {
    let records: Vec<[u8; 8]> = (0u8..5).map(|i| [i, i + 1, i + 2, i + 3, i + 4, i + 5, i + 6, i + 7]).collect();
    let bytes = pack::<8>(&records);
    assert_eq!(bytes.len(), 40);
    assert_eq!(extract::<8>(&bytes).unwrap(), records);
}

#[test]
fn extract_then_pack_gives_the_bytes_back() {
    let bytes: Vec<u8> = (0u8..24).collect();
    let records = extract::<4>(&bytes).unwrap();
    assert_eq!(pack::<4>(&records), bytes);
}
