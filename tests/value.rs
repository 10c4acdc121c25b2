use stream_engine::value::{HummockError, HummockValue};

#[test]
fn test_vec_decode_encode() {
    let mut result = vec![];
    HummockValue::Put(b"233333".to_vec()).encode(&mut result);
    assert_eq!(
        HummockValue::Put(b"233333".to_vec()),
        HummockValue::decode(&mut &result[..]).unwrap()
    );
}

#[test]
fn test_slice_decode_encode() {
    let mut result = vec![];
    HummockValue::Put(b"233333".to_vec()).encode(&mut result);

    assert_eq!(
        HummockValue::Put(b"233333".as_slice()),
        HummockValue::from_slice(&result).unwrap()
    );
}

#[test]
fn encoding_layout_is_flag_then_bytes() {
    let mut buf = vec![9u8];
    HummockValue::Put(vec![1u8, 2, 3]).encode(&mut buf);
    assert_eq!(buf, vec![9u8, 0, 1, 2, 3]);
    let mut del = vec![];
    HummockValue::<Vec<u8>>::Delete.encode(&mut del);
    assert_eq!(del, vec![1u8]);
}

#[test]
fn encoded_len_counts_the_flag() {
    assert_eq!(HummockValue::Put(vec![7u8; 5]).encoded_len(), 6);
    assert_eq!(HummockValue::<Vec<u8>>::Delete.encoded_len(), 1);
}

#[test]
fn delete_round_trips() {
    let mut buf = vec![];
    HummockValue::<Vec<u8>>::Delete.encode(&mut buf);
    assert_eq!(HummockValue::decode(&mut &buf[..]).unwrap(), HummockValue::Delete);
    assert_eq!(HummockValue::from_slice(&buf).unwrap(), HummockValue::Delete);
}

#[test]
fn decode_rejects_empty_and_unknown_flag() {
    assert_eq!(HummockValue::decode(&mut &[][..]), Err(HummockError::EmptyValue));
    assert_eq!(HummockValue::decode(&mut &[2u8, 5][..]), Err(HummockError::InvalidFlag));
    assert_eq!(HummockValue::from_slice(&[]), Err(HummockError::EmptyValue));
    assert_eq!(HummockValue::from_slice(&[7u8]), Err(HummockError::InvalidFlag));
}

#[test]
fn put_with_empty_user_value() {
    assert_eq!(HummockValue::decode(&mut &[0u8][..]).unwrap(), HummockValue::Put(vec![]));
}

#[test]
fn into_put_value_of_put_and_delete() {
    assert_eq!(HummockValue::Put(vec![4u8]).into_put_value(), Some(vec![4u8]));
    assert_eq!(HummockValue::<Vec<u8>>::Delete.into_put_value(), None);
}

#[test]
fn decode_moves_the_buffer_past_the_flag() {
    let bytes = [0u8, 8, 9];
    let mut buf: &[u8] = &bytes;
    assert_eq!(HummockValue::decode(&mut buf).unwrap(), HummockValue::Put(vec![8u8, 9]));
    assert_eq!(buf, &[8u8, 9][..]);
    let mut empty: &[u8] = &[];
    assert!(HummockValue::decode(&mut empty).is_err());
    assert!(empty.is_empty());
}
