use soapy_spec_acc::utils::{
    get_le32, get_le64, put_le32, put_le64, read_data, write_data, UnexpectedEof,
};

#[test]
fn words_are_little_endian() {
    let mut out: Vec<u8> = vec![9];
    put_le32(&mut out, 0x0403_0201);
    assert_eq!(out, vec![9, 1, 2, 3, 4]);
    put_le64(&mut out, 0x0807_0605_0403_0201);
    assert_eq!(out, vec![9, 1, 2, 3, 4, 1, 2, 3, 4, 5, 6, 7, 8]);
    assert_eq!(get_le32(&out, 1), 0x0403_0201);
    assert_eq!(get_le64(&out, 5), 0x0807_0605_0403_0201);
    assert_eq!(get_le32(&[0xff, 0xff, 0xff, 0xff], 0), u32::MAX);
    assert_eq!(get_le64(&[0xff; 8], 0), u64::MAX);
}

#[test]
fn write_data_is_unframed_little_endian_floats() {
    let spectrum = [1.5f32, -2.0, 0.0];
    let words: Vec<u32> = spectrum.iter().map(|x| x.to_bits()).collect();
    let mut drain: Vec<u8> = Vec::new();
    write_data(&mut drain, &words);
    let mut expected: Vec<u8> = Vec::new();
    for x in spectrum.iter() {
        expected.extend_from_slice(&x.to_le_bytes());
    }
    assert_eq!(drain, expected);
    write_data(&mut drain, &words[..1]);
    assert_eq!(drain.len(), 16);
    assert_eq!(&drain[12..], &1.5f32.to_le_bytes());
    write_data(&mut drain, &[]);
    assert_eq!(drain.len(), 16);
}

#[test]
fn read_data_round_trip() {
    let words: Vec<u32> = vec![0, 1, 0xdead_beef, u32::MAX, 0x3fc0_0000];
    let mut bytes: Vec<u8> = Vec::new();
    write_data(&mut bytes, &words);
    bytes.extend_from_slice(&[7, 7, 7]);
    let mut buf = vec![0u32; 5];
    assert_eq!(read_data(&bytes, &mut buf), Ok(()));
    assert_eq!(buf, words);
    let mut two = vec![0u32; 2];
    assert_eq!(read_data(&bytes, &mut two), Ok(()));
    assert_eq!(two, vec![0, 1]);
}

#[test]
fn read_data_short_input_is_refused() {
    let bytes = [1u8, 2, 3, 4, 5, 6, 7];
    let mut buf = vec![11u32, 22];
    assert_eq!(read_data(&bytes, &mut buf), Err(UnexpectedEof { needed: 8, available: 7 }));
    assert_eq!(buf, vec![11, 22]);
    let mut none: Vec<u32> = vec![];
    assert_eq!(read_data(&[], &mut none), Ok(()));
}
