use hps_ble::codec::{get_u32_le, put_u16_le, put_u32_le};

#[test]
fn put_u32_le_appends_least_significant_byte_first() {
    let mut out = vec![0xaa];
    put_u32_le(&mut out, 0x0403_0201);
    assert_eq!(out, vec![0xaa, 0x01, 0x02, 0x03, 0x04]);
}

#[test]
fn put_u32_le_of_fifty() {
    let mut out = Vec::new();
    put_u32_le(&mut out, 50);
    assert_eq!(out, vec![50, 0, 0, 0]);
}

#[test]
fn put_u32_le_of_the_largest_value() {
    let mut out = Vec::new();
    put_u32_le(&mut out, u32::MAX);
    assert_eq!(out, vec![0xff, 0xff, 0xff, 0xff]);
}

#[test]
fn put_u16_le_of_two_hundred() {
    let mut out = Vec::new();
    put_u16_le(&mut out, 200);
    assert_eq!(out, vec![0xc8, 0x00]);
}

#[test]
fn put_u16_le_of_four_hundred_and_four() {
    let mut out = vec![7];
    put_u16_le(&mut out, 404);
    assert_eq!(out, vec![7, 0x94, 0x01]);
}

#[test]
fn get_u32_le_reads_at_an_offset() {
    let bytes = [9, 9, 9, 9, 0x78, 0x56, 0x34, 0x12];
    assert_eq!(get_u32_le(&bytes, 4), Some(0x1234_5678));
    assert_eq!(get_u32_le(&bytes, 0), Some(0x0909_0909));
}

#[test]
fn get_u32_le_needs_all_four_bytes() {
    let bytes = [1, 2, 3, 4, 5, 6, 7];
    assert_eq!(get_u32_le(&bytes, 4), None);
    assert_eq!(get_u32_le(&bytes, 3), Some(0x0706_0504));
    assert_eq!(get_u32_le(&[], 0), None);
    assert_eq!(get_u32_le(&bytes, usize::MAX), None);
}

#[test]
fn get_u32_le_undoes_put_u32_le() {
    for n in [0u32, 1, 255, 256, 65_535, 65_536, 0x00ff_ffff, 0x0100_0000, u32::MAX] {
        let mut out = Vec::new();
        put_u32_le(&mut out, n);
        assert_eq!(out.len(), 4);
        assert_eq!(get_u32_le(&out, 0), Some(n));
    }
}
