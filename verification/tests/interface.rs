use uwb_network::dw3000::interface::{
    command_header, fast_read_header, fast_write_header, full_read_header, full_write_header, modify_1_frame,
    modify_2_frame, modify_4_frame, register_read_frame, register_value, register_write_frame, FileId, FullAddress,
};

#[test]
fn file_id_and_full_address() {
    let file = FileId::new(0x01);
    assert_eq!(file.as_u8(), 0x01);
    assert_eq!(u8::from(FileId::new(0x1f)), 0x1f);
    assert_eq!(FullAddress::new(file, 0x04).as_u16(), 0x0210);
    assert_eq!(FullAddress::new(FileId::new(0x1f), 0x7f).as_u16(), 0x3ffc);
    assert_eq!(FullAddress::new(FileId::new(0x00), 0x00).as_u16(), 0x0000);
}

#[test]
fn short_headers() {
    assert_eq!(command_header(0x01), 0x83);
    assert_eq!(command_header(0x00), 0x81);
    assert_eq!(fast_read_header(FileId::new(0x12)), 0x24);
    assert_eq!(fast_write_header(FileId::new(0x14)), 0xa8);
}

#[test]
fn full_address_headers() {
    let addr = FullAddress::new(FileId::new(0x01), 0x04);
    assert_eq!(full_read_header(addr), vec![0x42, 0x10]);
    assert_eq!(full_write_header(addr), vec![0xc2, 0x10]);
}

#[test]
fn register_frames() {
    let addr = FullAddress::new(FileId::new(0x01), 0x04);
    assert_eq!(register_read_frame(addr, 3), vec![0x42, 0x10, 0, 0, 0]);
    assert_eq!(register_read_frame(addr, 0), vec![0x42, 0x10]);
    assert_eq!(register_write_frame(addr, 0x1234_5678, 4), vec![0xc2, 0x10, 0x78, 0x56, 0x34, 0x12]);
    assert_eq!(register_write_frame(addr, 0x1234_5678, 2), vec![0xc2, 0x10, 0x78, 0x56]);
}

#[test]
fn register_value_is_little_endian_after_header() {
    assert_eq!(register_value(&[0x42, 0x10, 0x78, 0x56, 0x34]), 0x34_5678);
    assert_eq!(register_value(&[0x42, 0x10]), 0);
    assert_eq!(
        register_value(&[0, 0, 0x08, 0x07, 0x06, 0x05, 0x04, 0x03, 0x02, 0x01]),
        0x0102_0304_0506_0708
    );
}

#[test]
fn write_then_read_gives_the_value_back() {
    let addr = FullAddress::new(FileId::new(0x00), 0x2c);
    for value in [0u64, 1, 0xff, 0x1234_5678, 0xde_ad_be_ef] {
        let frame = register_write_frame(addr, value, 4);
        assert_eq!(register_value(&frame), value & 0xffff_ffff);
    }
    let frame = register_write_frame(addr, 0x1_2345, 2);
    assert_eq!(register_value(&frame), 0x2345);
}

#[test]
fn modify_frames() {
    let addr = FullAddress::new(FileId::new(0x01), 0x04);
    assert_eq!(modify_1_frame(addr, 0xf0, 0x05), vec![0xc2, 0x11, 0xf0, 0x05]);
    assert_eq!(modify_2_frame(addr, 0x1234, 0x5678), vec![0xc2, 0x12, 0x34, 0x12, 0x78, 0x56]);
    assert_eq!(
        modify_4_frame(addr, 0x1122_3344, 0x5566_7788),
        vec![0xc2, 0x13, 0x44, 0x33, 0x22, 0x11, 0x88, 0x77, 0x66, 0x55]
    );
}
