use uwb_network::mac::format::serializer::WriteBuffer;
use uwb_network::psdu::{PsduContainer, StaticPsdu};

#[test]
fn new_psdu_is_empty() {
    let psdu = StaticPsdu::<8>::new();
    assert_eq!(psdu.capacity(), 8);
    assert_eq!(psdu.len(), 0);
    assert!(psdu.as_slice().is_empty());
    let d: StaticPsdu<8> = Default::default();
    assert_eq!(d.len(), 0);
}

#[test]
fn set_length_keeps_store() {
    let mut psdu = StaticPsdu::<4>::new();
    psdu.set_from_slice(&[1, 2, 3]).unwrap();
    psdu.set_length(1).unwrap();
    assert_eq!(psdu.as_slice(), &[1]);
    psdu.set_length(4).unwrap();
    assert_eq!(psdu.as_slice(), &[1, 2, 3, 0]);
    assert_eq!(psdu.set_length(5), Err(()));
    assert_eq!(psdu.len(), 4);
}

#[test]
fn set_from_slice_too_long_fails() {
    let mut psdu = StaticPsdu::<2>::new();
    psdu.set_from_slice(&[9]).unwrap();
    assert_eq!(psdu.set_from_slice(&[1, 2, 3]), Err(()));
    assert_eq!(psdu.as_slice(), &[9]);
}

#[test]
fn write_buffer_appends_after_frame() {
    let mut psdu = StaticPsdu::<6>::new();
    psdu.set_from_slice(&[1, 2]).unwrap();
    let mut buffer: WriteBuffer = psdu.write_buffer();
    assert_eq!(buffer.capacity(), 4);
    buffer.append_field(0x0403u16).unwrap();
    psdu.commit(buffer);
    assert_eq!(psdu.as_slice(), &[1, 2, 3, 4]);
    assert_eq!(psdu.read_buffer().as_slice(), &[1, 2, 3, 4]);
}

#[test]
fn clone_copies_the_frame_only() {
    let mut psdu = StaticPsdu::<8>::new();
    psdu.set_from_slice(&[1, 2, 3, 4, 5]).unwrap();
    psdu.set_length(3).unwrap();
    let mut copy = psdu.clone();
    assert_eq!(copy.as_slice(), &[1, 2, 3]);
    assert_eq!(copy.capacity(), 8);
    copy.set_length(5).unwrap();
    assert_eq!(copy.as_slice(), &[1, 2, 3, 0, 0]);
    psdu.set_length(5).unwrap();
    assert_eq!(psdu.as_slice(), &[1, 2, 3, 4, 5]);
}
