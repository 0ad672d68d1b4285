use l3gion_audio_codec::tools::{i8_to_u8, u8_to_i8};
use l3gion_audio_codec::{Error, IoError, LgVecReader, LgVecWriter};

#[test]
fn eight_bit_rebasing() {
    assert_eq!(u8_to_i8(0), -128);
    assert_eq!(u8_to_i8(128), 0);
    assert_eq!(u8_to_i8(255), 127);
    assert_eq!(i8_to_u8(-128), 0);
    assert_eq!(i8_to_u8(0), 128);
    assert_eq!(i8_to_u8(127), 255);
}

#[test]
fn vec_reader_reads_and_refuses_past_the_end() {
    let mut r = LgVecReader::new(vec![1u8, 2, 3, 4, 5]);
    assert_eq!(r.read_quantity(2).unwrap(), &[1, 2]);
    assert_eq!(r.read_quantity(4).unwrap_err(), Error::Io(IoError::UnexpectedEof));
    assert_eq!(r.cursor(), 2);
    assert!(r.skip_quantity(1).is_ok());
    assert_eq!(r.skip_quantity(2).unwrap_err(), Error::Io(IoError::UnexpectedEof));
    assert!(!r.reach_end());
    assert_eq!(r.read_to_end().unwrap(), &[4, 5]);
    assert!(r.reach_end());
    assert!(r.read_to_end().is_err());
    assert_eq!(r.inner(), vec![1, 2, 3, 4, 5]);
}

#[test]
fn vec_reader_take_quantity_cuts_out_items() {
    let mut r = LgVecReader::new(vec![1u8, 2, 3, 4, 5]);
    r.read_quantity(1).unwrap();
    let mut taken = r.take_quantity(2);
    assert_eq!(taken.read_to_end().unwrap(), &[2, 3]);
    assert_eq!(r.read_to_end().unwrap(), &[4, 5]);
    assert_eq!(r.inner(), vec![1, 4, 5]);
}

#[test]
fn vec_writer_overwrites_and_grows() {
    let mut w = LgVecWriter::new();
    w.write(&[1, 2, 3, 4]);
    w.go_to(1);
    w.write_le_u16(0xBBAA);
    assert_eq!(w.position(), 3);
    w.go_to(6);
    w.write_le_u8(9);
    w.go_to(0);
    w.write_le_i8(-1);
    assert_eq!(w.into_inner(), vec![127, 0xAA, 0xBB, 4, 0, 0, 9]);
}

#[test]
fn vec_writer_little_endian_forms() {
    let mut w = LgVecWriter::new();
    w.write_le_u32(0x0403_0201);
    w.write_le_u64(0x0807_0605_0403_0201);
    w.write_le_i32_24(-2);
    assert_eq!(w.into_inner(), vec![1, 2, 3, 4, 1, 2, 3, 4, 5, 6, 7, 8, 0xFE, 0xFF, 0xFF]);
}
