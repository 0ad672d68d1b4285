use l3gion_audio_codec::wav::chunk::data::WavDataChunk;
use l3gion_audio_codec::wav::chunk::fact::WavFactChunk;
use l3gion_audio_codec::wav::chunk::fmt::{WavFmtChunk, WavFormatType};
use l3gion_audio_codec::{Error, IoError, LgVecReader};

const PCM_BODY: [u8; 16] = [
    0x01, 0x00, 0x02, 0x00, 0x44, 0xAC, 0x00, 0x00, 0x10, 0xB1, 0x02, 0x00, 0x04, 0x00, 0x10, 0x00,
];

#[test]
fn fmt_chunk_reads_a_short_body_with_zero_tail() {
    let mut r = LgVecReader::new(PCM_BODY.to_vec());
    let c = WavFmtChunk::read_bytes(16, &mut r).unwrap();
    assert_eq!(c.ck_size, 16);
    assert_eq!(c.fmt_tag, WavFormatType::WAVE_FORMAT_PCM);
    assert_eq!(c.number_channels, 2);
    assert_eq!(c.samples_per_sec, 44100);
    assert_eq!(c.avg_bytes_per_sec, 176400);
    assert_eq!(c.block_align, 4);
    assert_eq!(c.bits_per_sample, 16);
    assert_eq!(c.cb_size, 0);
    assert_eq!(c.channel_mask, 0);
    assert_eq!(c.sub_format, 0);
    assert_eq!(r.cursor(), 16);
}

#[test]
fn fmt_chunk_writes_back_what_it_read() {
    let mut r = LgVecReader::new(PCM_BODY.to_vec());
    let c = WavFmtChunk::read_bytes(16, &mut r).unwrap();
    let mut expected = vec![16, 0, 0, 0];
    expected.extend_from_slice(&PCM_BODY);
    assert_eq!(c.to_bytes(), expected);
}

#[test]
fn fmt_chunk_extensible_fields() {
    let mut body = PCM_BODY.to_vec();
    body[0] = 0xFE;
    body[1] = 0xFF;
    body.extend_from_slice(&[22, 0, 16, 0, 3, 0, 0, 0]);
    body.extend_from_slice(&[0x01, 0x00, 0x00, 0x00, 0x00, 0x00, 0x10, 0x00, 0x80, 0x00, 0x00, 0xAA, 0x00, 0x38, 0x9B, 0x71]);
    let mut r = LgVecReader::new(body.clone());
    let c = WavFmtChunk::read_bytes(40, &mut r).unwrap();
    assert_eq!(c.fmt_tag, WavFormatType::WAVE_FORMAT_EXTENSIBLE);
    assert_eq!(c.cb_size, 22);
    assert_eq!(c.valid_bits_per_sample, 16);
    assert_eq!(c.channel_mask, 3);
    assert_eq!(c.sub_format, 0x719B3800AA000080_0010000000000001);
    let mut expected = vec![40, 0, 0, 0];
    expected.extend(body);
    assert_eq!(c.to_bytes(), expected);
}

#[test]
fn fmt_chunk_refusals() {
    let mut r = LgVecReader::new(PCM_BODY.to_vec());
    assert_eq!(WavFmtChunk::read_bytes(12, &mut r).unwrap_err(), Error::WrongFmt);
    assert_eq!(WavFmtChunk::read_bytes(14, &mut r).unwrap_err(), Error::WrongFmt);
    assert_eq!(WavFmtChunk::read_bytes(15, &mut r).unwrap_err(), Error::WrongFmt);
    assert_eq!(WavFmtChunk::read_bytes(41, &mut r).unwrap_err(), Error::WrongFmt);
    assert_eq!(WavFmtChunk::read_bytes(18, &mut r).unwrap_err(), Error::Io(IoError::UnexpectedEof));
    let mut body = PCM_BODY.to_vec();
    body[0] = 0x02;
    let mut r = LgVecReader::new(body);
    assert_eq!(WavFmtChunk::read_bytes(16, &mut r).unwrap_err(), Error::WrongFmt);
}

#[test]
fn format_type_codes() {
    assert_eq!(WavFormatType::from_code(0x0003), Some(WavFormatType::WAVE_FORMAT_IEEE_FLOAT));
    assert_eq!(WavFormatType::from_code(0x0002), None);
    assert_eq!(WavFormatType::WAVE_FORMAT_MULAW.code(), 0x0007);
}

#[test]
fn fact_chunk_reads_length_and_rest() {
    let mut r = LgVecReader::new(vec![0x10, 0x27, 0, 0, 7, 8, 9]);
    let c = WavFactChunk::read_bytes(6, &mut r).unwrap();
    assert_eq!(c.sample_length, 10000);
    assert_eq!(c.other, vec![7, 8]);
    assert_eq!(c.to_bytes(), vec![6, 0, 0, 0, 0x10, 0x27, 0, 0, 7, 8]);
}

#[test]
fn fact_chunk_needs_its_bytes() {
    let mut r = LgVecReader::new(vec![1, 0, 0]);
    assert_eq!(WavFactChunk::read_bytes(4, &mut r).unwrap_err(), Error::Io(IoError::UnexpectedEof));
    let short = WavFactChunk { ck_size: 2, sample_length: 5, other: vec![] };
    assert_eq!(short.to_bytes(), vec![2, 0, 0, 0, 5, 0]);
}

#[test]
fn data_chunk_steps_over_its_pad_byte() {
    let mut r = LgVecReader::new(vec![1, 2, 3, 0, 9]);
    let c = WavDataChunk::read_bytes(3, &mut r).unwrap();
    assert_eq!(c.data, vec![1, 2, 3]);
    assert_eq!(r.cursor(), 4);
    let mut r = LgVecReader::new(vec![1, 2]);
    assert_eq!(WavDataChunk::read_bytes(3, &mut r).unwrap_err(), Error::Io(IoError::UnexpectedEof));
}

use l3gion_audio_codec::wav::parser::LgWavRaw;

const S1_FILE: [u8; 48] = [
    0x52, 0x49, 0x46, 0x46, 0x28, 0x00, 0x00, 0x00, 0x57, 0x41, 0x56, 0x45, 0x66, 0x6d, 0x74, 0x20,
    0x10, 0x00, 0x00, 0x00, 0x01, 0x00, 0x01, 0x00, 0x44, 0xAC, 0x00, 0x00, 0x88, 0x58, 0x01, 0x00,
    0x02, 0x00, 0x10, 0x00, 0x64, 0x61, 0x74, 0x61, 0x04, 0x00, 0x00, 0x00, 0x00, 0x00, 0xFF, 0xFF,
];

#[test]
fn raw_file_reads_its_chunks() {
    let raw = LgWavRaw::parse(S1_FILE.to_vec()).unwrap();
    assert_eq!(raw.fmt.ck_size, 16);
    assert_eq!(raw.fmt.number_channels, 1);
    assert_eq!(raw.fmt.samples_per_sec, 44100);
    assert_eq!(raw.fmt.bits_per_sample, 16);
    assert!(raw.fact.is_none());
    assert_eq!(raw.data.ck_size, 4);
    assert_eq!(raw.data.data, vec![0, 0, 0xFF, 0xFF]);
}

#[test]
fn raw_file_writes_back_the_same_bytes() {
    let raw = LgWavRaw::parse(S1_FILE.to_vec()).unwrap();
    assert_eq!(raw.to_bytes(), S1_FILE.to_vec());
}

#[test]
fn raw_file_keeps_fact_and_skips_other_chunks() {
    let mut file = b"RIFF\0\0\0\0WAVE".to_vec();
    file.extend_from_slice(b"LIST\x03\0\0\0abc\0");
    file.extend_from_slice(b"fmt \x10\0\0\0");
    file.extend_from_slice(&S1_FILE[20..36]);
    file.extend_from_slice(b"fact\x04\0\0\0\x02\0\0\0");
    file.extend_from_slice(b"data\x02\0\0\0\x07\x00");
    let raw = LgWavRaw::parse(file).unwrap();
    let fact = raw.fact.as_ref().unwrap();
    assert_eq!(fact.sample_length, 2);
    assert_eq!(raw.data.data, vec![7, 0]);
    let out = raw.to_bytes();
    assert_eq!(&out[4..8], &[(out.len() - 8) as u8, 0, 0, 0]);
    assert_eq!(&out[36..40], b"fact");
}

#[test]
fn raw_file_refusals() {
    let mut bad = S1_FILE.to_vec();
    bad[8] = b'w';
    assert_eq!(LgWavRaw::parse(bad).unwrap_err(), Error::WrongHeader);
    assert_eq!(LgWavRaw::parse(S1_FILE[..10].to_vec()).unwrap_err(), Error::Io(IoError::UnexpectedEof));
    let mut no_fmt = b"RIFF\0\0\0\0WAVE".to_vec();
    no_fmt.extend_from_slice(b"data\x02\0\0\0\x07\x00");
    assert_eq!(LgWavRaw::parse(no_fmt).unwrap_err(), Error::WrongFmt);
    let new = LgWavRaw::new();
    assert!(new.fact.is_none());
    assert_eq!(new.data.ck_size, 0);
}

#[test]
fn chunk_writers_give_the_length_they_write() {
    let mut r = LgVecReader::new(PCM_BODY.to_vec());
    let mut c = WavFmtChunk::read_bytes(16, &mut r).unwrap();
    c.ck_size = 50;
    let b = c.to_bytes();
    assert_eq!(b.len(), 44);
    assert_eq!(&b[0..4], &[40, 0, 0, 0]);
    let fact = WavFactChunk { ck_size: 10, sample_length: 3, other: vec![] };
    assert_eq!(fact.to_bytes(), vec![4, 0, 0, 0, 3, 0, 0, 0]);
    let data = WavDataChunk { ck_size: 9, data: vec![1, 2, 3] };
    assert_eq!(data.to_bytes(), vec![3, 0, 0, 0, 1, 2, 3, 0]);
}

#[test]
fn raw_file_with_odd_fmt_chunk_pads_and_reads_back() {
    let mut file = b"RIFF\0\0\0\0WAVE".to_vec();
    file.extend_from_slice(b"fmt \x11\0\0\0");
    file.extend_from_slice(&PCM_BODY);
    file.extend_from_slice(&[0x2A, 0]);
    file.extend_from_slice(b"data\x02\0\0\0\x07\x00");
    let raw = LgWavRaw::parse(file).unwrap();
    assert_eq!(raw.fmt.ck_size, 17);
    assert_eq!(raw.fmt.cb_size, 0x2A);
    let out = raw.to_bytes();
    assert_eq!(out.len(), 12 + 8 + 17 + 1 + 8 + 2);
    assert_eq!(&out[4..8], &[(out.len() - 8) as u8, 0, 0, 0]);
    assert_eq!(out[37], 0);
    assert_eq!(&out[38..42], b"data");
    let again = LgWavRaw::parse(out).unwrap();
    assert_eq!(again.fmt.cb_size, 0x2A);
    assert_eq!(again.data.data, vec![7, 0]);
}
