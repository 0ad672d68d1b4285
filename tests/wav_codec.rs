use l3gion_audio_codec::wav::writer::LgWavWriter;
use l3gion_audio_codec::{
    Error, FmtIssue, IoError, LgWavDecoder, LgWavEncoder, RawSample, SampleType, WavFmt, WavFmtTag,
};

fn stream(format: WavFmtTag, channels: u16, sample_rate: u32, bits_per_sample: u16) -> WavFmt {
    WavFmt {
        format,
        channels,
        sample_rate,
        bits_per_sample,
        valid_bits_per_sample: 0,
        channel_mask: 0,
        sub_format: format,
    }
}

fn encode(fmt: WavFmt, xs: &[RawSample]) -> Vec<u8> {
    let mut enc = LgWavEncoder::new(fmt).unwrap();
    for x in xs {
        enc.encode_sample(*x).unwrap();
    }
    enc.finish();
    enc.into_bytes()
}

fn ints(xs: &[i32]) -> Vec<RawSample> {
    xs.iter().map(|x| RawSample::Int(*x)).collect()
}

fn le32(x: u32) -> [u8; 4] {
    x.to_le_bytes()
}

/// A file: header with the true RIFF size, then the given chunks.
fn file_of(chunks: &[(&[u8; 4], Vec<u8>)]) -> Vec<u8> {
    let mut body = b"WAVE".to_vec();
    for (id, payload) in chunks {
        body.extend_from_slice(*id);
        body.extend_from_slice(&le32(payload.len() as u32));
        body.extend_from_slice(payload);
        if payload.len() % 2 == 1 {
            body.push(0);
        }
    }
    let mut out = b"RIFF".to_vec();
    out.extend_from_slice(&le32(body.len() as u32));
    out.extend(body);
    out
}

fn fmt_payload(tag: u16, channels: u16, rate: u32, bits: u16) -> Vec<u8> {
    let mut p = Vec::new();
    p.extend_from_slice(&tag.to_le_bytes());
    p.extend_from_slice(&channels.to_le_bytes());
    p.extend_from_slice(&rate.to_le_bytes());
    p.extend_from_slice(&(rate * channels as u32 * (bits / 8) as u32).to_le_bytes());
    p.extend_from_slice(&(channels * (bits / 8)).to_le_bytes());
    p.extend_from_slice(&bits.to_le_bytes());
    p
}

const S1: [u8; 48] = [
    0x52, 0x49, 0x46, 0x46, 0x28, 0x00, 0x00, 0x00, 0x57, 0x41, 0x56, 0x45, 0x66, 0x6d, 0x74, 0x20,
    0x10, 0x00, 0x00, 0x00, 0x01, 0x00, 0x01, 0x00, 0x44, 0xAC, 0x00, 0x00, 0x88, 0x58, 0x01, 0x00,
    0x02, 0x00, 0x10, 0x00, 0x64, 0x61, 0x74, 0x61, 0x04, 0x00, 0x00, 0x00, 0x00, 0x00, 0xFF, 0xFF,
];

#[test]
fn encode_two_16_bit_mono_samples() {
    let fmt = stream(WavFmtTag::WAVE_FORMAT_PCM, 1, 44100, 16);
    assert_eq!(encode(fmt, &ints(&[0, -1])), S1.to_vec());
}

#[test]
fn decode_two_16_bit_mono_samples() {
    let mut dec = LgWavDecoder::new(S1.to_vec()).unwrap();
    let info = dec.info();
    assert_eq!(info.format, WavFmtTag::WAVE_FORMAT_PCM);
    assert_eq!(info.channels, 1);
    assert_eq!(info.sample_rate, 44100);
    assert_eq!(info.bits_per_sample, 16);
    assert_eq!(dec.len(), 2);
    assert_eq!(dec.samples(), ints(&[0, -1]));
}

#[test]
fn eight_bit_zero_is_stored_as_128() {
    let fmt = stream(WavFmtTag::WAVE_FORMAT_PCM, 1, 8000, 8);
    let bytes = encode(fmt, &ints(&[0]));
    assert_eq!(bytes.len(), 45);
    assert_eq!(bytes[44], 0x80);
    let mut dec = LgWavDecoder::new(bytes).unwrap();
    assert_eq!(dec.samples(), ints(&[0]));
}

#[test]
fn eight_bit_extremes_round_trip() {
    let fmt = stream(WavFmtTag::WAVE_FORMAT_PCM, 1, 8000, 8);
    let bytes = encode(fmt, &ints(&[-128, 127, -1]));
    assert_eq!(&bytes[44..], &[0x00, 0xFF, 0x7F]);
    let mut dec = LgWavDecoder::new(bytes).unwrap();
    assert_eq!(dec.samples(), ints(&[-128, 127, -1]));
}

#[test]
fn twenty_four_bit_extremes() {
    let fmt = stream(WavFmtTag::WAVE_FORMAT_PCM, 1, 44100, 24);
    let bytes = encode(fmt, &ints(&[8_388_607]));
    assert_eq!(&bytes[bytes.len() - 3..], &[0xFF, 0xFF, 0x7F]);
    let mut dec = LgWavDecoder::new(bytes).unwrap();
    assert_eq!(dec.samples(), ints(&[8_388_607]));

    let bytes = encode(fmt, &ints(&[-8_388_608]));
    assert_eq!(&bytes[bytes.len() - 3..], &[0x00, 0x00, 0x80]);
    let mut dec = LgWavDecoder::new(bytes).unwrap();
    assert_eq!(dec.samples(), ints(&[-8_388_608]));
}

#[test]
fn twenty_four_bit_values_are_clamped() {
    let fmt = stream(WavFmtTag::WAVE_FORMAT_PCM, 1, 44100, 24);
    let bytes = encode(fmt, &ints(&[9_000_000, -9_000_000]));
    assert_eq!(&bytes[bytes.len() - 6..], &[0xFF, 0xFF, 0x7F, 0x00, 0x00, 0x80]);
}

#[test]
fn thirty_two_bit_stereo_uses_extensible_layout() {
    let fmt = stream(WavFmtTag::WAVE_FORMAT_PCM, 2, 48000, 32);
    let bytes = encode(fmt, &ints(&[1, -2]));
    assert_eq!(&bytes[12..16], b"fmt ");
    assert_eq!(&bytes[16..20], &[40, 0, 0, 0]);
    assert_eq!(&bytes[20..22], &[0xFE, 0xFF]);
    assert_eq!(&bytes[36..38], &[22, 0]);
    assert_eq!(&bytes[38..40], &[32, 0]);
    assert_eq!(&bytes[40..44], &[2, 0, 0, 0]);
    assert_eq!(
        &bytes[44..60],
        &[0x01, 0x00, 0x00, 0x00, 0x00, 0x00, 0x10, 0x00, 0x80, 0x00, 0x00, 0xAA, 0x00, 0x38, 0x9B, 0x71]
    );
    let mut dec = LgWavDecoder::new(bytes).unwrap();
    let info = dec.info();
    assert_eq!(info.format, WavFmtTag::WAVE_FORMAT_EXTENSIBLE);
    assert_eq!(info.sub_format, WavFmtTag::WAVE_FORMAT_PCM);
    assert_eq!(info.bits_per_sample, 32);
    assert_eq!(info.valid_bits_per_sample, 32);
    assert_eq!(info.channel_mask, 2);
    assert_eq!(dec.samples(), ints(&[1, -2]));
}

#[test]
fn alaw_is_unsupported() {
    let file = file_of(&[(b"fmt ", fmt_payload(0x0006, 1, 8000, 8)), (b"data", vec![1, 2])]);
    assert_eq!(LgWavDecoder::new(file).unwrap_err(), Error::Unsupported);
    let file = file_of(&[(b"fmt ", fmt_payload(0x0007, 1, 8000, 8)), (b"data", vec![1, 2])]);
    assert_eq!(LgWavDecoder::new(file).unwrap_err(), Error::Unsupported);
}

#[test]
fn missing_riff_or_wave_is_a_wrong_header() {
    let mut bad = S1.to_vec();
    bad[0] = b'X';
    assert_eq!(LgWavDecoder::new(bad).unwrap_err(), Error::WrongHeader);
    let mut bad = S1.to_vec();
    bad[11] = b'X';
    assert_eq!(LgWavDecoder::new(bad).unwrap_err(), Error::WrongHeader);
}

#[test]
fn short_source_is_an_unexpected_eof() {
    assert_eq!(LgWavDecoder::new(b"RIFF".to_vec()).unwrap_err(), Error::Io(IoError::UnexpectedEof));
    assert_eq!(LgWavDecoder::new(Vec::new()).unwrap_err(), Error::Io(IoError::UnexpectedEof));
}

#[test]
fn data_before_fmt_is_wrong_fmt() {
    let file = file_of(&[(b"LIST", vec![1, 2, 3]), (b"data", vec![0, 0])]);
    assert_eq!(LgWavDecoder::new(file).unwrap_err(), Error::WrongFmt);
}

#[test]
fn zero_channels_or_odd_bits_is_wrong_fmt_info() {
    let file = file_of(&[(b"fmt ", fmt_payload(1, 0, 8000, 16)), (b"data", vec![0, 0])]);
    assert_eq!(LgWavDecoder::new(file).unwrap_err(), Error::WrongFmtInfo(FmtIssue::NoChannels));
    let file = file_of(&[(b"fmt ", fmt_payload(1, 1, 8000, 12)), (b"data", vec![0, 0])]);
    assert_eq!(
        LgWavDecoder::new(file).unwrap_err(),
        Error::WrongFmtInfo(FmtIssue::BitsNotByteMultiple)
    );
}

#[test]
fn fmt_chunk_sizes_out_of_range_are_wrong_fmt() {
    let mut payload = fmt_payload(1, 1, 8000, 16);
    payload.truncate(14);
    let file = file_of(&[(b"fmt ", payload), (b"data", vec![0, 0])]);
    assert_eq!(LgWavDecoder::new(file).unwrap_err(), Error::WrongFmt);
}

#[test]
fn float_fmt_rules() {
    let mut payload = fmt_payload(3, 1, 8000, 32);
    payload.extend_from_slice(&[1, 0]);
    let file = file_of(&[(b"fmt ", payload), (b"data", vec![0, 0, 0, 0])]);
    assert_eq!(LgWavDecoder::new(file).unwrap_err(), Error::WrongFmtInfo(FmtIssue::FloatCbSize));
    let file = file_of(&[(b"fmt ", fmt_payload(3, 1, 8000, 32)), (b"data", vec![0, 0, 0, 0])]);
    assert_eq!(LgWavDecoder::new(file).unwrap_err(), Error::WrongFmtInfo(FmtIssue::FloatChunkSize));
}

#[test]
fn pcm_with_cb_size_and_32_bits_is_refused() {
    let mut payload = fmt_payload(1, 1, 8000, 32);
    payload.extend_from_slice(&[0, 0]);
    let file = file_of(&[(b"fmt ", payload), (b"data", vec![0, 0, 0, 0])]);
    assert_eq!(LgWavDecoder::new(file).unwrap_err(), Error::WrongFmtInfo(FmtIssue::PcmBitsPerSample));
}

#[test]
fn extensible_with_float_guid_decodes_as_float() {
    let mut payload = fmt_payload(0xFFFE, 1, 8000, 32);
    payload.extend_from_slice(&[22, 0, 32, 0, 4, 0, 0, 0]);
    payload.extend_from_slice(&[0x03, 0x00, 0x00, 0x00, 0x00, 0x00, 0x10, 0x00, 0x80, 0x00, 0x00, 0xAA, 0x00, 0x38, 0x9B, 0x71]);
    let file = file_of(&[(b"fmt ", payload), (b"data", 1.5f32.to_le_bytes().to_vec())]);
    let mut dec = LgWavDecoder::new(file).unwrap();
    assert_eq!(dec.info().sub_format, WavFmtTag::WAVE_FORMAT_IEEE_FLOAT);
    assert_eq!(dec.info().sample_type(), SampleType::FLOAT);
    assert_eq!(dec.info().channel_mask, 4);
    assert_eq!(dec.samples(), vec![RawSample::Float32(1.5f32.to_bits())]);
}

#[test]
fn extensible_with_unknown_guid_is_unsupported() {
    let mut payload = fmt_payload(0xFFFE, 1, 8000, 16);
    payload.extend_from_slice(&[22, 0, 16, 0, 4, 0, 0, 0]);
    payload.extend_from_slice(&[0x02, 0x00, 0x00, 0x00, 0x00, 0x00, 0x10, 0x00, 0x80, 0x00, 0x00, 0xAA, 0x00, 0x38, 0x9B, 0x71]);
    let file = file_of(&[(b"fmt ", payload), (b"data", vec![0, 0])]);
    assert_eq!(LgWavDecoder::new(file).unwrap_err(), Error::Unsupported);
}

#[test]
fn unknown_chunks_are_skipped_with_their_pad_byte() {
    let file = file_of(&[
        (b"LIST", vec![9, 9, 9]),
        (b"fmt ", fmt_payload(1, 1, 8000, 16)),
        (b"fact", vec![2, 0, 0, 0]),
        (b"data", vec![0x34, 0x12, 0xFF, 0x7F]),
    ]);
    let mut dec = LgWavDecoder::new(file).unwrap();
    assert_eq!(dec.samples(), ints(&[0x1234, 0x7FFF]));
}

#[test]
fn sample_count_is_data_size_over_sample_bytes() {
    let file = file_of(&[(b"fmt ", fmt_payload(1, 2, 10, 24)), (b"data", vec![0; 61])]);
    let dec = LgWavDecoder::new(file).unwrap();
    assert_eq!(dec.len(), 20);
    assert_eq!(dec.duration(), 1);
}

#[test]
fn samples_stop_at_a_partial_sample_and_at_the_end_of_data() {
    let file = file_of(&[
        (b"fmt ", fmt_payload(1, 1, 8000, 16)),
        (b"data", vec![1, 0, 2, 0, 3]),
        (b"LIST", vec![4, 0, 5, 0]),
    ]);
    let mut dec = LgWavDecoder::new(file).unwrap();
    assert_eq!(dec.next_sample(), Some(RawSample::Int(1)));
    assert_eq!(dec.samples(), ints(&[2]));
    assert_eq!(dec.next_sample(), None);
}

#[test]
fn finish_writes_both_sizes() {
    let fmt = stream(WavFmtTag::WAVE_FORMAT_PCM, 1, 8000, 16);
    let mut w = LgWavWriter::new(&fmt).unwrap();
    for x in [1, 2, 3] {
        w.write_sample(RawSample::Int(x), SampleType::INT, 16).unwrap();
    }
    w.finish();
    let bytes = w.into_inner().into_inner();
    assert_eq!(&bytes[4..8], &le32(6 + 40 - 4));
    assert_eq!(&bytes[40..44], &le32(6));
    assert_eq!(bytes.len(), 50);
}

#[test]
fn release_without_finish_still_writes_both_sizes() {
    let fmt = stream(WavFmtTag::WAVE_FORMAT_IEEE_FLOAT, 2, 8000, 64);
    let mut enc = LgWavEncoder::new(fmt).unwrap();
    enc.encode_sample(RawSample::Float64(0.25f64.to_bits())).unwrap();
    let bytes = enc.into_bytes();
    assert_eq!(&bytes[4..8], &le32(8 + 42 - 4));
    assert_eq!(&bytes[42..46], &le32(8));
    let mut dec = LgWavDecoder::new(bytes).unwrap();
    assert_eq!(dec.samples(), vec![RawSample::Float64(0.25f64.to_bits())]);
}

#[test]
fn flush_keeps_the_stream_open() {
    let fmt = stream(WavFmtTag::WAVE_FORMAT_PCM, 1, 8000, 8);
    let mut enc = LgWavEncoder::new(fmt).unwrap();
    enc.encode_sample(RawSample::Int(5)).unwrap();
    enc.flush();
    enc.encode_sample(RawSample::Int(6)).unwrap();
    assert_eq!(enc.encoded_samples(), 2);
    let mut dec = LgWavDecoder::new(enc.into_bytes()).unwrap();
    assert_eq!(dec.samples(), ints(&[5, 6]));
}

#[test]
fn float_round_trip_is_bit_exact() {
    let fmt = stream(WavFmtTag::WAVE_FORMAT_IEEE_FLOAT, 1, 22050, 32);
    let xs: Vec<RawSample> = [0.5f32, -1.0, 0.0].iter().map(|f| RawSample::Float32(f.to_bits())).collect();
    let bytes = encode(fmt, &xs);
    assert_eq!(&bytes[16..20], &le32(18));
    assert_eq!(&bytes[20..22], &[3, 0]);
    let mut dec = LgWavDecoder::new(bytes).unwrap();
    assert_eq!(dec.info().sample_type(), SampleType::FLOAT);
    assert_eq!(dec.samples(), xs);
}

#[test]
fn wrong_sample_kind_is_a_conversion_error() {
    let fmt = stream(WavFmtTag::WAVE_FORMAT_IEEE_FLOAT, 1, 22050, 32);
    let mut enc = LgWavEncoder::new(fmt).unwrap();
    assert_eq!(
        enc.encode_sample(RawSample::Int(3)).unwrap_err(),
        Error::Conversion { sample_type: SampleType::FLOAT, bits_per_sample: 32 }
    );
    assert_eq!(
        enc.encode_sample(RawSample::Float64(0)).unwrap_err(),
        Error::Conversion { sample_type: SampleType::FLOAT, bits_per_sample: 32 }
    );
}

#[test]
fn encoder_refuses_streams_it_cannot_write() {
    let err = |f: WavFmt| LgWavEncoder::new(f).err().unwrap();
    assert_eq!(err(stream(WavFmtTag::WAVE_FORMAT_ALAW, 1, 8000, 8)), Error::WrongFmtInfo(FmtIssue::EncoderFormat));
    assert_eq!(err(stream(WavFmtTag::WAVE_FORMAT_EXTENSIBLE, 1, 8000, 16)), Error::WrongFmtInfo(FmtIssue::EncoderFormat));
    assert_eq!(err(stream(WavFmtTag::WAVE_FORMAT_PCM, 0, 8000, 16)), Error::WrongFmtInfo(FmtIssue::NoChannels));
    assert_eq!(err(stream(WavFmtTag::WAVE_FORMAT_PCM, 1, 8000, 12)), Error::WrongFmtInfo(FmtIssue::FormatBitsPerSample));
    assert_eq!(err(stream(WavFmtTag::WAVE_FORMAT_IEEE_FLOAT, 1, 8000, 16)), Error::WrongFmtInfo(FmtIssue::FormatBitsPerSample));
    assert_eq!(err(stream(WavFmtTag::WAVE_FORMAT_PCM, 1, 0, 16)), Error::WrongFmtInfo(FmtIssue::SampleRate));
    assert_eq!(err(stream(WavFmtTag::WAVE_FORMAT_PCM, 65535, u32::MAX, 32)), Error::WrongFmtInfo(FmtIssue::ByteRate));
}

#[test]
fn many_channels_cap_the_channel_mask() {
    let fmt = stream(WavFmtTag::WAVE_FORMAT_PCM, 20, 8000, 16);
    let bytes = encode(fmt, &[]);
    assert_eq!(&bytes[40..44], &[18, 0, 0, 0]);
    assert_eq!(&bytes[32..34], &le32(40)[..2]);
}

#[test]
fn budget_from_riff_size_limits_reads() {
    let mut file = file_of(&[(b"fmt ", fmt_payload(1, 1, 8000, 16)), (b"data", vec![1, 0, 2, 0])]);
    // Declare two bytes fewer than the file holds: the last sample is beyond the budget's slack.
    let declared = (file.len() - 8 - 2) as u32;
    file[4..8].copy_from_slice(&le32(declared));
    let mut dec = LgWavDecoder::new(file).unwrap();
    assert_eq!(dec.samples(), ints(&[1]));
}

#[test]
fn encode_samples_stops_at_the_first_failure() {
    let fmt = stream(WavFmtTag::WAVE_FORMAT_IEEE_FLOAT, 1, 8000, 32);
    let mut enc = LgWavEncoder::new(fmt).unwrap();
    let xs = vec![RawSample::Float32(1.0f32.to_bits()), RawSample::Int(4), RawSample::Float32(0)];
    assert_eq!(
        enc.encode_samples(&xs).unwrap_err(),
        Error::Conversion { sample_type: SampleType::FLOAT, bits_per_sample: 32 }
    );
    assert_eq!(enc.encoded_samples(), 1);
    let ok = vec![RawSample::Float32(0), RawSample::Float32(2.0f32.to_bits())];
    assert!(enc.encode_samples(&ok).is_ok());
    assert_eq!(enc.encoded_samples(), 3);
}

#[test]
fn zero_length_read_is_empty() {
    let mut r = l3gion_audio_codec::wav::reader::LgWavReader::new(S1.to_vec()).unwrap();
    assert_eq!(r.read_next_bytes(0).unwrap(), &[] as &[u8]);
    assert_eq!(r.read_le_u32().unwrap(), u32::from_le_bytes(*b"fmt "));
}
