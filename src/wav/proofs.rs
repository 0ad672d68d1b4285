//! What holds of the decoder and the encoder together, and of the files the
//! decoder refuses.
use vstd::prelude::*;
use crate::bytes::{le16, le32, lemma_u16_round_trip, lemma_u32_round_trip, u16_of, u32_of};
use crate::error::{Error, FmtIssue};
use crate::sample::{bytes_of, data_of, exact_at, lemma_sample_round_trip, RawSample, SampleType};
use super::chunk::WavChunks;
use super::decoder::{decoded, samples_from};
use super::reader::{
    data_id, fits, fmt_body, fmt_id, header, next_chunk, parse_wav, riff_id, scan, wave_id,
};
use super::writer::{
    channel_mask_of, common_fields, encoder_sample_type, fmt_chunk_bytes, pcm_guid, size_position,
    stream_check, uses_extensible, wav_file,
};
use super::{sample_type_of, tag_of, WavFmt, WavFmtTag};

verus! {

/// The stream a decoder reads back from the `fmt ` chunk an encoder wrote
/// for `fmt`.
pub open spec fn written_stream(fmt: WavFmt) -> WavFmt {
    if fmt.format == WavFmtTag::WAVE_FORMAT_IEEE_FLOAT {
        WavFmt {
            format: WavFmtTag::WAVE_FORMAT_IEEE_FLOAT,
            channels: fmt.channels,
            sample_rate: fmt.sample_rate,
            bits_per_sample: fmt.bits_per_sample,
            valid_bits_per_sample: 0,
            channel_mask: 0,
            sub_format: WavFmtTag::WAVE_FORMAT_IEEE_FLOAT,
        }
    } else if uses_extensible(fmt) {
        WavFmt {
            format: WavFmtTag::WAVE_FORMAT_EXTENSIBLE,
            channels: fmt.channels,
            sample_rate: fmt.sample_rate,
            bits_per_sample: fmt.bits_per_sample,
            valid_bits_per_sample: fmt.bits_per_sample,
            channel_mask: channel_mask_of(fmt),
            sub_format: WavFmtTag::WAVE_FORMAT_PCM,
        }
    } else {
        WavFmt {
            format: WavFmtTag::WAVE_FORMAT_PCM,
            channels: fmt.channels,
            sample_rate: fmt.sample_rate,
            bits_per_sample: fmt.bits_per_sample,
            valid_bits_per_sample: 0,
            channel_mask: 0,
            sub_format: WavFmtTag::WAVE_FORMAT_PCM,
        }
    }
}

/// The data bytes of samples that a width holds exactly come one sample after
/// another from the front.
proof fn lemma_data_of_front(st: SampleType, bits: u16, xs: Seq<RawSample>)
    requires
        xs.len() > 0,
    ensures
        data_of(st, bits, xs) == bytes_of(st, bits, xs[0]) + data_of(st, bits, xs.drop_first()),
    decreases xs.len(),
{
    if xs.len() == 1 {
        assert(xs.drop_last() =~= Seq::<RawSample>::empty());
        assert(xs.drop_first() =~= Seq::<RawSample>::empty());
        assert(data_of(st, bits, xs) =~= bytes_of(st, bits, xs[0]) + data_of(st, bits, xs.drop_first()));
    } else {
        lemma_data_of_front(st, bits, xs.drop_last());
        assert(xs.drop_last().drop_first() =~= xs.drop_first().drop_last());
        assert(xs.drop_first().last() == xs.last());
        assert(data_of(st, bits, xs) =~= bytes_of(st, bits, xs[0]) + data_of(st, bits, xs.drop_first()));
    }
}

/// Samples held exactly take `bits / 8` bytes each.
proof fn lemma_data_of_len(st: SampleType, bits: u16, xs: Seq<RawSample>)
    requires
        forall|i: int| 0 <= i < xs.len() ==> exact_at(st, bits, #[trigger] xs[i]),
    ensures
        data_of(st, bits, xs).len() == xs.len() * (bits / 8),
    decreases xs.len(),
{
    if xs.len() > 0 {
        lemma_data_of_len(st, bits, xs.drop_last());
        lemma_sample_round_trip(st, bits, xs.last());
        assert(data_of(st, bits, xs).len() == (xs.len() - 1) * (bits / 8) + bits / 8);
        assert((xs.len() - 1) * (bits / 8) + bits / 8 == xs.len() * (bits / 8)) by (nonlinear_arith);
    }
}

/// Reading back the data bytes of samples held exactly gives the samples.
proof fn lemma_samples_back(s: Seq<u8>, m: u64, p: int, st: SampleType, bits: u16, xs: Seq<RawSample>)
    requires
        forall|i: int| 0 <= i < xs.len() ==> exact_at(st, bits, #[trigger] xs[i]),
        0 <= p,
        fits(s, m, p, data_of(st, bits, xs).len() as int),
        s.subrange(p, p + data_of(st, bits, xs).len() as int) == data_of(st, bits, xs),
    ensures
        samples_from(s, m, p, data_of(st, bits, xs).len() as int, st, bits) == xs,
    decreases xs.len(),
{
    let data = data_of(st, bits, xs);
    if xs.len() == 0 {
        assert(xs =~= Seq::<RawSample>::empty());
    } else {
        lemma_data_of_front(st, bits, xs);
        lemma_sample_round_trip(st, bits, xs[0]);
        let k = bits / 8;
        let rest = xs.drop_first();
        assert forall|i: int| 0 <= i < rest.len() implies exact_at(st, bits, #[trigger] rest[i]) by {
            assert(rest[i] == xs[i + 1]);
        }
        assert(s.subrange(p, p + k) =~= data.subrange(0, k as int));
        assert(data.subrange(0, k as int) =~= bytes_of(st, bits, xs[0]));
        assert(data.subrange(k as int, data.len() as int) =~= data_of(st, bits, rest));
        assert(s.subrange(p + k, p + k + data_of(st, bits, rest).len() as int) =~= data.subrange(
            k as int,
            data.len() as int,
        ));
        lemma_samples_back(s, m, p + k, st, bits, rest);
        assert(samples_from(s, m, p, data.len() as int, st, bits) =~= seq![xs[0]] + rest);
        assert(seq![xs[0]] + rest =~= xs);
    }
}

/// A run inside a run that a sequence holds at `off`.
proof fn lemma_sub(s: Seq<u8>, t: Seq<u8>, off: int, a: int, b: int)
    requires
        0 <= off,
        off + t.len() <= s.len(),
        s.subrange(off, off + t.len() as int) == t,
        0 <= a <= b <= t.len(),
    ensures
        s.subrange(off + a, off + b) == t.subrange(a, b),
{
    assert(s.subrange(off + a, off + b) =~= t.subrange(a, b));
}

/// Where the fields stand in the shared part of the `fmt ` chunk.
proof fn lemma_common_fields(fmt: WavFmt)
    ensures
        common_fields(fmt).len() == 14,
        common_fields(fmt).subrange(0, 2) == le16(fmt.channels),
        common_fields(fmt).subrange(2, 6) == le32(fmt.sample_rate),
        common_fields(fmt).subrange(12, 14) == le16(fmt.bits_per_sample),
{
    let c = common_fields(fmt);
    assert(c.subrange(0, 2) =~= le16(fmt.channels));
    assert(c.subrange(2, 6) =~= le32(fmt.sample_rate));
    assert(c.subrange(12, 14) =~= le16(fmt.bits_per_sample));
}

/// Where the fields stand in the `fmt ` chunk an encoder writes: the id, the
/// size and the tag, the shared part, and what follows it.
proof fn lemma_fmt_chunk_fields(fmt: WavFmt)
    ensures
        ({
            let fc = fmt_chunk_bytes(fmt);
            let ck: u32 = if fmt.format == WavFmtTag::WAVE_FORMAT_IEEE_FLOAT {
                18
            } else if uses_extensible(fmt) {
                40
            } else {
                16
            };
            let code: u16 = if fmt.format == WavFmtTag::WAVE_FORMAT_IEEE_FLOAT {
                3
            } else if uses_extensible(fmt) {
                0xFFFE
            } else {
                1
            };
            &&& fc.len() == 8 + ck
            &&& fc.subrange(0, 4) == fmt_id()
            &&& fc.subrange(4, 8) == le32(ck)
            &&& fc.subrange(8, 10) == le16(code)
            &&& fc.subrange(10, 24) == common_fields(fmt)
            &&& fmt.format == WavFmtTag::WAVE_FORMAT_IEEE_FLOAT ==> fc.subrange(24, 26) == le16(0)
            &&& (fmt.format != WavFmtTag::WAVE_FORMAT_IEEE_FLOAT && uses_extensible(fmt)) ==> {
                &&& fc.subrange(24, 26) == le16(22)
                &&& fc.subrange(26, 28) == le16(fmt.bits_per_sample)
                &&& fc.subrange(28, 32) == le32(channel_mask_of(fmt))
                &&& fc.subrange(32, 48) == pcm_guid()
            }
        }),
{
    let fc = fmt_chunk_bytes(fmt);
    lemma_common_fields(fmt);
    assert(fc.subrange(0, 4) =~= fmt_id());
    if fmt.format == WavFmtTag::WAVE_FORMAT_IEEE_FLOAT {
        assert(fc.subrange(4, 8) =~= le32(18));
        assert(fc.subrange(8, 10) =~= le16(3));
        assert(fc.subrange(10, 24) =~= common_fields(fmt));
        assert(fc.subrange(24, 26) =~= le16(0));
    } else if uses_extensible(fmt) {
        assert(fc.subrange(4, 8) =~= le32(40));
        assert(fc.subrange(8, 10) =~= le16(0xFFFE));
        assert(fc.subrange(10, 24) =~= common_fields(fmt));
        assert(fc.subrange(24, 26) =~= le16(22));
        assert(fc.subrange(26, 28) =~= le16(fmt.bits_per_sample));
        assert(fc.subrange(28, 32) =~= le32(channel_mask_of(fmt)));
        assert(fc.subrange(32, 48) =~= pcm_guid());
    } else {
        assert(fc.subrange(4, 8) =~= le32(16));
        assert(fc.subrange(8, 10) =~= le16(1));
        assert(fc.subrange(10, 24) =~= common_fields(fmt));
    }
}

/// The `fmt ` chunk an encoder writes parses back as `written_stream`.
proof fn lemma_fmt_chunk_back(s: Seq<u8>, m: u64, fmt: WavFmt)
    requires
        stream_check(fmt) is Ok,
        fits(s, m, 12, fmt_chunk_bytes(fmt).len() as int),
        s.subrange(12, 12 + fmt_chunk_bytes(fmt).len() as int) == fmt_chunk_bytes(fmt),
    ensures
        next_chunk(s, m, 12) == Ok::<(WavChunks, int), Error>(
            (WavChunks::FMT(written_stream(fmt)), 12 + fmt_chunk_bytes(fmt).len() as int),
        ),
{
    let fc = fmt_chunk_bytes(fmt);
    let c = common_fields(fmt);
    lemma_fmt_chunk_fields(fmt);
    lemma_common_fields(fmt);
    lemma_sub(s, fc, 12, 0, 4);
    lemma_sub(s, fc, 12, 4, 8);
    lemma_sub(s, fc, 12, 8, 10);
    lemma_sub(s, fc, 12, 10, 24);
    lemma_sub(s, c, 22, 0, 2);
    lemma_sub(s, c, 22, 2, 6);
    lemma_sub(s, c, 22, 12, 14);
    lemma_u16_round_trip(fmt.channels);
    lemma_u32_round_trip(fmt.sample_rate);
    lemma_u16_round_trip(fmt.bits_per_sample);
    if fmt.format == WavFmtTag::WAVE_FORMAT_IEEE_FLOAT {
        lemma_sub(s, fc, 12, 24, 26);
        lemma_u32_round_trip(18);
        lemma_u16_round_trip(3);
        lemma_u16_round_trip(0);
    } else if uses_extensible(fmt) {
        lemma_sub(s, fc, 12, 24, 26);
        lemma_sub(s, fc, 12, 26, 28);
        lemma_sub(s, fc, 12, 28, 32);
        lemma_sub(s, fc, 12, 32, 48);
        let g = pcm_guid();
        assert(g.subrange(0, 2) =~= le16(1));
        assert(g.subrange(2, 16) =~= super::reader::guid_tail());
        lemma_u32_round_trip(40);
        lemma_u16_round_trip(0xFFFE);
        lemma_u16_round_trip(22);
        lemma_u16_round_trip(1);
        lemma_u32_round_trip(channel_mask_of(fmt));
    } else {
        lemma_u32_round_trip(16);
        lemma_u16_round_trip(1);
    }
}

/// Decoding the file that an encoder writes for a stream it takes and for
/// samples that the stream's width holds exactly gives back the stream and
/// every sample: integers unchanged at every bit depth, and float samples bit
/// for bit.
pub proof fn lemma_round_trip(fmt: WavFmt, xs: Seq<RawSample>)
    requires
        stream_check(fmt) is Ok,
        forall|i: int| 0 <= i < xs.len() ==> exact_at(encoder_sample_type(fmt), fmt.bits_per_sample, #[trigger] xs[i]),
        data_of(encoder_sample_type(fmt), fmt.bits_per_sample, xs).len() + size_position(fmt) - 4 <= u32::MAX,
    ensures
        ({
            let data = data_of(encoder_sample_type(fmt), fmt.bits_per_sample, xs);
            let file = wav_file(fmt, data);
            &&& parse_wav(file) == Ok::<(WavFmt, u32, int), Error>(
                (written_stream(fmt), data.len() as u32, size_position(fmt) + 4),
            )
            &&& written_stream(fmt).channels == fmt.channels
            &&& written_stream(fmt).sample_rate == fmt.sample_rate
            &&& written_stream(fmt).bits_per_sample == fmt.bits_per_sample
            &&& sample_type_of(written_stream(fmt)) == encoder_sample_type(fmt)
            &&& decoded(file) == xs
        }),
{
    let st = encoder_sample_type(fmt);
    let bits = fmt.bits_per_sample;
    let data = data_of(st, bits, xs);
    let file = wav_file(fmt, data);
    let pos = size_position(fmt);
    let m = lemma_file_start(fmt, data);
    lemma_file_data(fmt, data);
    lemma_file_layout(fmt, data);
    let w = written_stream(fmt);
    assert(sample_type_of(w) == st && w.bits_per_sample == bits);
    assert(fits(file, m, pos + 4, data.len() as int));
    lemma_samples_back(file, m, pos + 4, st, bits, xs);
    assert(decoded(file) == samples_from(file, m, pos + 4, data.len() as int, st, bits));
}

/// Where the pieces of a finished file stand.
proof fn lemma_file_layout(fmt: WavFmt, data: Seq<u8>)
    requires
        data.len() + size_position(fmt) - 4 <= u32::MAX,
    ensures
        ({
            let file = wav_file(fmt, data);
            let fc = fmt_chunk_bytes(fmt);
            let pos = size_position(fmt);
            let q = 12 + fc.len() as int;
            &&& pos == q + 4
            &&& file.len() == pos + 4 + data.len()
            &&& file.subrange(0, 4) == riff_id()
            &&& file.subrange(4, 8) == le32((data.len() + pos - 4) as u32)
            &&& file.subrange(8, 12) == wave_id()
            &&& file.subrange(12, q) == fc
            &&& file.subrange(q, q + 4) == data_id()
            &&& file.subrange(q + 4, q + 8) == le32(data.len() as u32)
            &&& file.subrange(pos + 4, pos + 4 + data.len() as int) == data
        }),
{
    let file = wav_file(fmt, data);
    let fc = fmt_chunk_bytes(fmt);
    let pos = size_position(fmt);
    let q = 12 + fc.len() as int;
    assert(file.subrange(0, 4) =~= riff_id());
    assert(file.subrange(4, 8) =~= le32((data.len() + pos - 4) as u32));
    assert(file.subrange(8, 12) =~= wave_id());
    assert(file.subrange(12, q) =~= fc);
    assert(file.subrange(q, q + 4) =~= data_id());
    assert(file.subrange(q + 4, q + 8) =~= le32(data.len() as u32));
    assert(file.subrange(pos + 4, pos + 4 + data.len() as int) =~= data);
}

/// A finished file opens with a header whose budget is its length less 12,
/// and its `fmt ` chunk parses back as `written_stream`.
proof fn lemma_file_start(fmt: WavFmt, data: Seq<u8>) -> (m: u64)
    requires
        stream_check(fmt) is Ok,
        data.len() + size_position(fmt) - 4 <= u32::MAX,
    ensures
        header(wav_file(fmt, data)) == Ok::<u64, Error>(m),
        m + 12 == wav_file(fmt, data).len(),
        next_chunk(wav_file(fmt, data), m, 12) == Ok::<(WavChunks, int), Error>(
            (WavChunks::FMT(written_stream(fmt)), 12 + fmt_chunk_bytes(fmt).len() as int),
        ),
{
    let file = wav_file(fmt, data);
    let pos = size_position(fmt);
    let riff = (data.len() + pos - 4) as u32;
    lemma_file_layout(fmt, data);
    lemma_u32_round_trip(riff);
    lemma_fmt_chunk_fields(fmt);
    let m = (riff - 4) as u64;
    assert(header(file) == Ok::<u64, Error>(m));
    lemma_fmt_chunk_back(file, m, fmt);
    m
}

/// After its `fmt ` chunk a finished file holds the header of its data chunk,
/// so the scan ends there with the stream, the data size and where the data
/// starts.
proof fn lemma_file_data(fmt: WavFmt, data: Seq<u8>)
    requires
        stream_check(fmt) is Ok,
        data.len() + size_position(fmt) - 4 <= u32::MAX,
    ensures
        parse_wav(wav_file(fmt, data)) == Ok::<(WavFmt, u32, int), Error>(
            (written_stream(fmt), data.len() as u32, size_position(fmt) + 4),
        ),
{
    let file = wav_file(fmt, data);
    let m = lemma_file_start(fmt, data);
    lemma_file_layout(fmt, data);
    lemma_fmt_chunk_fields(fmt);
    let q = 12 + fmt_chunk_bytes(fmt).len() as int;
    lemma_u32_round_trip(data.len() as u32);
    assert(next_chunk(file, m, q) == Ok::<(WavChunks, int), Error>((WavChunks::DATA(data.len() as u32), q + 8)));
    assert(scan(file, m, q, Some(written_stream(fmt))) == Ok::<(WavFmt, u32, int), Error>(
        (written_stream(fmt), data.len() as u32, q + 8),
    ));
    assert(scan(file, m, 12, None) == scan(file, m, q, Some(written_stream(fmt))));
}

/// A source of at least 12 bytes that does not open with `RIFF`, four bytes,
/// and `WAVE` is refused with `WrongHeader`.
pub proof fn lemma_wrong_header(s: Seq<u8>)
    requires
        s.len() >= 12,
        s.subrange(0, 4) != riff_id() || s.subrange(8, 12) != wave_id(),
    ensures
        parse_wav(s) == Err::<(WavFmt, u32, int), Error>(Error::WrongHeader),
{
}

/// Whether the chunks from `p` reach a `data` chunk with no `fmt ` chunk on
/// the way.
pub open spec fn data_before_fmt(s: Seq<u8>, m: u64, p: int) -> bool
    decreases s.len() - p,
{
    match next_chunk(s, m, p) {
        Ok((WavChunks::DATA(_), _)) => true,
        Ok((WavChunks::FMT(_), _)) => false,
        Ok((_, q)) => p < q <= s.len() && data_before_fmt(s, m, q),
        Err(_) => false,
    }
}

/// A scan with no `fmt ` chunk seen that reaches `data` before any `fmt `
/// chunk ends in `WrongFmt`.
proof fn lemma_scan_without_fmt(s: Seq<u8>, m: u64, p: int)
    requires
        data_before_fmt(s, m, p),
    ensures
        scan(s, m, p, None) == Err::<(WavFmt, u32, int), Error>(Error::WrongFmt),
    decreases s.len() - p,
{
    match next_chunk(s, m, p) {
        Ok((WavChunks::DATA(_), _)) => {},
        Ok((WavChunks::FMT(_), _)) => {},
        Ok((_, q)) => lemma_scan_without_fmt(s, m, q),
        Err(_) => {},
    }
}

/// A file whose chunks reach `data` with no `fmt ` chunk before it is refused
/// with `WrongFmt`.
pub proof fn lemma_missing_fmt(s: Seq<u8>)
    requires
        header(s) matches Ok(m) && data_before_fmt(s, m, 12),
    ensures
        parse_wav(s) == Err::<(WavFmt, u32, int), Error>(Error::WrongFmt),
{
    let m = header(s)->Ok_0;
    lemma_scan_without_fmt(s, m, 12);
}

/// A `fmt ` chunk of a size the parser takes, whose common fields can be read
/// and give no channels or bits per sample that are not a multiple of 8, is
/// refused with `WrongFmtInfo`, and so is any file the scan reaches it in.
pub proof fn lemma_bad_fmt_fields(s: Seq<u8>, m: u64, p: int, seen: Option<WavFmt>)
    requires
        fits(s, m, p, 24),
        s.subrange(p, p + 4) == fmt_id(),
        16 <= u32_of(s.subrange(p + 4, p + 8)) <= 40,
        u16_of(s.subrange(p + 10, p + 12)) == 0 || u16_of(s.subrange(p + 22, p + 24)) % 8 != 0,
    ensures
        fmt_body(s, m, p + 8, u32_of(s.subrange(p + 4, p + 8))) matches Err(Error::WrongFmtInfo(_)),
        scan(s, m, p, seen) matches Err(Error::WrongFmtInfo(_)),
{
    let q = p + 8;
    assert(s.subrange(q + 2, q + 4) =~= s.subrange(p + 10, p + 12));
    assert(s.subrange(q + 14, q + 16) =~= s.subrange(p + 22, p + 24));
}

} // verus!
