//! The WAVE writer: the prelude, the samples, and the backpatching of the
//! RIFF and data sizes.
use vstd::prelude::*;
use crate::bytes::{bits32, le16, le32, lemma_u32_round_trip, u32_of};
use crate::error::{Error, FmtIssue, IoError};
use crate::sample::{bytes_of, clamp24, fits_stream, RawSample, SampleType};
use crate::writer::{lemma_splice_end, lemma_splice_middle, splice, LgVecWriter};
use super::reader::{data_id, fmt_id, guid_tail, riff_id, wave_id};
use super::{WavFmt, WavFmtTag};

verus! {

/// Where the RIFF size field stands.
pub const RIFF_CK_SIZE_POSITION: usize = 4;

/// The KSDATAFORMAT_SUBTYPE_PCM GUID.
pub open spec fn pcm_guid() -> Seq<u8> {
    seq![0x01u8, 0x00u8] + guid_tail()
}

/// Whether a PCM stream needs the extensible layout: more than two channels
/// or more than 16 bits per sample.
pub open spec fn uses_extensible(fmt: WavFmt) -> bool {
    fmt.format == WavFmtTag::WAVE_FORMAT_PCM && (fmt.channels > 2 || fmt.bits_per_sample > 16)
}

/// Bytes per second: the rate times the bytes of a sample times the channels.
pub open spec fn byte_rate(fmt: WavFmt) -> int {
    fmt.sample_rate * (fmt.bits_per_sample / 8) * fmt.channels
}

/// Bytes per frame, as the 16-bit field holds it.
pub open spec fn block_align(fmt: WavFmt) -> u16 {
    (((fmt.bits_per_sample / 8) * fmt.channels) % 0x1_0000) as u16
}

/// How an encoder writes its samples.
pub open spec fn encoder_sample_type(fmt: WavFmt) -> SampleType {
    if fmt.format == WavFmtTag::WAVE_FORMAT_IEEE_FLOAT {
        SampleType::FLOAT
    } else {
        SampleType::INT
    }
}

/// The fields that every layout of the `fmt ` chunk shares, after the tag.
pub open spec fn common_fields(fmt: WavFmt) -> Seq<u8> {
    le16(fmt.channels) + le32(fmt.sample_rate) + le32(byte_rate(fmt) as u32) + le16(block_align(fmt))
        + le16(fmt.bits_per_sample)
}

/// The channel mask of the extensible layout: the channel count, at most 18.
pub open spec fn channel_mask_of(fmt: WavFmt) -> u32 {
    if fmt.channels > 18 {
        18
    } else {
        fmt.channels as u32
    }
}

/// The whole `fmt ` chunk an encoder writes: 18 bytes for IEEE float, 40
/// (extensible) for PCM beyond two channels or 16 bits, 16 otherwise.
pub open spec fn fmt_chunk_bytes(fmt: WavFmt) -> Seq<u8> {
    if fmt.format == WavFmtTag::WAVE_FORMAT_IEEE_FLOAT {
        fmt_id() + le32(18) + le16(0x0003) + common_fields(fmt) + le16(0)
    } else if uses_extensible(fmt) {
        fmt_id() + le32(40) + le16(0xFFFE) + common_fields(fmt) + le16(22) + le16(fmt.bits_per_sample)
            + le32(channel_mask_of(fmt)) + pcm_guid()
    } else {
        fmt_id() + le32(16) + le16(0x0001) + common_fields(fmt)
    }
}

/// Where the size field of the data chunk stands.
pub open spec fn size_position(fmt: WavFmt) -> int {
    12 + fmt_chunk_bytes(fmt).len() as int + 4
}

/// A file with the given size fields and data.
pub open spec fn file_with(fmt: WavFmt, riff_size: u32, data_size: u32, data: Seq<u8>) -> Seq<u8> {
    riff_id() + le32(riff_size) + wave_id() + fmt_chunk_bytes(fmt) + data_id() + le32(data_size) + data
}

/// The finished file for the stream `fmt` with the sample bytes `data`: the
/// RIFF size is the data size plus the position of the data size field less
/// 4, and the data size is the length of `data`.
pub open spec fn wav_file(fmt: WavFmt, data: Seq<u8>) -> Seq<u8> {
    file_with(fmt, (data.len() + size_position(fmt) - 4) as u32, data.len() as u32, data)
}

/// The data size field stands 40, 42 or 64 bytes into the file.
pub proof fn lemma_size_position(fmt: WavFmt)
    ensures
        40 <= size_position(fmt) <= 64,
        fmt_chunk_bytes(fmt).len() == size_position(fmt) - 16,
{
}

/// Whether `k` more sample bytes after `data_len` of them keep both size
/// fields within 32 bits and the file within the address space.
pub open spec fn room(fmt: WavFmt, data_len: int, k: int) -> bool {
    &&& data_len + k + size_position(fmt) - 4 <= u32::MAX
    &&& data_len + k + size_position(fmt) + 12 <= usize::MAX
}

/// Whether an encoder takes `fmt`, and if not, why.
pub open spec fn stream_check(fmt: WavFmt) -> Result<(), Error> {
    if fmt.format != WavFmtTag::WAVE_FORMAT_PCM && fmt.format != WavFmtTag::WAVE_FORMAT_IEEE_FLOAT {
        Err(Error::WrongFmtInfo(FmtIssue::EncoderFormat))
    } else if fmt.channels == 0 {
        Err(Error::WrongFmtInfo(FmtIssue::NoChannels))
    } else if !crate::sample::supported(encoder_sample_type(fmt), fmt.bits_per_sample) {
        Err(Error::WrongFmtInfo(FmtIssue::FormatBitsPerSample))
    } else if fmt.sample_rate == 0 {
        Err(Error::WrongFmtInfo(FmtIssue::SampleRate))
    } else if byte_rate(fmt) > u32::MAX {
        Err(Error::WrongFmtInfo(FmtIssue::ByteRate))
    } else {
        Ok(())
    }
}

/// Checks that an encoder can write the stream `fmt`.
pub fn check_stream(fmt: &WavFmt) -> (r: Result<(), Error>)
    ensures
        r == stream_check(*fmt),
{
    match fmt.format {
        WavFmtTag::WAVE_FORMAT_PCM | WavFmtTag::WAVE_FORMAT_IEEE_FLOAT => {},
        _ => return Err(Error::WrongFmtInfo(FmtIssue::EncoderFormat)),
    }
    if fmt.channels == 0 {
        return Err(Error::WrongFmtInfo(FmtIssue::NoChannels));
    }
    let st = if fmt.format == WavFmtTag::WAVE_FORMAT_IEEE_FLOAT { SampleType::FLOAT } else { SampleType::INT };
    if crate::sample::check_supported(st, fmt.bits_per_sample).is_err() {
        return Err(Error::WrongFmtInfo(FmtIssue::FormatBitsPerSample));
    }
    if fmt.sample_rate == 0 {
        return Err(Error::WrongFmtInfo(FmtIssue::SampleRate));
    }
    let rate = byte_rate_of(fmt);
    if rate > u32::MAX as u64 {
        return Err(Error::WrongFmtInfo(FmtIssue::ByteRate));
    }
    Ok(())
}

/// Bytes per second of the stream `fmt`.
fn byte_rate_of(fmt: &WavFmt) -> (r: u64)
    ensures
        r == byte_rate(*fmt),
{
    let a = fmt.sample_rate as u64;
    let b = (fmt.bits_per_sample / 8) as u64;
    let c = fmt.channels as u64;
    assert(a * b <= 0xFFFF_FFFFu64 * 8191) by (nonlinear_arith)
        requires
            a <= 0xFFFF_FFFFu64,
            b <= 8191,
    ;
    assert(a * b * c <= 0xFFFF_FFFFu64 * 8191 * 65535) by (nonlinear_arith)
        requires
            a * b <= 0xFFFF_FFFFu64 * 8191,
            c <= 65535,
    ;
    a * b * c
}

/// A WAVE file being written into memory.
pub struct LgWavWriter {
    writer: LgVecWriter,
    data_bytes_written: u32,
    data_ck_size_position: usize,
    fmt: Ghost<WavFmt>,
    riff_field: Ghost<u32>,
    size_field: Ghost<u32>,
}

impl LgWavWriter {
    /// The bytes of the file so far.
    pub closed spec fn bytes(&self) -> Seq<u8> {
        self.writer.content()
    }

    /// The stream being written.
    pub closed spec fn stream(&self) -> WavFmt {
        self.fmt@
    }

    /// The sample bytes written so far.
    pub closed spec fn data(&self) -> Seq<u8> {
        self.bytes().subrange(self.data_ck_size_position + 4, self.bytes().len() as int)
    }

    /// The values the two size fields hold now.
    pub closed spec fn size_fields(&self) -> (u32, u32) {
        (self.riff_field@, self.size_field@)
    }

    pub closed spec fn wf(&self) -> bool {
        &&& self.writer.wf()
        &&& self.writer.pos() == self.bytes().len()
        &&& stream_check(self.fmt@) is Ok
        &&& self.data_ck_size_position == size_position(self.fmt@)
        &&& self.bytes() == file_with(self.fmt@, self.riff_field@, self.size_field@, self.data())
        &&& self.data().len() == self.data_bytes_written
        &&& self.data_bytes_written + self.data_ck_size_position - 4 <= u32::MAX
    }

    /// The file under the stream and data written so far.
    pub proof fn lemma_layout(&self)
        requires
            self.wf(),
        ensures
            self.bytes() == file_with(self.stream(), self.size_fields().0, self.size_fields().1, self.data()),
            self.bytes().len() == size_position(self.stream()) + 4 + self.data().len(),
            self.data().len() + size_position(self.stream()) - 4 <= u32::MAX,
            stream_check(self.stream()) is Ok,
            40 <= size_position(self.stream()) <= 64,
    {
        lemma_size_position(self.stream());
    }

    /// Starts a file for the stream `fmt`: writes `RIFF`, a zero RIFF size,
    /// `WAVE`, the `fmt ` chunk, `data` and a zero data size.
    pub fn new(fmt: &WavFmt) -> (r: Result<Self, Error>)
        ensures
            r is Ok <==> stream_check(*fmt) is Ok,
            r matches Err(e) ==> stream_check(*fmt) == Err::<(), Error>(e),
            r matches Ok(w) ==> w.wf() && w.stream() == *fmt && w.data() == Seq::<u8>::empty()
                && w.size_fields() == (0u32, 0u32) && w.bytes() == file_with(*fmt, 0, 0, Seq::empty())
                && 40 <= size_position(*fmt) <= 64,
    {
        proof {
            lemma_size_position(*fmt);
        }
        check_stream(fmt)?;
        let mut result = LgWavWriter {
            writer: LgVecWriter::new(),
            data_bytes_written: 0,
            data_ck_size_position: 0,
            fmt: Ghost(*fmt),
            riff_field: Ghost(0),
            size_field: Ghost(0),
        };
        result.write_header();
        result.write_fmt_chunk(fmt);
        result.write_id(0x64, 0x61, 0x74, 0x61);
        result.put_u32(0);
        proof {
            let b = result.bytes();
            assert(b == riff_id() + le32(0) + wave_id() + fmt_chunk_bytes(*fmt) + data_id() + le32(0));
            assert(result.data() =~= Seq::<u8>::empty());
            assert(b =~= file_with(*fmt, 0, 0, Seq::empty()));
        }
        Ok(result)
    }

    /// Writes one sample of type `sample_type` at `bits_per_sample`.
    pub fn write_sample(&mut self, sample: RawSample, sample_type: SampleType, bits_per_sample: u16) -> (r: Result<(), Error>)
        requires
            old(self).wf(),
        ensures
            final(self).wf(),
            final(self).stream() == old(self).stream(),
            final(self).size_fields() == old(self).size_fields(),
            !fits_stream(sample_type, bits_per_sample, sample) ==> r == Err::<(), Error>(
                Error::Conversion { sample_type, bits_per_sample },
            ),
            fits_stream(sample_type, bits_per_sample, sample) ==> (r is Ok <==> old(self).room_for(
                bits_per_sample as int / 8,
            )),
            r is Ok ==> final(self).data() == old(self).data() + bytes_of(sample_type, bits_per_sample, sample),
            r is Err ==> final(self).data() == old(self).data(),
            r is Err && fits_stream(sample_type, bits_per_sample, sample) ==> r == Err::<(), Error>(
                Error::Io(IoError::FileTooLarge),
            ),
    {
        if crate::sample::check_supported(sample_type, bits_per_sample).is_err() {
            return Err(Error::Conversion { sample_type, bits_per_sample });
        }
        let k = (bits_per_sample / 8) as u32;
        let kind_ok = match sample {
            RawSample::Int(_) => sample_type == SampleType::INT,
            RawSample::Float32(_) => sample_type == SampleType::FLOAT && bits_per_sample == 32,
            RawSample::Float64(_) => sample_type == SampleType::FLOAT && bits_per_sample == 64,
        };
        if !kind_ok {
            return Err(Error::Conversion { sample_type, bits_per_sample });
        }
        proof {
            lemma_size_position(self.fmt@);
        }
        if self.data_bytes_written as u64 + k as u64 + self.data_ck_size_position as u64 - 4 > u32::MAX as u64
            || self.writer.len() > usize::MAX - 8 || k as usize > usize::MAX - 8 - self.writer.len() {
            return Err(Error::Io(IoError::FileTooLarge));
        }
        let ghost d0 = self.data();
        self.append_sample(sample, sample_type, bits_per_sample);
        self.data_bytes_written = self.data_bytes_written + k;
        proof {
            let d = bytes_of(sample_type, bits_per_sample, sample);
            assert(self.data() =~= d0 + d);
            assert(self.bytes() =~= file_with(self.fmt@, self.riff_field@, self.size_field@, self.data()));
        }
        Ok(())
    }

    /// Appends the bytes of one sample.
    fn append_sample(&mut self, sample: RawSample, sample_type: SampleType, bits_per_sample: u16)
        requires
            old(self).at_end(),
            old(self).bytes().len() <= usize::MAX - 8,
            fits_stream(sample_type, bits_per_sample, sample),
        ensures
            old(self).grew(final(self), bytes_of(sample_type, bits_per_sample, sample)),
            final(self).data_ck_size_position == old(self).data_ck_size_position,
    {
        let ghost before = self.bytes();
        proof {
            lemma_splice_end(before, bytes_of(sample_type, bits_per_sample, sample));
        }
        match sample {
            RawSample::Int(x) => {
                let u: u32 = if x < 0 { (x as i64 + 0x1_0000_0000) as u32 } else { x as u32 };
                if bits_per_sample == 8 {
                    let lo = u % 256;
                    let v: i8 = if lo >= 128 { (lo as i32 - 256) as i8 } else { lo as i8 };
                    self.writer.write_le_i8(v);
                    assert(seq![(v + 128) as u8] == bytes_of(sample_type, bits_per_sample, sample));
                } else if bits_per_sample == 16 {
                    self.writer.write_le_u16((u % 0x1_0000) as u16);
                } else if bits_per_sample == 24 {
                    let c = if x < -0x80_0000 { -0x80_0000 } else if x > 0x7f_ffff { 0x7f_ffff } else { x };
                    assert(c == clamp24(x));
                    self.writer.write_le_i32_24(c);
                } else {
                    self.writer.write_le_u32(u);
                }
            },
            RawSample::Float32(b) => self.writer.write_le_u32(b),
            RawSample::Float64(b) => self.writer.write_le_u64(b),
        }
    }

    /// The bytes of the file so far.
    pub fn as_bytes(&self) -> (r: &[u8])
        ensures
            r@ == self.bytes(),
    {
        self.writer.as_slice()
    }

    /// The number of sample bytes written.
    pub fn data_len(&self) -> (r: usize)
        requires
            self.wf(),
        ensures
            r == self.data().len(),
    {
        self.data_bytes_written as usize
    }

    /// Whether `k` more sample bytes keep the sizes within their fields.
    pub open spec fn room_for(&self, k: int) -> bool {
        room(self.stream(), self.data().len() as int, k)
    }

    /// Writes the sizes into their fields and hands the sink on, leaving the
    /// write position where it was.
    pub fn flush(&mut self)
        requires
            old(self).wf(),
        ensures
            final(self).wf(),
            final(self).stream() == old(self).stream(),
            final(self).data() == old(self).data(),
            final(self).bytes() == wav_file(old(self).stream(), old(self).data()),
    {
        let current_pos = self.writer.position();
        self.update_headers();
        self.writer.go_to(current_pos);
    }

    /// Writes the sizes into their fields: the RIFF size is the data written
    /// plus the position of the data size field less 4, and the data size is
    /// the data written.
    pub fn finish(&mut self)
        requires
            old(self).wf(),
        ensures
            final(self).wf(),
            final(self).stream() == old(self).stream(),
            final(self).data() == old(self).data(),
            final(self).bytes() == wav_file(old(self).stream(), old(self).data()),
            u32_of(final(self).bytes().subrange(4, 8)) == old(self).data().len() + size_position(
                old(self).stream(),
            ) - 4,
            u32_of(final(self).bytes().subrange(size_position(old(self).stream()), size_position(old(self).stream()) + 4))
                == old(self).data().len(),
    {
        let end = self.writer.len();
        self.update_headers();
        self.writer.go_to(end);
        proof {
            let f = self.fmt@;
            let d = self.data();
            let riff = (d.len() + size_position(f) - 4) as u32;
            let b = self.bytes();
            let pre = riff_id() + le32(riff) + wave_id() + fmt_chunk_bytes(f) + data_id();
            assert(b.subrange(4, 8) =~= le32(riff));
            assert(b.subrange(pre.len() as int, pre.len() as int + 4) =~= le32(d.len() as u32));
            lemma_u32_round_trip(riff);
            lemma_u32_round_trip(d.len() as u32);
        }
    }

    /// The sink, with the sizes written into their fields.
    pub fn into_inner(self) -> (r: LgVecWriter)
        requires
            self.wf(),
        ensures
            r.content() == wav_file(self.stream(), self.data()),
    {
        let mut w = self;
        w.finish();
        w.writer
    }

    /// Writes the sizes into their fields, leaving the write position after
    /// the data size field.
    fn update_headers(&mut self)
        requires
            old(self).wf(),
        ensures
            final(self).writer.wf(),
            final(self).fmt == old(self).fmt,
            final(self).data_bytes_written == old(self).data_bytes_written,
            final(self).data_ck_size_position == old(self).data_ck_size_position,
            final(self).bytes().len() == old(self).bytes().len(),
            final(self).data() == old(self).data(),
            final(self).riff_field@ == (old(self).data().len() + size_position(old(self).fmt@) - 4) as u32,
            final(self).size_field@ == old(self).data().len() as u32,
            final(self).bytes() == file_with(
                final(self).fmt@,
                final(self).riff_field@,
                final(self).size_field@,
                final(self).data(),
            ),
    {
        let ghost f = self.fmt@;
        let ghost d = self.data();
        let ghost mid = wave_id() + fmt_chunk_bytes(f) + data_id() + le32(self.size_field@) + d;
        let file_size = self.data_bytes_written + (self.data_ck_size_position as u32 - 4);
        self.writer.go_to(RIFF_CK_SIZE_POSITION);
        self.writer.write_le_u32(file_size);
        proof {
            lemma_splice_middle(riff_id(), le32(self.riff_field@), mid, le32(file_size));
            assert(file_with(f, self.riff_field@, self.size_field@, d) =~= riff_id() + le32(self.riff_field@) + mid);
        }
        self.riff_field = Ghost(file_size);
        let ghost head = riff_id() + le32(file_size) + wave_id() + fmt_chunk_bytes(f) + data_id();
        assert(self.bytes() =~= head + le32(self.size_field@) + d);
        self.writer.go_to(self.data_ck_size_position);
        self.writer.write_le_u32(self.data_bytes_written);
        proof {
            lemma_splice_middle(head, le32(self.size_field@), d, le32(self.data_bytes_written));
        }
        self.size_field = Ghost(self.data_bytes_written);
        assert(self.bytes() =~= file_with(f, file_size, self.data_bytes_written, d));
        assert(self.data() =~= d);
    }

    /// The sink stands at the end of what it holds.
    closed spec fn at_end(&self) -> bool {
        self.writer.wf() && self.writer.pos() == self.bytes().len()
    }

    /// `next` is `self` with `x` appended, its counters and ghost state kept.
    closed spec fn grew(&self, next: &Self, x: Seq<u8>) -> bool {
        &&& next.at_end()
        &&& next.bytes() == self.bytes() + x
        &&& next.fmt == self.fmt
        &&& next.data_bytes_written == self.data_bytes_written
        &&& next.riff_field == self.riff_field
        &&& next.size_field == self.size_field
    }

    /// Writes `RIFF`, a zero RIFF size and `WAVE`.
    fn write_header(&mut self)
        requires
            old(self).at_end(),
            old(self).bytes().len() == 0,
        ensures
            old(self).grew(final(self), riff_id() + le32(0) + wave_id()),
            final(self).data_ck_size_position == old(self).data_ck_size_position,
    {
        self.write_id(0x52, 0x49, 0x46, 0x46);
        self.put_u32(0);
        self.write_id(0x57, 0x41, 0x56, 0x45);
        assert(self.bytes() =~= old(self).bytes() + (riff_id() + le32(0) + wave_id()));
    }

    /// Writes the `fmt ` chunk whose layout suits `fmt`, and notes where the
    /// data size field will stand.
    fn write_fmt_chunk(&mut self, fmt: &WavFmt)
        requires
            old(self).at_end(),
            old(self).bytes().len() == 12,
            stream_check(*fmt) is Ok,
        ensures
            old(self).grew(final(self), fmt_chunk_bytes(*fmt)),
            final(self).data_ck_size_position == size_position(*fmt),
    {
        self.write_id(0x66, 0x6d, 0x74, 0x20);
        match fmt.format {
            WavFmtTag::WAVE_FORMAT_PCM => {
                if fmt.channels > 2 || fmt.bits_per_sample > 16 {
                    self.write_check_pcm_ex_fmt(fmt);
                } else {
                    self.write_check_pcm_fmt(fmt);
                }
            },
            _ => self.write_check_ieee_float_fmt(fmt),
        }
        assert(self.bytes() =~= old(self).bytes() + fmt_chunk_bytes(*fmt));
    }

    /// The 16-byte PCM layout.
    fn write_check_pcm_fmt(&mut self, fmt: &WavFmt)
        requires
            old(self).at_end(),
            old(self).bytes().len() == 16,
            stream_check(*fmt) is Ok,
        ensures
            old(self).grew(final(self), le32(16) + le16(0x0001) + common_fields(*fmt)),
            final(self).data_ck_size_position == 12 + 8 + 16 + 4,
    {
        self.data_ck_size_position = 12 + 8 + 16 + 4;
        self.put_u32(16);
        self.put_u16(super::WAVE_FORMAT_PCM);
        self.write_fmt(fmt);
        assert(self.bytes() =~= old(self).bytes() + (le32(16) + le16(0x0001) + common_fields(*fmt)));
    }

    /// The 40-byte extensible layout, for PCM beyond two channels or 16 bits.
    fn write_check_pcm_ex_fmt(&mut self, fmt: &WavFmt)
        requires
            old(self).at_end(),
            old(self).bytes().len() == 16,
            stream_check(*fmt) is Ok,
        ensures
            old(self).grew(
                final(self),
                le32(40) + le16(0xFFFE) + common_fields(*fmt) + le16(22) + le16(fmt.bits_per_sample) + le32(
                    channel_mask_of(*fmt),
                ) + pcm_guid(),
            ),
            final(self).data_ck_size_position == 12 + 8 + 40 + 4,
    {
        self.data_ck_size_position = 12 + 8 + 40 + 4;
        self.put_u32(40);
        self.put_u16(super::WAVE_FORMAT_EXTENSIBLE);
        self.write_fmt(fmt);
        self.put_u16(22);
        self.put_u16(fmt.bits_per_sample);
        let channels = if fmt.channels > 18 { 18 } else { fmt.channels };
        self.put_u32(channels as u32);
        self.write_id(0x01, 0x00, 0x00, 0x00);
        self.write_id(0x00, 0x00, 0x10, 0x00);
        self.write_id(0x80, 0x00, 0x00, 0xaa);
        self.write_id(0x00, 0x38, 0x9b, 0x71);
        assert(self.bytes() =~= old(self).bytes() + (le32(40) + le16(0xFFFE) + common_fields(*fmt) + le16(22)
            + le16(fmt.bits_per_sample) + le32(channel_mask_of(*fmt)) + pcm_guid()));
    }

    /// The 18-byte IEEE float layout, with a cb_size of 0.
    fn write_check_ieee_float_fmt(&mut self, fmt: &WavFmt)
        requires
            old(self).at_end(),
            old(self).bytes().len() == 16,
            stream_check(*fmt) is Ok,
        ensures
            old(self).grew(final(self), le32(18) + le16(0x0003) + common_fields(*fmt) + le16(0)),
            final(self).data_ck_size_position == 12 + 8 + 18 + 4,
    {
        self.data_ck_size_position = 12 + 8 + 18 + 4;
        self.put_u32(18);
        self.put_u16(super::WAVE_FORMAT_IEEE_FLOAT);
        self.write_fmt(fmt);
        self.put_u16(0);
        assert(self.bytes() =~= old(self).bytes() + (le32(18) + le16(0x0003) + common_fields(*fmt) + le16(0)));
    }

    /// The fields that every layout shares: channels, sample rate, byte rate,
    /// block align and bits per sample.
    fn write_fmt(&mut self, fmt: &WavFmt)
        requires
            old(self).at_end(),
            old(self).bytes().len() <= 32,
            stream_check(*fmt) is Ok,
        ensures
            old(self).grew(final(self), common_fields(*fmt)),
            final(self).data_ck_size_position == old(self).data_ck_size_position,
    {
        self.put_u16(fmt.channels);
        self.put_u32(fmt.sample_rate);
        let bytes_per_sec = byte_rate_of(fmt);
        self.put_u32(bytes_per_sec as u32);
        let b = (fmt.bits_per_sample / 8) as u32;
        let c = fmt.channels as u32;
        assert(b * c <= 8191 * 65535) by (nonlinear_arith)
            requires
                b <= 8191,
                c <= 65535,
        ;
        let align = (b * c) % 0x1_0000;
        self.put_u16(align as u16);
        self.put_u16(fmt.bits_per_sample);
        assert(self.bytes() =~= old(self).bytes() + common_fields(*fmt));
    }

    /// Appends the four bytes `c0 c1 c2 c3`.
    fn write_id(&mut self, c0: u8, c1: u8, c2: u8, c3: u8)
        requires
            old(self).at_end(),
            old(self).bytes().len() <= 128,
        ensures
            old(self).grew(final(self), seq![c0, c1, c2, c3]),
            final(self).data_ck_size_position == old(self).data_ck_size_position,
    {
        let b = [c0, c1, c2, c3];
        proof {
            lemma_splice_end(self.bytes(), b@);
        }
        self.writer.write(&b);
        assert(b@ =~= seq![c0, c1, c2, c3]);
    }

    /// Appends a little-endian `u16`.
    fn put_u16(&mut self, v: u16)
        requires
            old(self).at_end(),
            old(self).bytes().len() <= 128,
        ensures
            old(self).grew(final(self), le16(v)),
            final(self).data_ck_size_position == old(self).data_ck_size_position,
    {
        proof {
            lemma_splice_end(self.bytes(), le16(v));
        }
        self.writer.write_le_u16(v);
    }

    /// Appends a little-endian `u32`.
    fn put_u32(&mut self, v: u32)
        requires
            old(self).at_end(),
            old(self).bytes().len() <= 128,
        ensures
            old(self).grew(final(self), le32(v)),
            final(self).data_ck_size_position == old(self).data_ck_size_position,
    {
        proof {
            lemma_splice_end(self.bytes(), le32(v));
        }
        self.writer.write_le_u32(v);
    }
}

} // verus!
