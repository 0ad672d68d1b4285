//! The streaming decoder: a parsed header and a cursor in the data chunk.
use vstd::prelude::*;
use crate::error::Error;
use crate::sample::{check_supported, sample_of, supported, RawSample, SampleType};
use super::chunk::WavChunks;
use super::reader::{fits, header, lemma_fmt_body_ok, lemma_next_chunk_moves, parse_wav, scan, LgWavReader};
use super::{sample_type_of, WavFmt};

verus! {

/// The samples that a data chunk with `rem` bytes left yields from `p` on:
/// one per `bits / 8` bytes, up to the first that cannot be read.
pub open spec fn samples_from(s: Seq<u8>, m: u64, p: int, rem: int, st: SampleType, bits: u16) -> Seq<RawSample>
    decreases rem,
{
    let k = bits / 8;
    if supported(st, bits) && k <= rem && fits(s, m, p, k as int) {
        seq![sample_of(st, bits, s.subrange(p, p + k))] + samples_from(s, m, p + k, rem - k, st, bits)
    } else {
        Seq::empty()
    }
}

/// Every sample that a decoder of the file `s` yields.
pub open spec fn decoded(s: Seq<u8>) -> Seq<RawSample> {
    match (header(s), parse_wav(s)) {
        (Ok(m), Ok((f, size, q))) => samples_from(s, m, q, size as int, sample_type_of(f), f.bits_per_sample),
        _ => Seq::empty(),
    }
}

/// Reads one sample of type `st` at `bits` per sample, through the matrix.
pub fn read_sample(reader: &mut LgWavReader, st: SampleType, bits: u16) -> (r: Result<RawSample, Error>)
    requires
        old(reader).wf(),
    ensures
        !supported(st, bits) ==> r == Err::<RawSample, Error>(
            Error::Conversion { sample_type: st, bits_per_sample: bits },
        ),
        supported(st, bits) ==> (r is Ok <==> old(reader).can_read(bits as int / 8)),
        r matches Ok(v) ==> v == sample_of(st, bits, old(reader).ahead(bits as int / 8)) && old(reader).moved(
            final(reader),
            bits as int / 8,
        ),
        r is Err ==> old(reader).moved(final(reader), 0),
{
    check_supported(st, bits)?;
    match st {
        SampleType::INT => if bits == 8 {
            Ok(RawSample::Int(reader.read_le_i8()? as i32))
        } else if bits == 16 {
            Ok(RawSample::Int(reader.read_le_i16()? as i32))
        } else if bits == 24 {
            Ok(RawSample::Int(reader.read_le_i32_24()?))
        } else {
            Ok(RawSample::Int(reader.read_le_i32()?))
        },
        SampleType::FLOAT => if bits == 32 {
            Ok(RawSample::Float32(reader.read_le_u32()?))
        } else {
            Ok(RawSample::Float64(reader.read_le_u64()?))
        },
    }
}

/// A WAVE file opened for decoding, positioned in its data chunk.
#[derive(Debug)]
pub struct LgWavDecoder {
    fmt: WavFmt,
    sample_len: usize,
    data_remaining: u32,
    reader: LgWavReader,
}

impl LgWavDecoder {
    /// The stream the file describes.
    pub closed spec fn stream(&self) -> WavFmt {
        self.fmt
    }

    /// The samples still to come.
    pub closed spec fn pending(&self) -> Seq<RawSample> {
        samples_from(
            self.reader.content(),
            self.reader.budget(),
            self.reader.pos(),
            self.data_remaining as int,
            sample_type_of(self.fmt),
            self.fmt.bits_per_sample,
        )
    }

    pub closed spec fn wf(&self) -> bool {
        &&& self.reader.wf()
        &&& self.fmt.channels > 0
        &&& self.fmt.bits_per_sample > 0
        &&& self.fmt.bits_per_sample % 8 == 0
    }

    /// Opens the WAVE file `source`: checks its header and scans its chunks
    /// up to the data chunk, parsing the `fmt ` chunk on the way.
    pub fn new(source: Vec<u8>) -> (r: Result<Self, Error>)
        ensures
            r is Ok <==> parse_wav(source@) is Ok,
            r matches Err(e) ==> parse_wav(source@) == Err::<(WavFmt, u32, int), Error>(e),
            r matches Ok(d) ==> d.wf() && (parse_wav(source@) matches Ok((f, size, q)) && d.stream() == f
                && d.sample_count() == size as int / (f.bits_per_sample as int / 8)) && d.pending() == decoded(source@),
    {
        let ghost s = source@;
        let mut reader = LgWavReader::new(source)?;
        let ghost m = reader.budget();
        let mut fmt: Option<WavFmt> = None;
        loop
            invariant
                reader.wf(),
                reader.content() == s,
                s == source@,
                reader.budget() == m,
                header(s) == Ok::<u64, Error>(m),
                12 <= reader.pos() <= s.len(),
                parse_wav(s) == scan(s, m, reader.pos(), fmt),
                fmt matches Some(f) ==> f.channels > 0 && f.bits_per_sample % 8 == 0 && f.bits_per_sample > 0,
            decreases s.len() - reader.pos(),
        {
            let ghost p = reader.pos();
            let ghost before = fmt;
            let chunk = reader.read_next_chunk();
            match chunk {
                Err(e) => {
                    assert(scan(s, m, p, before) == Err::<(WavFmt, u32, int), Error>(e));
                    return Err(e);
                },
                Ok(WavChunks::DATA(size)) => {
                    match fmt {
                        None => return Err(Error::WrongFmt),
                        Some(f) => {
                            let k = f.bits_per_sample / 8;
                            let d = LgWavDecoder {
                                fmt: f,
                                sample_len: (size / k as u32) as usize,
                                data_remaining: size,
                                reader,
                            };
                            return Ok(d);
                        },
                    }
                },
                Ok(WavChunks::FMT(f)) => {
                    proof {
                        lemma_next_chunk_moves(s, m, p);
                        lemma_fmt_body_ok(s, m, p + 8, crate::bytes::u32_of(s.subrange(p + 4, p + 8)));
                    }
                    fmt = Some(f);
                },
                Ok(_) => {
                    proof {
                        lemma_next_chunk_moves(s, m, p);
                    }
                },
            }
        }
    }

    /// The number of samples, over all channels, that the data chunk declares.
    pub closed spec fn sample_count(&self) -> int {
        self.sample_len as int
    }

    /// The stream the file describes.
    pub fn format(&self) -> (r: WavFmt)
        ensures
            r == self.stream(),
    {
        self.fmt
    }

    /// The stream the file describes.
    pub fn info(&self) -> (r: WavFmt)
        ensures
            r == self.stream(),
    {
        self.fmt
    }

    /// The number of samples, over all channels, that the data chunk declares:
    /// its size over the bytes of one sample.
    pub fn len(&self) -> (r: usize)
        ensures
            r == self.sample_count(),
    {
        self.sample_len
    }

    /// The duration in whole seconds: the samples over the channels over the
    /// sample rate, or 0 for a rate of 0.
    pub fn duration(&self) -> (r: usize)
        requires
            self.wf(),
        ensures
            r == (if self.stream().sample_rate == 0 {
                0
            } else {
                self.sample_count() / self.stream().channels as int / self.stream().sample_rate as int
            }),
    {
        if self.fmt.sample_rate == 0 {
            return 0;
        }
        self.sample_len / self.fmt.channels as usize / self.fmt.sample_rate as usize
    }

    /// The next sample, or `None` once the data chunk is exhausted or a sample
    /// cannot be read.
    pub fn next_sample(&mut self) -> (r: Option<RawSample>)
        requires
            old(self).wf(),
        ensures
            final(self).wf(),
            final(self).stream() == old(self).stream(),
            final(self).sample_count() == old(self).sample_count(),
            old(self).pending().len() > 0 ==> r == Some(old(self).pending()[0]) && final(self).pending()
                == old(self).pending().drop_first(),
            old(self).pending().len() == 0 ==> r is None && final(self).pending().len() == 0,
    {
        let st = self.fmt.sample_type();
        let bits = self.fmt.bits_per_sample;
        let k = bits / 8;
        if check_supported(st, bits).is_err() || k as u32 > self.data_remaining {
            return None;
        }
        match read_sample(&mut self.reader, st, bits) {
            Ok(v) => {
                self.data_remaining = self.data_remaining - k as u32;
                Some(v)
            },
            Err(_) => None,
        }
    }

    /// Every sample still to come, read until the data chunk is exhausted or
    /// a sample cannot be read.
    pub fn samples(&mut self) -> (r: Vec<RawSample>)
        requires
            old(self).wf(),
        ensures
            final(self).wf(),
            r@ == old(self).pending(),
            final(self).pending().len() == 0,
    {
        let mut out: Vec<RawSample> = Vec::new();
        loop
            invariant
                self.wf(),
                out@ + self.pending() == old(self).pending(),
            decreases self.pending().len(),
        {
            let ghost before = self.pending();
            match self.next_sample() {
                Some(v) => {
                    out.push(v);
                    assert(out@ + self.pending() =~= old(self).pending()) by {
                        assert(before =~= seq![v] + before.drop_first());
                    }
                },
                None => {
                    assert(out@ + self.pending() =~= old(self).pending());
                    return out;
                },
            }
        }
    }
}

} // verus!
