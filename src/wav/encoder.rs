//! The streaming encoder: a stream description and a writer.
use vstd::prelude::*;
use crate::error::{Error, IoError};
use crate::sample::{bytes_of, data_of, fits_stream, RawSample, SampleType};
use super::writer::{encoder_sample_type, room, size_position, stream_check, wav_file, LgWavWriter};
use super::{WavFmt, WavFmtTag};

verus! {

/// A WAVE file being encoded into memory.
pub struct LgWavEncoder {
    fmt: WavFmt,
    writer: LgWavWriter,
}

impl LgWavEncoder {
    /// The stream being encoded.
    pub closed spec fn stream(&self) -> WavFmt {
        self.fmt
    }

    /// The sample bytes written so far.
    pub closed spec fn data(&self) -> Seq<u8> {
        self.writer.data()
    }

    /// Whether `k` more sample bytes keep the sizes within their fields.
    pub open spec fn room_for(&self, k: int) -> bool {
        room(self.stream(), self.data().len() as int, k)
    }

    pub closed spec fn wf(&self) -> bool {
        self.writer.wf() && self.writer.stream() == self.fmt
    }

    /// The file under the stream and data written so far.
    pub proof fn lemma_layout(&self)
        requires
            self.wf(),
        ensures
            self.bytes().len() == size_position(self.stream()) + 4 + self.data().len(),
            self.data().len() + size_position(self.stream()) - 4 <= u32::MAX,
            stream_check(self.stream()) is Ok,
            40 <= size_position(self.stream()) <= 64,
    {
        self.writer.lemma_layout();
    }

    /// Starts a file for the stream `fmt`, which must be PCM or IEEE float
    /// with channels, a sample rate, and bits per sample that the format has.
    pub fn new(fmt: WavFmt) -> (r: Result<Self, Error>)
        ensures
            r is Ok <==> stream_check(fmt) is Ok,
            r matches Err(e) ==> stream_check(fmt) == Err::<(), Error>(e),
            r matches Ok(enc) ==> enc.wf() && enc.stream() == fmt && enc.data() == Seq::<u8>::empty()
                && enc.bytes() == super::writer::file_with(fmt, 0, 0, Seq::empty())
                && 40 <= size_position(fmt) <= 64,
    {
        let writer = LgWavWriter::new(&fmt)?;
        Ok(LgWavEncoder { fmt, writer })
    }

    /// The stream being encoded.
    pub fn info(&self) -> (r: WavFmt)
        ensures
            r == self.stream(),
    {
        self.fmt
    }

    /// Encodes one sample: an integer for a PCM stream, the bits of a float
    /// of the stream's width for an IEEE float stream.
    pub fn encode_sample(&mut self, sample: RawSample) -> (r: Result<(), Error>)
        requires
            old(self).wf(),
        ensures
            final(self).wf(),
            final(self).stream() == old(self).stream(),
            ({
                let st = encoder_sample_type(old(self).stream());
                let bits = old(self).stream().bits_per_sample;
                &&& !fits_stream(st, bits, sample) ==> r == Err::<(), Error>(
                    Error::Conversion { sample_type: st, bits_per_sample: bits },
                )
                &&& fits_stream(st, bits, sample) ==> (r is Ok <==> old(self).room_for(bits as int / 8))
                &&& r is Ok ==> final(self).data() == old(self).data() + bytes_of(st, bits, sample)
                &&& r is Err ==> final(self).data() == old(self).data()
                &&& r is Err && fits_stream(st, bits, sample) ==> r == Err::<(), Error>(
                    Error::Io(IoError::FileTooLarge),
                )
            }),
    {
        let sample_type = match self.fmt.format {
            WavFmtTag::WAVE_FORMAT_IEEE_FLOAT => SampleType::FLOAT,
            _ => SampleType::INT,
        };
        self.writer.write_sample(sample, sample_type, self.fmt.bits_per_sample)
    }

    /// Encodes the samples `xs` one after another, up to the first that
    /// fails. Every sample is written when each suits the stream and the size
    /// fields hold them all; otherwise the samples before the failing one stay
    /// written and its error is returned.
    pub fn encode_samples(&mut self, xs: &Vec<RawSample>) -> (r: Result<(), Error>)
        requires
            old(self).wf(),
        ensures
            final(self).wf(),
            final(self).stream() == old(self).stream(),
            ({
                let st = encoder_sample_type(old(self).stream());
                let bits = old(self).stream().bits_per_sample;
                &&& r is Ok ==> final(self).data() == old(self).data() + data_of(st, bits, xs@)
                &&& ((forall|i: int| 0 <= i < xs@.len() ==> fits_stream(st, bits, #[trigger] xs@[i]))
                    && old(self).room_for(data_of(st, bits, xs@).len() as int)) ==> r is Ok
                &&& r is Err ==> exists|i: int|
                    0 <= i < xs@.len() && final(self).data() == old(self).data() + #[trigger] data_of(
                        st,
                        bits,
                        xs@.subrange(0, i),
                    ) && r == (if fits_stream(st, bits, xs@[i]) {
                        Err::<(), Error>(Error::Io(IoError::FileTooLarge))
                    } else {
                        Err::<(), Error>(Error::Conversion { sample_type: st, bits_per_sample: bits })
                    })
            }),
    {
        let ghost st = encoder_sample_type(self.fmt);
        let ghost bits = self.fmt.bits_per_sample;
        let ghost d0 = self.data();
        let mut i: usize = 0;
        while i < xs.len()
            invariant
                self.wf(),
                self.stream() == old(self).stream(),
                st == encoder_sample_type(self.stream()),
                bits == self.stream().bits_per_sample,
                d0 == old(self).data(),
                i <= xs@.len(),
                self.data() == d0 + data_of(st, bits, xs@.subrange(0, i as int)),
            decreases xs@.len() - i,
        {
            proof {
                let ys = xs@.subrange(0, i + 1);
                assert(ys.drop_last() =~= xs@.subrange(0, i as int));
                if forall|j: int| 0 <= j < xs@.len() ==> fits_stream(st, bits, #[trigger] xs@[j]) {
                    assert(fits_stream(st, bits, xs@[i as int]));
                    crate::sample::lemma_bytes_of_len(st, bits, xs@[i as int]);
                    crate::sample::lemma_data_of_prefix_len(st, bits, xs@, i + 1);
                    assert(xs@.subrange(0, xs@.len() as int) =~= xs@);
                }
            }
            match self.encode_sample(xs[i]) {
                Ok(()) => {},
                Err(e) => {
                    assert(self.data() == old(self).data() + data_of(st, bits, xs@.subrange(0, i as int)));
                    return Err(e);
                },
            }
            i = i + 1;
        }
        assert(xs@.subrange(0, i as int) =~= xs@);
        Ok(())
    }

    /// The number of samples encoded so far.
    pub fn encoded_samples(&self) -> (r: usize)
        requires
            self.wf(),
        ensures
            r == self.data().len() as int / (self.stream().bits_per_sample as int / 8),
    {
        proof {
            self.writer.lemma_layout();
        }
        self.writer.data_len() / (self.fmt.bits_per_sample / 8) as usize
    }

    /// Writes the sizes into their fields, keeping the write position.
    pub fn flush(&mut self)
        requires
            old(self).wf(),
        ensures
            final(self).wf(),
            final(self).stream() == old(self).stream(),
            final(self).data() == old(self).data(),
            final(self).bytes() == wav_file(old(self).stream(), old(self).data()),
    {
        self.writer.flush()
    }

    /// Writes the sizes into their fields. Doing so again changes nothing.
    pub fn finish(&mut self)
        requires
            old(self).wf(),
        ensures
            final(self).wf(),
            final(self).stream() == old(self).stream(),
            final(self).data() == old(self).data(),
            final(self).bytes() == wav_file(old(self).stream(), old(self).data()),
    {
        self.writer.finish()
    }

    /// The bytes of the file so far.
    pub closed spec fn bytes(&self) -> Seq<u8> {
        self.writer.bytes()
    }

    /// The bytes of the file so far; after `flush` or `finish`, a whole file.
    pub fn as_bytes(&self) -> (r: &[u8])
        ensures
            r@ == self.bytes(),
    {
        self.writer.as_bytes()
    }

    /// Ends the encoder and hands out the file, with both size fields written
    /// whether or not `finish` was called.
    pub fn into_bytes(self) -> (r: Vec<u8>)
        requires
            self.wf(),
        ensures
            r@ == wav_file(self.stream(), self.data()),
    {
        self.writer.into_inner().into_inner()
    }
}

} // verus!
