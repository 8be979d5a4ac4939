//! Streaming gzip compression, in memory: bytes go in piece by piece, and the
//! compressed bytes produced so far come out after each piece.
use vstd::prelude::*;
use crate::options::MAX_LEVEL;

verus! {

#[verifier::external_type_specification]
#[verifier::external_body]
pub struct ExIoError(std::io::Error);

/// The bytes that flate2's gzip encoder, made at `level`, has emitted after
/// taking in `writes`, one `write_all` after another. The encoder's output
/// depends on these alone: its header is fixed and its compressor is
/// deterministic.
pub uninterp spec fn gzip_emitted(writes: Seq<Seq<u8>>, level: u32) -> Seq<u8>;

/// The complete gzip stream that flate2's encoder, made at `level`, produces
/// for `writes` once finished.
pub uninterp spec fn gzip_stream(writes: Seq<Seq<u8>>, level: u32) -> Seq<u8>;

/// flate2's gzip encoder writing into memory. The encoder's type is held
/// here, out of the verifier's sight, because its parameter is bound by
/// `std::io::Write`, which Verus refuses in a type declaration.
#[verifier::external_body]
struct GzWriter {
    encoder: flate2::write::GzEncoder<Vec<u8>>,
}

/// A gzip stream under construction. Bytes go in piece by piece; after each
/// piece the compressed bytes emitted so far come out, and `finish` hands out
/// the rest.
pub struct GzipStream {
    writer: GzWriter,
    level: Ghost<u32>,
    writes: Ghost<Seq<Seq<u8>>>,
    taken: Ghost<Seq<u8>>,
}

impl GzipStream {
    /// The compression level the stream was made with.
    pub closed spec fn level_of(&self) -> u32 {
        self.level@
    }

    /// The pieces fed to the stream so far, in order.
    pub closed spec fn writes_of(&self) -> Seq<Seq<u8>> {
        self.writes@
    }

    /// The compressed bytes handed out so far.
    pub closed spec fn taken_of(&self) -> Seq<u8> {
        self.taken@
    }
}

/// Relies on flate2::write::GzEncoder::new with flate2::Compression::new: a
/// gzip encoder at `level` that writes into an empty vector, with nothing fed
/// and nothing emitted yet. The default backend accepts levels up to 10.
#[verifier::external_body]
fn open_stream(level: u32) -> (r: GzipStream)
    requires
        level <= 10,
    ensures
        r.level_of() == level,
        r.writes_of() == Seq::<Seq<u8>>::empty(),
        r.taken_of() == Seq::<u8>::empty(),
{
    let encoder = flate2::write::GzEncoder::new(Vec::new(), flate2::Compression::new(level));
    GzipStream {
        writer: GzWriter { encoder },
        level: Ghost(level),
        writes: Ghost(Seq::empty()),
        taken: Ghost(Seq::empty()),
    }
}

/// Relies on std::io::Write::write_all for flate2::write::GzEncoder: feeds
/// all of `data` to the encoder. It succeeds: the encoder writes into a
/// vector, which never fails, and its compressor reports an error only after
/// an earlier error or once finished, which a live stream never is.
#[verifier::external_body]
fn stream_write(stream: &mut GzipStream, data: &[u8]) -> (r: Result<(), std::io::Error>)
    ensures
        r is Ok,
        final(stream).level_of() == old(stream).level_of(),
        final(stream).writes_of() == old(stream).writes_of().push(data@),
        final(stream).taken_of() == old(stream).taken_of(),
{
    std::io::Write::write_all(&mut stream.writer.encoder, data)
}

/// Relies on flate2::write::GzEncoder::get_mut: hands out the bytes the
/// encoder has emitted since the last call and leaves its output empty;
/// whatever was handed out, concatenated, is what the encoder has emitted.
#[verifier::external_body]
fn stream_take_output(stream: &mut GzipStream) -> (r: Vec<u8>)
    ensures
        final(stream).level_of() == old(stream).level_of(),
        final(stream).writes_of() == old(stream).writes_of(),
        final(stream).taken_of() == old(stream).taken_of() + r@,
        final(stream).taken_of() == gzip_emitted(old(stream).writes_of(), old(stream).level_of()),
{
    std::mem::take(stream.writer.encoder.get_mut())
}

/// Relies on flate2::write::GzEncoder::finish: flushes the encoder, writes
/// the gzip trailer, and hands back the output not yet taken, which completes
/// the stream. It succeeds for the same reasons as a write.
#[verifier::external_body]
fn stream_finish(stream: GzipStream) -> (r: Result<Vec<u8>, std::io::Error>)
    ensures
        r is Ok,
        r is Ok ==> stream.taken_of() + r->Ok_0@ == gzip_stream(
            stream.writes_of(),
            stream.level_of(),
        ),
{
    stream.writer.encoder.finish()
}

/// The encoder failed.
#[derive(Debug)]
pub enum StreamError {
    Io(std::io::Error),
}

impl GzipStream {
    /// A stream that compresses at `level`, with nothing fed yet.
    pub fn new(level: u32) -> (r: GzipStream)
        requires
            level <= MAX_LEVEL,
        ensures
            r.level_of() == level,
            r.writes_of() == Seq::<Seq<u8>>::empty(),
            r.taken_of() == Seq::<u8>::empty(),
    {
        open_stream(level)
    }

    /// Feeds `data` to the stream and returns the compressed bytes emitted
    /// since the last call: all pieces returned so far make up what the
    /// encoder has emitted for the pieces fed so far.
    pub fn write(&mut self, data: &[u8]) -> (r: Result<Vec<u8>, StreamError>)
        ensures
            r is Ok,
            final(self).level_of() == old(self).level_of(),
            final(self).writes_of() == old(self).writes_of().push(data@),
            r is Ok ==> old(self).taken_of() + r->Ok_0@ == final(self).taken_of(),
            final(self).taken_of() == gzip_emitted(final(self).writes_of(), final(self).level_of()),
    {
        match stream_write(self, data) {
            Ok(()) => Ok(stream_take_output(self)),
            Err(e) => Err(StreamError::Io(e)),
        }
    }

    /// Ends the stream and returns its last compressed bytes: appended to
    /// those handed out before, they make the complete gzip stream of the
    /// pieces fed.
    pub fn finish(self) -> (r: Result<Vec<u8>, StreamError>)
        ensures
            r is Ok,
            r is Ok ==> self.taken_of() + r->Ok_0@ == gzip_stream(self.writes_of(), self.level_of()),
    {
        match stream_finish(self) {
            Ok(rest) => Ok(rest),
            Err(e) => Err(StreamError::Io(e)),
        }
    }
}

} // verus!
