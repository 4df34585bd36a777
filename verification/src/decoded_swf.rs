//! Decompressing SWF innards and reading the result.
//!
//! Everything beyond the first 8 bytes of a SWF file may be compressed,
//! with the scheme chosen by the file's signature byte. [`DecodedSwf`]
//! abstracts over the three strategies — passthrough, zlib and LZMA —
//! behind one forward-only byte stream. The strategy is chosen once at
//! construction and fixed for the stream's lifetime.

use vstd::prelude::*;

use crate::Signature;
use crate::error::Error;

verus! {

#[verifier::external_type_specification]
#[verifier::external_body]
#[verifier::reject_recursive_types(T)]
pub struct ExCursor<T>(std::io::Cursor<T>);

#[verifier::external_type_specification]
#[verifier::external_body]
#[verifier::reject_recursive_types(R)]
pub struct ExZlibDecoder<R>(flate2::read::ZlibDecoder<R>);

/// The bytes that flate2's streaming zlib decoder yields for this
/// compressed input, in order, before it reports end of stream or an
/// error. The decoding is a function of the input bytes alone.
pub uninterp spec fn zlib_decoded(compressed: Seq<u8>) -> Seq<u8>;

/// The bytes a zlib decoding stream still has to yield.
pub uninterp spec fn zlib_remaining(d: flate2::read::ZlibDecoder<std::io::Cursor<Vec<u8>>>) -> Seq<u8>;

/// Whether flate2's streaming zlib decode of this input ends with a
/// data error — corrupt deflate data or a checksum mismatch — rather
/// than with a clean end of stream or with the input merely running
/// out. Like the decoding itself, this is a function of the input bytes
/// alone.
pub uninterp spec fn zlib_data_error(compressed: Seq<u8>) -> bool;

/// Whether a zlib decoding stream's yield will end with a data error.
pub uninterp spec fn zlib_rest_data_error(
    d: flate2::read::ZlibDecoder<std::io::Cursor<Vec<u8>>>,
) -> bool;

/// The full LZMA decoding of this compressed input when the whole
/// stream decodes cleanly, and empty when the stream is malformed,
/// truncated or corrupt anywhere. The decoding is a function of the
/// input bytes alone.
pub uninterp spec fn lzma_decoded(compressed: Seq<u8>) -> Seq<u8>;

/// The contents of the continuation stream as decided by the signature:
/// the body itself when uncompressed, otherwise what the selected
/// decoder yields for it.
pub open spec fn decoded_body(sig: Signature, body: Seq<u8>) -> Seq<u8> {
    match sig {
        Signature::Uncompressed => body,
        Signature::ZlibCompressed => zlib_decoded(body),
        Signature::LzmaCompressed => lzma_decoded(body),
    }
}

/// Relies on flate2's `ZlibDecoder::new`: wraps an in-memory source in a
/// streaming zlib decoder, which will yield the zlib decoding of that
/// source. Construction itself cannot fail.
#[verifier::external_body]
fn zlib_new(data: Vec<u8>) -> (d: flate2::read::ZlibDecoder<std::io::Cursor<Vec<u8>>>)
    ensures
        zlib_remaining(d) == zlib_decoded(data@),
        zlib_rest_data_error(d) == zlib_data_error(data@),
{
    flate2::read::ZlibDecoder::new(std::io::Cursor::new(data))
}

/// Relies on the `Read` impl of flate2's `ZlibDecoder`, through one
/// `read` of one byte: a byte comes back exactly when one is left to
/// yield; a clean end of stream comes back as zero bytes read, handed on
/// as `None` so that it stays distinct from errors; truncated input
/// reports `UnexpectedEof`, mapped to `NotSwf`, and a data error —
/// corrupt deflate data or a checksum mismatch — is an I/O error,
/// passed through.
#[verifier::external_body]
fn zlib_read_opt(d: &mut flate2::read::ZlibDecoder<std::io::Cursor<Vec<u8>>>) -> (r: Result<
    Option<u8>,
    Error,
>)
    ensures
        zlib_remaining(*old(d)).len() > 0 ==> (r matches Ok(b) && b is Some),
        match r {
            Ok(Some(b)) => zlib_remaining(*old(d)).len() > 0 && b == zlib_remaining(*old(d))[0]
                && zlib_remaining(*final(d)) == zlib_remaining(*old(d)).skip(1)
                && zlib_rest_data_error(*final(d)) == zlib_rest_data_error(*old(d)),
            Ok(None) => zlib_remaining(*old(d)).len() == 0 && zlib_remaining(*final(d)).len() == 0
                && !zlib_rest_data_error(*old(d)) && !zlib_rest_data_error(*final(d)),
            Err(e) => (e is NotSwf || e is IoError) && zlib_remaining(*old(d)).len() == 0 && (e
                is IoError <==> zlib_rest_data_error(*old(d))),
        },
{
    let mut buf = [0u8; 1];
    match std::io::Read::read(d, &mut buf) {
        Ok(0) => Ok(None),
        Ok(_) => Ok(Some(buf[0])),
        Err(e) => if e.kind() == std::io::ErrorKind::UnexpectedEof {
            Err(Error::NotSwf)
        } else {
            Err(Error::IoError(e))
        },
    }
}

/// Relies on lzma-rs's `lzma_decompress`: decodes a whole in-memory
/// LZMA stream (a 13-byte header, then the range-coded data) into its
/// bytes. The decoding is a function of the input bytes alone. With an
/// in-memory source and sink, every failure — a short or malformed
/// header, data running out mid-stream, a match distance reaching
/// beyond the output — is a defect of the stream itself and not of any
/// I/O, so each is reported as `NotSwf`; the decoding then yields
/// nothing.
#[verifier::external_body]
fn lzma_decompress_all(data: Vec<u8>) -> (r: Result<Vec<u8>, Error>)
    ensures
        match r {
            Ok(v) => v@ == lzma_decoded(data@),
            Err(e) => e is NotSwf && lzma_decoded(data@) == Seq::<u8>::empty(),
        },
{
    let mut out: Vec<u8> = Vec::new();
    match lzma_rs::lzma_decompress(&mut std::io::Cursor::new(data), &mut out) {
        Ok(()) => Ok(out),
        Err(_) => Err(Error::NotSwf),
    }
}

/// The passthrough strategy: reads come verbatim from an in-memory
/// buffer, front to back.
struct RawReader {
    data: Vec<u8>,
    pos: usize,
}

impl RawReader {
    #[verifier::type_invariant]
    spec fn wf(self) -> bool {
        self.pos <= self.data@.len()
    }

    spec fn remaining(self) -> Seq<u8> {
        self.data@.skip(self.pos as int)
    }

    fn new(data: Vec<u8>) -> (r: Self)
        ensures
            r.remaining() == data@,
    {
        RawReader { data, pos: 0 }
    }

    fn read_opt(&mut self) -> (r: Result<Option<u8>, Error>)
        ensures
            r is Ok,
            match r {
                Ok(Some(b)) => old(self).remaining().len() > 0 && b == old(self).remaining()[0]
                    && final(self).remaining() == old(self).remaining().skip(1),
                Ok(None) => old(self).remaining().len() == 0 && *final(self) == *old(self),
                Err(e) => e is NotSwf,
            },
    {
        proof {
            use_type_invariant(&*self);
        }
        if self.pos < self.data.len() {
            let b = self.data[self.pos];
            self.pos = self.pos + 1;
            proof {
                assert(self.remaining() =~= old(self).remaining().skip(1));
            }
            Ok(Some(b))
        } else {
            Ok(None)
        }
    }
}

/// One of the three mutually exclusive codec strategies, fixed at
/// construction. An LZMA body is decoded in full when the stream is
/// built, so that strategy reads from the already-decoded buffer.
enum Inner {
    Raw(RawReader),
    Zlib(flate2::read::ZlibDecoder<std::io::Cursor<Vec<u8>>>),
    Lzma(RawReader),
}

/// Handles decompressing SWF innards and reading the result.
///
/// This is a helper struct abstracting over the various kinds of
/// compression SWF files can use, namely zlib and LZMA. It is a
/// forward-only, single-pass byte source: reads continue exactly where
/// the previous read left off. [`DecodedSwf::read`] signals a clean end
/// of stream distinctly from errors; [`DecodedSwf::read_u8`] and
/// [`DecodedSwf::read_bytes`] demand the bytes and treat their absence
/// as `NotSwf`. An LZMA body is decoded in full at construction, so a
/// malformed or corrupt LZMA stream fails there and later reads never
/// fail with anything but running out of bytes.
pub struct DecodedSwf {
    inner: Inner,
}

impl DecodedSwf {
    /// The bytes this stream still has to yield.
    pub closed spec fn remaining(self) -> Seq<u8> {
        match self.inner {
            Inner::Raw(r) => r.remaining(),
            Inner::Zlib(d) => zlib_remaining(d),
            Inner::Lzma(r) => r.remaining(),
        }
    }

    /// Whether this stream is the passthrough strategy.
    pub closed spec fn is_raw(self) -> bool {
        self.inner is Raw
    }

    /// Whether this stream reads from a buffer already fully in memory:
    /// the passthrough strategy, or an LZMA body decoded at
    /// construction. Reads of such a stream never fail with an I/O
    /// error; the only failure left is running out of bytes.
    pub closed spec fn is_buffered(self) -> bool {
        !(self.inner is Zlib)
    }

    /// Whether this stream's yield will end with a data error rather
    /// than with a clean end or with the input merely running out: true
    /// only of a zlib stream over corrupt data. Exactly the reads that
    /// run into such an end fail with an I/O error.
    pub closed spec fn pending_data_error(self) -> bool {
        match self.inner {
            Inner::Zlib(d) => zlib_rest_data_error(d),
            _ => false,
        }
    }

    /// Takes the bytes beyond the first 8 of a SWF file and the file's
    /// signature, and wraps them in the matching decoding strategy,
    /// returning a reader. An LZMA body is decoded in full right here,
    /// so only LZMA construction can fail: on a malformed, truncated or
    /// corrupt LZMA stream, always as `NotSwf`.
    pub fn decompress(data: Vec<u8>, sig: Signature) -> (r: Result<Self, Error>)
        ensures
            !(sig is LzmaCompressed) ==> r is Ok,
            match r {
                Ok(s) => s.remaining() == decoded_body(sig, data@) && (s.is_raw() <==> sig
                    is Uncompressed) && (s.is_buffered() <==> !(sig is ZlibCompressed)) && (
                s.pending_data_error() <==> sig is ZlibCompressed && zlib_data_error(data@)),
                Err(e) => sig is LzmaCompressed && e is NotSwf && decoded_body(sig, data@)
                    == Seq::<u8>::empty(),
            },
    {
        let inner = match sig {
            Signature::Uncompressed => Inner::Raw(RawReader::new(data)),
            Signature::ZlibCompressed => Inner::Zlib(zlib_new(data)),
            Signature::LzmaCompressed => {
                match lzma_decompress_all(data) {
                    Ok(v) => Inner::Lzma(RawReader::new(v)),
                    Err(e) => {
                        return Err(e);
                    },
                }
            },
        };
        Ok(DecodedSwf { inner })
    }

    /// Reads the next byte of the stream, or `None` at its clean end,
    /// kept distinct from errors. A byte comes back exactly when the
    /// stream has one left to yield; a compressed stream may instead
    /// fail on truncated or corrupt data.
    fn read_opt(&mut self) -> (r: Result<Option<u8>, Error>)
        ensures
            old(self).remaining().len() > 0 ==> (r matches Ok(b) && b is Some),
            old(self).is_buffered() ==> r is Ok,
            match r {
                Ok(Some(b)) => old(self).remaining().len() > 0 && b == old(self).remaining()[0]
                    && final(self).remaining() == old(self).remaining().skip(1)
                    && final(self).is_raw() == old(self).is_raw()
                    && final(self).is_buffered() == old(self).is_buffered()
                    && final(self).pending_data_error() == old(self).pending_data_error(),
                Ok(None) => old(self).remaining().len() == 0 && final(self).remaining().len() == 0
                    && final(self).is_raw() == old(self).is_raw()
                    && final(self).is_buffered() == old(self).is_buffered()
                    && !old(self).pending_data_error() && !final(self).pending_data_error() && (
                old(self).is_buffered() ==> *final(self) == *old(self)),
                Err(e) => (e is NotSwf || e is IoError) && old(self).remaining().len() == 0
                    && !old(self).is_buffered()
                    && (e is IoError <==> old(self).pending_data_error()),
            },
    {
        match &mut self.inner {
            Inner::Raw(r) => r.read_opt(),
            Inner::Zlib(d) => zlib_read_opt(d),
            Inner::Lzma(r) => r.read_opt(),
        }
    }

    /// Reads the next byte of the stream. The read succeeds exactly when
    /// the stream has a byte left to yield; a stream that has ended is a
    /// `NotSwf`, and a zlib stream may instead fail on truncated or
    /// corrupt data. To tell a clean end of stream apart from a failure,
    /// use [`DecodedSwf::read`].
    pub fn read_u8(&mut self) -> (r: Result<u8, Error>)
        ensures
            old(self).remaining().len() > 0 ==> r is Ok,
            match r {
                Ok(b) => old(self).remaining().len() > 0 && b == old(self).remaining()[0]
                    && final(self).remaining() == old(self).remaining().skip(1)
                    && final(self).is_raw() == old(self).is_raw()
                    && final(self).is_buffered() == old(self).is_buffered()
                    && final(self).pending_data_error() == old(self).pending_data_error(),
                Err(e) => (e is NotSwf || e is IoError)
                    && (e is IoError <==> old(self).pending_data_error())
                    && (old(self).is_buffered() ==> e is NotSwf && *final(self) == *old(self)),
            },
    {
        match self.read_opt() {
            Ok(Some(b)) => Ok(b),
            Ok(None) => Err(Error::NotSwf),
            Err(e) => Err(e),
        }
    }

    /// Reads up to `n` bytes of the stream, in order. A result shorter
    /// than `n` (possibly empty) means the stream ended cleanly just
    /// after those bytes — the end of the stream is signaled distinctly
    /// from errors, which only a zlib stream raises, on truncated or
    /// corrupt data.
    pub fn read(&mut self, n: usize) -> (r: Result<Vec<u8>, Error>)
        ensures
            old(self).remaining().len() >= n ==> r is Ok,
            old(self).is_buffered() ==> r is Ok,
            match r {
                Ok(v) => v@.len() <= n && v@ == old(self).remaining().take(v@.len() as int)
                    && final(self).remaining() == old(self).remaining().skip(v@.len() as int)
                    && (v@.len() < n ==> old(self).remaining().len() == v@.len())
                    && final(self).is_raw() == old(self).is_raw()
                    && final(self).is_buffered() == old(self).is_buffered()
                    && final(self).pending_data_error() == old(self).pending_data_error(),
                Err(e) => (e is NotSwf || e is IoError) && !old(self).is_buffered()
                    && (e is IoError <==> old(self).pending_data_error()),
            },
    {
        let mut v: Vec<u8> = Vec::new();
        let mut i: usize = 0;
        while i < n
            invariant
                i <= n,
                v@.len() == i,
                v@ == old(self).remaining().take(i as int),
                i <= old(self).remaining().len(),
                self.remaining() == old(self).remaining().skip(i as int),
                self.is_raw() == old(self).is_raw(),
                self.is_buffered() == old(self).is_buffered(),
                self.pending_data_error() == old(self).pending_data_error(),
            decreases n - i,
        {
            match self.read_opt() {
                Ok(Some(b)) => {
                    v.push(b);
                    i = i + 1;
                    proof {
                        assert(self.remaining() =~= old(self).remaining().skip(i as int));
                        assert(v@ =~= old(self).remaining().take(i as int));
                    }
                },
                Ok(None) => {
                    proof {
                        assert(self.remaining() =~= old(self).remaining().skip(i as int));
                        assert(v@ =~= old(self).remaining().take(i as int));
                    }
                    return Ok(v);
                },
                Err(e) => {
                    return Err(e);
                },
            }
        }
        Ok(v)
    }

    /// Reads exactly `n` bytes of the stream, in order. The read
    /// succeeds whenever the stream has `n` bytes left to yield; a
    /// stream that ends before that is a `NotSwf`, and a zlib stream
    /// may instead fail on truncated or corrupt data. To tell a clean
    /// end of stream apart from a failure, use [`DecodedSwf::read`].
    pub fn read_bytes(&mut self, n: usize) -> (r: Result<Vec<u8>, Error>)
        ensures
            old(self).remaining().len() >= n ==> r is Ok,
            match r {
                Ok(v) => old(self).remaining().len() >= n
                    && v@ == old(self).remaining().take(n as int)
                    && final(self).remaining() == old(self).remaining().skip(n as int)
                    && final(self).is_raw() == old(self).is_raw()
                    && final(self).is_buffered() == old(self).is_buffered()
                    && final(self).pending_data_error() == old(self).pending_data_error(),
                Err(e) => (e is NotSwf || e is IoError)
                    && (e is IoError <==> old(self).pending_data_error())
                    && (old(self).is_buffered() ==> e is NotSwf),
            },
    {
        let mut v: Vec<u8> = Vec::new();
        let mut i: usize = 0;
        while i < n
            invariant
                i <= n,
                v@ == old(self).remaining().take(i as int),
                i <= old(self).remaining().len(),
                self.remaining() == old(self).remaining().skip(i as int),
                self.is_raw() == old(self).is_raw(),
                self.is_buffered() == old(self).is_buffered(),
                self.pending_data_error() == old(self).pending_data_error(),
            decreases n - i,
        {
            let b = match self.read_u8() {
                Ok(b) => b,
                Err(e) => {
                    return Err(e);
                },
            };
            v.push(b);
            i = i + 1;
            proof {
                assert(self.remaining() =~= old(self).remaining().skip(i as int));
                assert(v@ =~= old(self).remaining().take(i as int));
            }
        }
        Ok(v)
    }
}

} // verus!
