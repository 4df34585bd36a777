//! A library for reading data from the header of a .swf file that can
//! also be used as the ground-works for a larger library that works on
//! parsing the rest.
//!
//! The header of a SWF file holds the compression scheme, version,
//! claimed file length, stage dimensions, frame rate and frame count.
//! Parsing it is decoded here once and for all: the parser hands back
//! the header fields together with a readable stream of everything just
//! after the header, with all compression issues sorted out.

mod bit_range;
mod decoded_swf;
mod error;

pub use bit_range::BitRange;
pub use bit_range::get_x_bit;
pub use decoded_swf::DecodedSwf;
pub use error::Error;

use vstd::prelude::*;
use vstd::arithmetic::div_mod::{
    lemma_div_is_ordered,
    lemma_div_plus_one,
    lemma_fundamental_div_mod,
};
use bit_range::{bits_val, lemma_bits_val_take};
use decoded_swf::{decoded_body, zlib_data_error};

verus! {

/// An enum representing all the valid signatures of a SWF file.
///
/// The first three bytes of a SWF file act as the magic numbers. FWS
/// (SWF backwards) designates an uncompressed SWF file; CWS specifies
/// that all bytes beyond the first 8 are compressed using zlib; ZWS
/// displays the same concept, but with LZMA instead of zlib.
#[derive(Copy, Clone, PartialEq, Eq, Structural, Debug)]
pub enum Signature {
    /// A signature of FWS, meaning an uncompressed SWF file.
    Uncompressed,
    /// A signature of CWS, meaning a zlib-compressed SWF file.
    ZlibCompressed,
    /// A signature of ZWS, meaning an LZMA-compressed SWF file.
    LzmaCompressed,
}

/// The signature, if any, selected by a first byte: `'F'`, `'C'` or
/// `'Z'`.
pub open spec fn spec_signature(b: u8) -> Option<Signature> {
    if b == 70 {
        Some(Signature::Uncompressed)
    } else if b == 67 {
        Some(Signature::ZlibCompressed)
    } else if b == 90 {
        Some(Signature::LzmaCompressed)
    } else {
        None
    }
}

/// A 16-bit little-endian integer assembled from two bytes.
pub open spec fn le16(lo: u8, hi: u8) -> u16 {
    (lo + hi * 0x100) as u16
}

/// A 32-bit little-endian integer assembled from four bytes.
pub open spec fn le32(b0: u8, b1: u8, b2: u8, b3: u8) -> u32 {
    (b0 + b1 * 0x100 + b2 * 0x1_0000 + b3 * 0x100_0000) as u32
}

/// The width in bits of each of the four fields of the stage-bounds
/// record, held in the top five bits of the record's first byte.
pub open spec fn rect_nbits(b0: u8) -> u8 {
    (b0 >> 3) & 0x1f
}

/// How many bytes of the stream the stage-bounds record occupies: its
/// first byte plus `(5 + 4 * nbits) / 8` more, with floor division.
/// `5 + 4 * nbits` is odd, so the flooring never cuts a needed byte:
/// these bytes cover all `5 + 4 * nbits` bits of the record.
pub open spec fn rect_len(b0: u8) -> int {
    1 + (5 + 4 * rect_nbits(b0)) / 8
}

/// The width field of the stage-bounds record at the front of `b`: the
/// second of its four `nbits`-wide fields (the first, nominally the
/// minimum on the x axis, is assumed zero and skipped).
pub open spec fn spec_rect_width(b: Seq<u8>) -> u32
    recommends
        b.len() >= 1,
{
    let n = rect_nbits(b[0]) as int;
    bits_val(b, 5 + n, 5 + 2 * n) as u32
}

/// The height field of the stage-bounds record at the front of `b`: the
/// fourth of its four `nbits`-wide fields (the third, nominally the
/// minimum on the y axis, is assumed zero and skipped).
pub open spec fn spec_rect_height(b: Seq<u8>) -> u32
    recommends
        b.len() >= 1,
{
    let n = rect_nbits(b[0]) as int;
    bits_val(b, 5 + 3 * n, 5 + 4 * n) as u32
}

/// Whether the input opens with a well-formed SWF prefix: a valid
/// signature byte, the two magic bytes `'W'` `'S'`, and enough bytes for
/// version and file length.
pub open spec fn prefix_valid(raw: Seq<u8>) -> bool {
    raw.len() >= 8 && spec_signature(raw[0]) is Some && raw[1] == 0x57 && raw[2] == 0x53
}

/// The contents of the continuation stream of the input: everything
/// beyond byte 8, decoded as the signature directs.
pub open spec fn spec_body(raw: Seq<u8>) -> Seq<u8>
    recommends
        prefix_valid(raw),
{
    decoded_body(spec_signature(raw[0]).unwrap(), raw.skip(8))
}

/// Whether the stream contents `b` hold a complete header tail: the
/// stage-bounds record, a whole-number frame rate (zero low byte) and
/// the frame count.
pub open spec fn tail_ok(b: Seq<u8>) -> bool {
    b.len() >= 1 && b.len() >= rect_len(b[0]) + 4 && b[rect_len(b[0])] == 0
}

/// Whether the stream contents `b` reach a frame-rate field whose low
/// byte is nonzero: a fractional frame rate, which parsing refuses.
pub open spec fn tail_fractional(b: Seq<u8>) -> bool {
    b.len() >= 1 && b.len() >= rect_len(b[0]) + 2 && b[rect_len(b[0])] != 0
}

/// How many stream bytes the header tail occupies: the stage-bounds
/// record, two frame-rate bytes and two frame-count bytes.
pub open spec fn tail_len(b: Seq<u8>) -> int
    recommends
        b.len() >= 1,
{
    rect_len(b[0]) + 4
}

/// The header record parsed out of an input with a valid prefix and a
/// complete tail.
pub open spec fn spec_headers(raw: Seq<u8>) -> SwfHeaders
    recommends
        prefix_valid(raw),
        tail_ok(spec_body(raw)),
{
    let b = spec_body(raw);
    SwfHeaders {
        signature: spec_signature(raw[0]).unwrap(),
        version: raw[3],
        file_length: le32(raw[4], raw[5], raw[6], raw[7]),
        width: spec_rect_width(b),
        height: spec_rect_height(b),
        frame_rate: b[rect_len(b[0]) + 1] as u16,
        frame_count: le16(b[rect_len(b[0]) + 2], b[rect_len(b[0]) + 3]),
    }
}

/// The primary struct, managing all the parsing and storage of SWF
/// header information.
#[derive(Copy, Clone, PartialEq, Eq, Structural, Debug)]
pub struct SwfHeaders {
    /// The signature found in the first byte.
    pub signature: Signature,
    /// The SWF version byte.
    pub version: u8,
    /// The total file length the header claims, never verified.
    pub file_length: u32,
    /// The stage width in twips.
    pub width: u32,
    /// The stage height in twips.
    pub height: u32,
    /// The whole-number frame rate.
    pub frame_rate: u16,
    /// The frame count.
    pub frame_count: u16,
}

impl SwfHeaders {
    /// Takes the bytes of a SWF file and parses its headers, returning
    /// the header struct along with a readable [`DecodedSwf`] if you
    /// wish to continue parsing the file.
    ///
    /// A bad prefix, data that runs out inside the header, or a
    /// malformed, truncated or corrupt LZMA body is a
    /// [`Error::NotSwf`]; a frame rate with a nonzero low byte is the
    /// dedicated [`Error::FractionalFrameRate`]; only zlib decoder
    /// failures on corrupt data surface as [`Error::IoError`].
    pub fn read_from(data: Vec<u8>) -> (r: Result<(SwfHeaders, DecodedSwf), Error>)
        ensures
            ({
                let raw = data@;
                let b = spec_body(raw);
                &&& !prefix_valid(raw) ==> (r matches Err(e) && e is NotSwf)
                &&& (r matches Ok(p) ==> prefix_valid(raw) && tail_ok(b) && p.0 == spec_headers(
                    raw,
                ) && p.1.remaining() == b.skip(tail_len(b)) && (p.1.is_raw() <==> raw[0] == 70) && (
                p.1.is_buffered() <==> raw[0] != 67))
                &&& ((r matches Err(e) && e is FractionalFrameRate) <==> (prefix_valid(raw)
                    && tail_fractional(b)))
                &&& (prefix_valid(raw) && tail_ok(b) ==> r is Ok)
                &&& (prefix_valid(raw) && raw[0] != 67 && !tail_ok(b) && !tail_fractional(b) ==> (
                r matches Err(e) && e is NotSwf))
                &&& (prefix_valid(raw) && raw[0] == 67 && !tail_ok(b) && !tail_fractional(b) ==> (
                r matches Err(e) && (e is IoError <==> zlib_data_error(raw.skip(8)))))
                &&& (r matches Err(e) ==> e is NotSwf || e is IoError || e is FractionalFrameRate)
            }),
    {
        let ghost raw = data@;
        let mut data = data;
        if data.len() < 8 {
            return Err(Error::NotSwf);
        }
        // Get the signature.
        let sig = match data[0] {
            70u8 => Signature::Uncompressed,
            67u8 => Signature::ZlibCompressed,
            90u8 => Signature::LzmaCompressed,
            _ => {
                return Err(Error::NotSwf);
            },
        };
        // Verify that the magic numbers are correct.
        if !(data[1] == 0x57 && data[2] == 0x53) {
            return Err(Error::NotSwf);
        }
        // Get the version and the claimed file length, little-endian.
        let version = data[3];
        let file_length = (data[4] as u32) + (data[5] as u32) * 0x100 + (data[6] as u32) * 0x1_0000
            + (data[7] as u32) * 0x100_0000;
        proof {
            assert(prefix_valid(raw));
            assert(version == raw[3]);
            assert(file_length == le32(raw[4], raw[5], raw[6], raw[7]));
        }
        // From this point on (the 8th byte), the rest of the file may be
        // compressed, so all further reads go through a decoded stream.
        let body = data.split_off(8);
        proof {
            assert(body@ =~= raw.skip(8));
        }
        let mut stream = match DecodedSwf::decompress(body, sig) {
            Ok(s) => s,
            Err(e) => {
                return Err(e);
            },
        };
        let ghost b = spec_body(raw);
        proof {
            assert(stream.remaining() == b);
        }
        // The stage bounds are a variable-width bit-packed record.
        let (width, height) = match parse_rect(&mut stream) {
            Ok(p) => p,
            Err(e) => {
                return Err(e);
            },
        };
        proof {
            assert(b.len() >= rect_len(b[0]));
            assert(stream.remaining() =~= b.skip(rect_len(b[0])));
        }
        // The frame rate is stored as a fixed-point number; a nonzero
        // low byte would carry a fraction, which is not supported.
        let frame_rate_lower = match stream.read_u8() {
            Ok(x) => x,
            Err(e) => {
                return Err(e);
            },
        };
        proof {
            assert(frame_rate_lower == b[rect_len(b[0])]);
            assert(stream.remaining() =~= b.skip(rect_len(b[0]) + 1));
        }
        let frame_rate_upper = match stream.read_u8() {
            Ok(x) => x,
            Err(e) => {
                return Err(e);
            },
        };
        proof {
            assert(frame_rate_upper == b[rect_len(b[0]) + 1]);
            assert(stream.remaining() =~= b.skip(rect_len(b[0]) + 2));
        }
        if frame_rate_lower != 0 {
            return Err(Error::FractionalFrameRate);
        }
        let frame_rate = frame_rate_upper as u16;
        // The frame count, little-endian.
        let frame_count_lower = match stream.read_u8() {
            Ok(x) => x,
            Err(e) => {
                return Err(e);
            },
        };
        proof {
            assert(frame_count_lower == b[rect_len(b[0]) + 2]);
            assert(stream.remaining() =~= b.skip(rect_len(b[0]) + 3));
        }
        let frame_count_upper = match stream.read_u8() {
            Ok(x) => x,
            Err(e) => {
                return Err(e);
            },
        };
        proof {
            assert(frame_count_upper == b[rect_len(b[0]) + 3]);
            assert(stream.remaining() =~= b.skip(tail_len(b)));
        }
        let frame_count = (frame_count_lower as u16) + (frame_count_upper as u16) * 0x100;
        let headers = SwfHeaders {
            signature: sig,
            version,
            file_length,
            width,
            height,
            frame_rate,
            frame_count,
        };
        proof {
            assert(tail_ok(b));
            assert(headers == spec_headers(raw));
        }
        Ok((headers, stream))
    }

    /// Returns the signature as an enum representing all valid values.
    pub fn signature(&self) -> (r: Signature)
        ensures
            r == self.signature,
    {
        self.signature
    }

    /// Returns the version number.
    pub fn version(&self) -> (r: u8)
        ensures
            r == self.version,
    {
        self.version
    }

    /// Returns the uncompressed total file length in bytes that the
    /// header claims.
    pub fn file_length(&self) -> (r: u32)
        ensures
            r == self.file_length,
    {
        self.file_length
    }

    /// Returns the dimensions in twips (the measurement unit flash
    /// uses, 1/20th of a pixel).
    pub fn dimensions_twips(&self) -> (r: (u32, u32))
        ensures
            r == (self.width, self.height),
    {
        (self.width, self.height)
    }

    /// Returns the dimensions in pixels: the twip values divided by 20
    /// component-wise, truncating.
    pub fn dimensions(&self) -> (r: (u32, u32))
        ensures
            r == (self.width / 20, self.height / 20),
    {
        (self.width / 20, self.height / 20)
    }

    /// Returns the frame rate (fractional frame rates are refused at
    /// parse time, so this is the whole number from the high byte).
    pub fn frame_rate(&self) -> (r: u16)
        ensures
            r == self.frame_rate,
    {
        self.frame_rate
    }

    /// Returns the frame count.
    pub fn frame_count(&self) -> (r: u16)
        ensures
            r == self.frame_count,
    {
        self.frame_count
    }
}

/// Exactly the first bytes `'F'`, `'C'` and `'Z'` name a signature, one
/// compression strategy each; every other first byte names none.
pub proof fn lemma_signature_bytes()
    ensures
        spec_signature(70) == Some(Signature::Uncompressed),
        spec_signature(67) == Some(Signature::ZlibCompressed),
        spec_signature(90) == Some(Signature::LzmaCompressed),
        forall|b: u8| b != 70 && b != 67 && b != 90 ==> spec_signature(b) is None,
{
}

/// Reads the variable-width stage-bounds record from the front of the
/// stream: one byte holding `nbits`, then enough bytes to cover the four
/// `nbits`-wide fields, of which the second and fourth are handed back
/// as width and height.
fn parse_rect(stream: &mut DecodedSwf) -> (r: Result<(u32, u32), Error>)
    ensures
        ({
            let b = old(stream).remaining();
            &&& (b.len() >= 1 && b.len() >= rect_len(b[0])) ==> (r matches Ok(p) && p.0
                == spec_rect_width(b) && p.1 == spec_rect_height(b))
            &&& (r matches Ok(p) ==> b.len() >= 1 && b.len() >= rect_len(b[0])
                && final(stream).remaining() == b.skip(rect_len(b[0]))
                && final(stream).is_raw() == old(stream).is_raw()
                && final(stream).is_buffered() == old(stream).is_buffered()
                && final(stream).pending_data_error() == old(stream).pending_data_error())
            &&& (r matches Err(e) ==> (e is NotSwf || e is IoError)
                && (e is IoError <==> old(stream).pending_data_error())
                && (old(stream).is_buffered() ==> e is NotSwf))
        }),
{
    let ghost b = old(stream).remaining();
    let first_byte = match stream.read_u8() {
        Ok(x) => x,
        Err(e) => {
            return Err(e);
        },
    };
    let nbits: u32 = ((first_byte >> 3) & 0b0001_1111) as u32;
    let nbytes: u32 = (5 + nbits * 4) / 8;
    proof {
        assert(first_byte == b[0]);
        assert((first_byte >> 3) & 0x1f <= 31) by (bit_vector);
        assert(nbits == rect_nbits(b[0]));
        assert(1 + nbytes == rect_len(b[0]));
    }
    let mut bytes: Vec<u8> = Vec::new();
    bytes.push(first_byte);
    proof {
        assert(bytes@ =~= b.take(1));
    }
    let mut k: u32 = 0;
    while k < nbytes
        invariant
            k <= nbytes,
            nbits <= 31,
            nbits == rect_nbits(b[0]),
            nbytes == (5 + nbits * 4) / 8,
            b == old(stream).remaining(),
            b.len() >= 1 + k,
            1 + nbytes == rect_len(b[0]),
            bytes@ == b.take(1 + k as int),
            stream.remaining() == b.skip(1 + k as int),
            stream.is_raw() == old(stream).is_raw(),
            stream.is_buffered() == old(stream).is_buffered(),
            stream.pending_data_error() == old(stream).pending_data_error(),
        decreases nbytes - k,
    {
        let byte = match stream.read_u8() {
            Ok(x) => x,
            Err(e) => {
                return Err(e);
            },
        };
        bytes.push(byte);
        k = k + 1;
        proof {
            assert(stream.remaining() =~= b.skip(1 + k as int));
            assert(bytes@ =~= b.take(1 + k as int));
        }
    }
    proof {
        let n = nbits as int;
        lemma_div_plus_one(5 + 4 * n, 8);
        lemma_div_is_ordered(12 + 2 * n, 13 + 4 * n, 8);
        lemma_div_is_ordered(12 + 4 * n, 13 + 4 * n, 8);
        assert((5 + 2 * n + 7) / 8 <= bytes@.len());
        assert((5 + 4 * n + 7) / 8 <= bytes@.len());
    }
    let width = bytes.get_bit_range(5 + nbits..5 + nbits * 2);
    let height = bytes.get_bit_range(5 + nbits * 3..5 + nbits * 4);
    proof {
        let n = nbits as int;
        let len = rect_len(b[0]);
        lemma_fundamental_div_mod(5 + 4 * n, 8);
        assert(5 + 4 * n <= len * 8);
        lemma_bits_val_take(b, len, 5 + n, 5 + 2 * n);
        lemma_bits_val_take(b, len, 5 + 3 * n, 5 + 4 * n);
        assert(bytes@ == b.take(len));
        assert(width == spec_rect_width(b));
        assert(height == spec_rect_height(b));
    }
    Ok((width, height))
}

} // verus!

