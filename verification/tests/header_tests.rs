use swf_headers::{DecodedSwf, Error, Signature, SwfHeaders};

/// The header tail as it travels through the (possibly compressed)
/// stream: a stage-bounds record with nbits = 6 and fields 0, 40, 0, 60,
/// then frame-rate bytes (0, 24), then frame count 5 little-endian.
fn tail_bytes() -> Vec<u8> {
    vec![0x30, 0x14, 0x01, 0xE0, 0, 24, 5, 0]
}

/// A minimal synthetic uncompressed container: FWS, magic, version 9,
/// claimed length 100, then the tail and any extra trailing bytes.
fn uncompressed_file(extra: &[u8]) -> Vec<u8> {
    let mut v = vec![b'F', 0x57, 0x53, 9, 100, 0, 0, 0];
    v.extend_from_slice(&tail_bytes());
    v.extend_from_slice(extra);
    v
}

fn zlib_file(extra: &[u8]) -> Vec<u8> {
    let mut body = tail_bytes();
    body.extend_from_slice(extra);
    let mut enc = flate2::write::ZlibEncoder::new(Vec::new(), flate2::Compression::default());
    std::io::Write::write_all(&mut enc, &body).unwrap();
    let compressed = enc.finish().unwrap();
    let mut v = vec![b'C', 0x57, 0x53, 9, 100, 0, 0, 0];
    v.extend_from_slice(&compressed);
    v
}

#[test]
fn parses_minimal_uncompressed_container() {
    let (headers, _) = SwfHeaders::read_from(uncompressed_file(&[])).unwrap();
    assert_eq!(headers.signature(), Signature::Uncompressed);
    assert_eq!(headers.version(), 9);
    assert_eq!(headers.file_length(), 100);
    assert_eq!(headers.dimensions_twips(), (40, 60));
    assert_eq!(headers.dimensions(), (2, 3));
    assert_eq!(headers.frame_rate(), 24);
    assert_eq!(headers.frame_count(), 5);
}

#[test]
fn continuation_stream_yields_trailing_bytes() {
    let (_, mut stream) = SwfHeaders::read_from(uncompressed_file(&[0xAA, 0xBB, 0xCC])).unwrap();
    let rest = stream.read_bytes(3).unwrap();
    assert_eq!(rest, vec![0xAA, 0xBB, 0xCC]);
    assert!(matches!(stream.read_u8(), Err(Error::NotSwf)));
}

#[test]
fn rejects_unknown_signature_byte() {
    let mut v = uncompressed_file(&[]);
    v[0] = b'X';
    assert!(matches!(SwfHeaders::read_from(v), Err(Error::NotSwf)));
}

#[test]
fn rejects_wrong_magic() {
    let mut v = uncompressed_file(&[]);
    v[1] = 0x58;
    assert!(matches!(SwfHeaders::read_from(v), Err(Error::NotSwf)));
    let mut w = uncompressed_file(&[]);
    w[2] = 0x54;
    assert!(matches!(SwfHeaders::read_from(w), Err(Error::NotSwf)));
}

#[test]
fn rejects_truncation_at_every_point() {
    let whole = uncompressed_file(&[]);
    for n in 0..whole.len() {
        let v = whole[..n].to_vec();
        assert!(matches!(SwfHeaders::read_from(v), Err(Error::NotSwf)));
    }
}

#[test]
fn fractional_frame_rate_aborts_parsing() {
    for low in [1u8, 7, 255] {
        let mut v = uncompressed_file(&[]);
        v[12] = low;
        assert!(matches!(
            SwfHeaders::read_from(v),
            Err(Error::FractionalFrameRate)
        ));
    }
}

#[test]
fn parses_zlib_compressed_container() {
    let (headers, mut stream) = SwfHeaders::read_from(zlib_file(&[1, 2, 3])).unwrap();
    assert_eq!(headers.signature(), Signature::ZlibCompressed);
    assert_eq!(headers.version(), 9);
    assert_eq!(headers.file_length(), 100);
    assert_eq!(headers.dimensions_twips(), (40, 60));
    assert_eq!(headers.dimensions(), (2, 3));
    assert_eq!(headers.frame_rate(), 24);
    assert_eq!(headers.frame_count(), 5);
    let rest = stream.read_bytes(3).unwrap();
    assert_eq!(rest, vec![1, 2, 3]);
}

#[test]
fn fractional_frame_rate_aborts_zlib_too() {
    let mut body = tail_bytes();
    body[4] = 9;
    let mut enc = flate2::write::ZlibEncoder::new(Vec::new(), flate2::Compression::default());
    std::io::Write::write_all(&mut enc, &body).unwrap();
    let compressed = enc.finish().unwrap();
    let mut v = vec![b'C', 0x57, 0x53, 9, 100, 0, 0, 0];
    v.extend_from_slice(&compressed);
    assert!(matches!(
        SwfHeaders::read_from(v),
        Err(Error::FractionalFrameRate)
    ));
}

#[test]
fn parses_lzma_compressed_container() {
    let mut body = tail_bytes();
    body.extend_from_slice(&[9, 8, 7]);
    let mut compressed = Vec::new();
    lzma_rs::lzma_compress(&mut std::io::Cursor::new(&body[..]), &mut compressed).unwrap();
    let mut v = vec![b'Z', 0x57, 0x53, 9, 100, 0, 0, 0];
    v.extend_from_slice(&compressed);
    let (headers, mut stream) = SwfHeaders::read_from(v).unwrap();
    assert_eq!(headers.signature(), Signature::LzmaCompressed);
    assert_eq!(headers.dimensions_twips(), (40, 60));
    assert_eq!(headers.dimensions(), (2, 3));
    assert_eq!(headers.frame_rate(), 24);
    assert_eq!(headers.frame_count(), 5);
    let rest = stream.read_bytes(3).unwrap();
    assert_eq!(rest, vec![9, 8, 7]);
    assert_eq!(stream.read(5).unwrap(), Vec::<u8>::new());
}

#[test]
fn rejects_malformed_lzma_stream_header() {
    let mut v = vec![b'Z', 0x57, 0x53, 9, 100, 0, 0, 0];
    v.extend_from_slice(&[0xFF; 13]);
    assert!(matches!(SwfHeaders::read_from(v), Err(Error::NotSwf)));
}

#[test]
fn corrupt_zlib_body_is_an_io_error() {
    let mut v = vec![b'C', 0x57, 0x53, 9, 100, 0, 0, 0];
    v.extend_from_slice(&[0xFF, 0xFF, 0xFF, 0xFF]);
    assert!(matches!(SwfHeaders::read_from(v), Err(Error::IoError(_))));
}

#[test]
fn truncated_zlib_body_fails() {
    let mut enc = flate2::write::ZlibEncoder::new(Vec::new(), flate2::Compression::default());
    std::io::Write::write_all(&mut enc, &tail_bytes()).unwrap();
    let compressed = enc.finish().unwrap();
    let mut v = vec![b'C', 0x57, 0x53, 9, 100, 0, 0, 0];
    v.extend_from_slice(&compressed[..4]);
    let r = SwfHeaders::read_from(v);
    assert!(matches!(r, Err(Error::NotSwf) | Err(Error::IoError(_))));
}

#[test]
fn dimensions_truncate_twips() {
    let h = SwfHeaders {
        signature: Signature::Uncompressed,
        version: 1,
        file_length: 0,
        width: 25,
        height: 19,
        frame_rate: 1,
        frame_count: 1,
    };
    assert_eq!(h.dimensions_twips(), (25, 19));
    assert_eq!(h.dimensions(), (1, 0));
    let g = SwfHeaders {
        width: 6000,
        height: 8500,
        ..h
    };
    assert_eq!(g.dimensions(), (300, 425));
}

#[test]
fn decompress_passthrough_reads_verbatim() {
    let mut s = DecodedSwf::decompress(vec![1, 2, 3], Signature::Uncompressed).unwrap();
    assert_eq!(s.read_bytes(2).unwrap(), vec![1, 2]);
    assert_eq!(s.read_u8().unwrap(), 3);
    assert!(matches!(s.read_u8(), Err(Error::NotSwf)));
}

#[test]
fn read_bytes_past_the_end_fails() {
    let mut s = DecodedSwf::decompress(vec![1, 2, 3], Signature::Uncompressed).unwrap();
    assert!(matches!(s.read_bytes(4), Err(Error::NotSwf)));
}

#[test]
fn parses_zero_width_stage_bounds() {
    // nbits = 0: the record is a single byte, all four fields empty.
    let v = vec![b'F', 0x57, 0x53, 9, 100, 0, 0, 0, 0x00, 0, 24, 5, 0];
    let (headers, _) = SwfHeaders::read_from(v).unwrap();
    assert_eq!(headers.dimensions_twips(), (0, 0));
    assert_eq!(headers.dimensions(), (0, 0));
    assert_eq!(headers.frame_rate(), 24);
    assert_eq!(headers.frame_count(), 5);
}

#[test]
fn parses_widest_stage_bounds() {
    // nbits = 31, every field bit set: the record is 17 bytes of 0xFF
    // and both extracted fields are the largest 31-bit value.
    let mut v = vec![b'F', 0x57, 0x53, 9, 100, 0, 0, 0];
    v.extend_from_slice(&[0xFF; 17]);
    v.extend_from_slice(&[0, 30, 7, 0]);
    let (headers, _) = SwfHeaders::read_from(v).unwrap();
    assert_eq!(headers.dimensions_twips(), (0x7FFF_FFFF, 0x7FFF_FFFF));
    assert_eq!(headers.dimensions(), (0x7FFF_FFFF / 20, 0x7FFF_FFFF / 20));
    assert_eq!(headers.frame_rate(), 30);
    assert_eq!(headers.frame_count(), 7);
}

#[test]
fn file_length_and_frame_count_are_little_endian() {
    let mut v = uncompressed_file(&[]);
    v[4] = 0x01;
    v[5] = 0x02;
    v[6] = 0x03;
    v[7] = 0x04;
    v[14] = 0x2C;
    v[15] = 0x01;
    let (headers, _) = SwfHeaders::read_from(v).unwrap();
    assert_eq!(headers.file_length(), 0x0403_0201);
    assert_eq!(headers.frame_count(), 300);
}

#[test]
fn read_signals_clean_end_distinctly() {
    let mut s = DecodedSwf::decompress(vec![1, 2, 3], Signature::Uncompressed).unwrap();
    assert_eq!(s.read(5).unwrap(), vec![1, 2, 3]);
    assert_eq!(s.read(2).unwrap(), Vec::<u8>::new());
}

#[test]
fn read_signals_zlib_clean_end_distinctly() {
    let (_, mut stream) = SwfHeaders::read_from(zlib_file(&[4, 5])).unwrap();
    assert_eq!(stream.read(10).unwrap(), vec![4, 5]);
    assert_eq!(stream.read(10).unwrap(), Vec::<u8>::new());
}

#[test]
fn read_reports_truncated_zlib_as_error_not_end() {
    let mut enc = flate2::write::ZlibEncoder::new(Vec::new(), flate2::Compression::default());
    std::io::Write::write_all(&mut enc, &[7u8; 64]).unwrap();
    let compressed = enc.finish().unwrap();
    let cut = compressed[..compressed.len() / 2].to_vec();
    let mut s = DecodedSwf::decompress(cut, Signature::ZlibCompressed).unwrap();
    let r = s.read(100);
    assert!(matches!(r, Err(Error::NotSwf) | Err(Error::IoError(_))));
}

#[test]
fn truncated_lzma_body_is_not_swf() {
    // The LZMA body is decoded in full at construction, so a stream cut
    // short anywhere is an unexpected end of data: a format mismatch.
    let mut compressed = Vec::new();
    lzma_rs::lzma_compress(&mut std::io::Cursor::new(&tail_bytes()[..]), &mut compressed).unwrap();
    let mut v = vec![b'Z', 0x57, 0x53, 9, 100, 0, 0, 0];
    v.extend_from_slice(&compressed[..compressed.len() - 3]);
    assert!(matches!(SwfHeaders::read_from(v), Err(Error::NotSwf)));
}

#[test]
fn truncated_lzma_stream_header_is_not_swf() {
    // The stream header runs out in the middle of the dictionary size:
    // an unexpected end of data, so a format mismatch, not an I/O error.
    let mut v = vec![b'Z', 0x57, 0x53, 9, 100, 0, 0, 0];
    v.extend_from_slice(&[93, 0, 0]);
    assert!(matches!(SwfHeaders::read_from(v), Err(Error::NotSwf)));
}
