use blend2zip::{
    classify_chunk, copy, encode_header, read_chunk_header, read_header, render_chunk_meta,
    render_header, BlendChunkCode, BlendEndian, BlendError, BlendHeader, BlendUsize, BlendVersion,
    ChunkClass, Reader,
};

fn header(w: BlendUsize, e: BlendEndian, v: &[u8; 3]) -> BlendHeader {
    BlendHeader {
        pointer_width: w,
        endian: e,
        version: BlendVersion { major: v[0], minor: v[1], patch: v[2] },
    }
}

#[test]
fn header_scenario_little_endian_32bit() {
    let mut r = Reader::new(b"BLENDER_v300".to_vec());
    let h = read_header(&mut r).unwrap();
    assert_eq!(h.pointer_width, BlendUsize::U32);
    assert_eq!(h.endian, BlendEndian::LE);
    assert_eq!(h.version, BlendVersion { major: b'3', minor: b'0', patch: b'0' });
    assert_eq!(r.pos, 12);
}

#[test]
fn header_round_trip_all_combinations() {
    for w in [BlendUsize::U32, BlendUsize::U64] {
        for e in [BlendEndian::LE, BlendEndian::BE] {
            for v in [[b'3', b'0', b'0'], [b'2', b'7', b'9'], [b'9', b'9', b'9']] {
                let h = header(w, e, &v);
                let bytes = encode_header(&h);
                assert_eq!(bytes.len(), 12);
                let mut r = Reader::new(bytes);
                assert_eq!(read_header(&mut r).unwrap(), h);
            }
        }
    }
}

#[test]
fn header_errors_are_exact() {
    let mut r = Reader::new(b"BLENDEQ_v300".to_vec());
    assert_eq!(read_header(&mut r), Err(BlendError::Magic));
    assert_eq!(r.pos, 0);

    let mut r = Reader::new(b"BLENDER?v300".to_vec());
    assert_eq!(read_header(&mut r), Err(BlendError::PointerSize(b'?')));

    let mut r = Reader::new(b"BLENDER_x300".to_vec());
    assert_eq!(read_header(&mut r), Err(BlendError::Endian(b'x')));

    let mut r = Reader::new(b"BLENDER_v3a0".to_vec());
    assert_eq!(read_header(&mut r), Err(BlendError::Version(b'3', b'a', b'0')));

    let mut r = Reader::new(b"BLENDER_v30".to_vec());
    assert_eq!(read_header(&mut r), Err(BlendError::Truncated(0)));
}

#[test]
fn chunk_header_consumes_exactly_20_bytes_with_4_byte_pointers() {
    let h = header(BlendUsize::U32, BlendEndian::LE, b"300");
    let mut bytes = b"TEST".to_vec();
    bytes.extend(16u32.to_le_bytes());
    bytes.extend(0x1A2Bu32.to_le_bytes());
    bytes.extend(2u32.to_le_bytes());
    bytes.extend(3u32.to_le_bytes());
    bytes.extend(b"trailing");
    let mut r = Reader::new(bytes);
    let c = read_chunk_header(&h, &mut r).unwrap();
    assert_eq!(r.pos, 20);
    assert_eq!(c.code.0, *b"TEST");
    assert_eq!(c.size, 16);
    assert_eq!(c.addr, 0x1A2B);
    assert_eq!(c.sdna, 2);
    assert_eq!(c.count, 3);
}

#[test]
fn chunk_header_consumes_exactly_24_bytes_with_8_byte_pointers() {
    let h = header(BlendUsize::U64, BlendEndian::BE, b"300");
    let mut bytes = b"GLOB".to_vec();
    bytes.extend(7u32.to_be_bytes());
    bytes.extend(0x1122334455667788u64.to_be_bytes());
    bytes.extend(9u32.to_be_bytes());
    bytes.extend(1u32.to_be_bytes());
    let mut r = Reader::new(bytes);
    let c = read_chunk_header(&h, &mut r).unwrap();
    assert_eq!(r.pos, 24);
    assert_eq!(c.code.0, *b"GLOB");
    assert_eq!(c.size, 7);
    assert_eq!(c.addr, 0x1122334455667788);
    assert_eq!(c.sdna, 9);
    assert_eq!(c.count, 1);
}

#[test]
fn chunk_header_short_read_reports_position() {
    let h = header(BlendUsize::U64, BlendEndian::LE, b"300");
    let mut r = Reader::new(vec![0u8; 23]);
    assert_eq!(
        read_chunk_header(&h, &mut r).unwrap_err(),
        BlendError::Truncated(0)
    );
    assert_eq!(r.pos, 0);
}

#[test]
fn terminal_code_ends_scan_regardless_of_fields() {
    let h = header(BlendUsize::U32, BlendEndian::LE, b"300");
    for (size, addr, sdna, count) in
        [(0u32, 0u32, 0u32, 0u32), (0xFFFFFFFF, 7, 123, 9), (1, 0xFFFFFFFF, 0, 1)]
    {
        let mut bytes = b"ENDB".to_vec();
        bytes.extend(size.to_le_bytes());
        bytes.extend(addr.to_le_bytes());
        bytes.extend(sdna.to_le_bytes());
        bytes.extend(count.to_le_bytes());
        let mut r = Reader::new(bytes);
        let c = read_chunk_header(&h, &mut r).unwrap();
        assert_eq!(classify_chunk(&c.code), ChunkClass::Terminal);
    }
}

#[test]
fn chunk_codes_classify_schema_terminal_other() {
    assert_eq!(classify_chunk(&BlendChunkCode(*b"DNA1")), ChunkClass::Schema);
    assert_eq!(classify_chunk(&BlendChunkCode(*b"ENDB")), ChunkClass::Terminal);
    assert_eq!(classify_chunk(&BlendChunkCode(*b"TEST")), ChunkClass::Other);
    assert_eq!(classify_chunk(&BlendChunkCode(*b"DNA0")), ChunkClass::Other);
}

#[test]
fn endian_decoders_match_known_values() {
    assert_eq!(BlendEndian::LE.u16([0x34, 0x12]), 0x1234);
    assert_eq!(BlendEndian::BE.u16([0x12, 0x34]), 0x1234);
    assert_eq!(BlendEndian::LE.u32([0x78, 0x56, 0x34, 0x12]), 0x12345678);
    assert_eq!(BlendEndian::BE.u32([0x12, 0x34, 0x56, 0x78]), 0x12345678);
    assert_eq!(
        BlendEndian::LE.u64([8, 7, 6, 5, 4, 3, 2, 1]),
        0x0102030405060708
    );
    assert_eq!(
        BlendEndian::BE.u64([1, 2, 3, 4, 5, 6, 7, 8]),
        0x0102030405060708
    );
}

#[test]
fn stream_reads_consume_and_report_shortage() {
    let mut r = Reader::new(b"ab\0cd".to_vec());
    assert_eq!(r.read_byte().unwrap(), b'a');
    let s = r.read_cstr().unwrap();
    assert_eq!(s, b"b".to_vec());
    assert_eq!(r.pos, 3);
    assert_eq!(r.read_cstr().unwrap_err(), BlendError::Truncated(3));
    assert_eq!(r.pos, 3);
    let buf = r.read_exact_buffer(2).unwrap();
    assert_eq!(buf, b"cd".to_vec());
    assert_eq!(r.read_exact_buffer(1).unwrap_err(), BlendError::Truncated(5));
}

#[test]
fn bounded_take_never_reads_past_its_budget() {
    let mut r = Reader::new(b"0123456789".to_vec());
    let mut t = r.take_borrowed(4);
    let got = t.read(&mut r, 6);
    assert_eq!(got, b"0123".to_vec());
    assert_eq!(t.remaining(), 0);
    let got = t.read(&mut r, 6);
    assert_eq!(got, b"".to_vec());
    assert_eq!(r.pos, 4);

    let mut t = r.take_borrowed(20);
    let got = t.read(&mut r, 50);
    assert_eq!(got, b"456789".to_vec());
    assert_eq!(t.remaining(), 14);
}

#[test]
fn copy_takes_the_front_bytes() {
    let v = [1u8, 2, 3, 4, 5];
    let a: [u8; 3] = copy(&v);
    assert_eq!(a, [1, 2, 3]);
}

#[test]
fn header_summary_lists_the_three_fields() {
    let h = header(BlendUsize::U32, BlendEndian::LE, b"300");
    assert_eq!(
        render_header(&h),
        b"usize\tU32\nendian\tLE\nversion\t3.00\n".to_vec()
    );
    let h = header(BlendUsize::U64, BlendEndian::BE, b"405");
    assert_eq!(
        render_header(&h),
        b"usize\tU64\nendian\tBE\nversion\t4.05\n".to_vec()
    );
}

#[test]
fn chunk_artifacts_share_one_stem() {
    let h = header(BlendUsize::U32, BlendEndian::LE, b"300");
    let mut bytes = b"TEST".to_vec();
    bytes.extend(16u32.to_le_bytes());
    bytes.extend(0x1A2Bu32.to_le_bytes());
    bytes.extend(2u32.to_le_bytes());
    bytes.extend(3u32.to_le_bytes());
    let mut r = Reader::new(bytes);
    let c = read_chunk_header(&h, &mut r).unwrap();
    let stem = blend2zip::chunk_stem(&c);
    assert_eq!(stem, b"TEST/0x1A2B".to_vec());
    assert_eq!(
        render_chunk_meta(&c),
        b"code\tTEST\nsize\t0x10\naddr\t0x1A2B\nsdna\t0x2\ncount\t3\n".to_vec()
    );
}

#[test]
fn short_codes_render_up_to_the_first_nul() {
    let c = blend2zip::BlendChunkHeader {
        code: BlendChunkCode([b'G', b'L', 0, 0]),
        size: 0,
        addr: 0,
        sdna: 0,
        count: 0,
    };
    assert_eq!(blend2zip::chunk_stem(&c), b"GL/0x0".to_vec());
}

#[test]
fn formatting_helpers_match_reference_output() {
    assert_eq!(blend2zip::fmt_dec(0), b"0".to_vec());
    assert_eq!(blend2zip::fmt_dec(1234), b"1234".to_vec());
    assert_eq!(blend2zip::fmt_dec(18446744073709551615), b"18446744073709551615".to_vec());
    assert_eq!(blend2zip::fmt_hex(0), b"0".to_vec());
    assert_eq!(blend2zip::fmt_hex(255), b"FF".to_vec());
    assert_eq!(blend2zip::fmt_hex(0x1A2B), b"1A2B".to_vec());
}
