//! The blend-file container: the 12-byte primary header and the fixed-layout
//! chunk headers of the linear record stream.

use vstd::prelude::*;

use crate::read_ext::Reader;
use crate::BlendError;

verus! {

/// Pointer width of the file: address fields are 4 or 8 bytes wide.
#[derive(Debug, Clone, Copy, PartialEq, Eq, Structural)]
pub enum BlendUsize {
    U32,
    U64,
}

impl BlendUsize {
    pub open spec fn spec_len(self) -> u8 {
        match self {
            BlendUsize::U32 => 4,
            BlendUsize::U64 => 8,
        }
    }

    /// The byte width of an address field under this pointer size.
    pub fn len(self) -> (r: u8)
        ensures
            r == self.spec_len(),
    {
        match self {
            BlendUsize::U32 => 4,
            BlendUsize::U64 => 8,
        }
    }

    /// The tag byte that selects this pointer width in the primary header.
    pub open spec fn spec_tag(self) -> u8 {
        match self {
            BlendUsize::U32 => 95,
            BlendUsize::U64 => 45,
        }
    }
}

/// Byte order of every multi-byte integer in the file.
#[derive(Debug, Clone, Copy, PartialEq, Eq, Structural)]
pub enum BlendEndian {
    LE,
    BE,
}

/// The value of a 2-byte group in the given byte order.
pub open spec fn spec_u16(e: BlendEndian, s: Seq<u8>) -> u16
    recommends
        s.len() == 2,
{
    match e {
        BlendEndian::LE => (s[0] + 0x100 * s[1]) as u16,
        BlendEndian::BE => (s[1] + 0x100 * s[0]) as u16,
    }
}

/// The value of a 4-byte group in the given byte order.
pub open spec fn spec_u32(e: BlendEndian, s: Seq<u8>) -> u32
    recommends
        s.len() == 4,
{
    match e {
        BlendEndian::LE => (s[0] + 0x100 * s[1] + 0x10000 * s[2] + 0x1000000 * s[3]) as u32,
        BlendEndian::BE => (s[3] + 0x100 * s[2] + 0x10000 * s[1] + 0x1000000 * s[0]) as u32,
    }
}

/// The value of an 8-byte group in the given byte order.
pub open spec fn spec_u64(e: BlendEndian, s: Seq<u8>) -> u64
    recommends
        s.len() == 8,
{
    match e {
        BlendEndian::LE => (s[0] + 0x100 * s[1] + 0x10000 * s[2] + 0x1000000 * s[3] + 0x100000000
            * s[4] + 0x10000000000 * s[5] + 0x1000000000000 * s[6] + 0x100000000000000
            * s[7]) as u64,
        BlendEndian::BE => (s[7] + 0x100 * s[6] + 0x10000 * s[5] + 0x1000000 * s[4] + 0x100000000
            * s[3] + 0x10000000000 * s[2] + 0x1000000000000 * s[1] + 0x100000000000000
            * s[0]) as u64,
    }
}

/// The 2-byte encoding of a value in the given byte order.
pub open spec fn spec_u16_bytes(e: BlendEndian, v: u16) -> Seq<u8> {
    match e {
        BlendEndian::LE => seq![(v % 0x100) as u8, ((v / 0x100) % 0x100) as u8],
        BlendEndian::BE => seq![((v / 0x100) % 0x100) as u8, (v % 0x100) as u8],
    }
}

/// The 4-byte encoding of a value in the given byte order.
pub open spec fn spec_u32_bytes(e: BlendEndian, v: u32) -> Seq<u8> {
    match e {
        BlendEndian::LE => seq![
            (v % 0x100) as u8,
            ((v / 0x100) % 0x100) as u8,
            ((v / 0x10000) % 0x100) as u8,
            ((v / 0x1000000) % 0x100) as u8,
        ],
        BlendEndian::BE => seq![
            ((v / 0x1000000) % 0x100) as u8,
            ((v / 0x10000) % 0x100) as u8,
            ((v / 0x100) % 0x100) as u8,
            (v % 0x100) as u8,
        ],
    }
}

/// Decoding the 2-byte encoding of a value gives the value back.
pub proof fn lemma_u16_round_trip(e: BlendEndian, v: u16)
    ensures
        spec_u16(e, spec_u16_bytes(e, v)) == v,
{
    assert(v % 0x100 + 0x100 * ((v / 0x100) % 0x100) == v) by (bit_vector);
}

/// Decoding the 4-byte encoding of a value gives the value back.
pub proof fn lemma_u32_round_trip(e: BlendEndian, v: u32)
    ensures
        spec_u32(e, spec_u32_bytes(e, v)) == v,
{
    assert(v % 0x100 + 0x100 * ((v / 0x100) % 0x100) + 0x10000 * ((v / 0x10000) % 0x100)
        + 0x1000000 * ((v / 0x1000000) % 0x100) == v) by (bit_vector);
}

impl BlendEndian {
    /// The tag byte that selects this byte order in the primary header.
    pub open spec fn spec_tag(self) -> u8 {
        match self {
            BlendEndian::LE => 118,
            BlendEndian::BE => 86,
        }
    }

    /// Decodes a 2-byte group in this byte order.
    pub fn u16(self, buf: [u8; 2]) -> (r: u16)
        ensures
            r == spec_u16(self, buf@),
    {
        match self {
            BlendEndian::LE => buf[0] as u16 + 0x100 * (buf[1] as u16),
            BlendEndian::BE => buf[1] as u16 + 0x100 * (buf[0] as u16),
        }
    }

    /// Decodes a 4-byte group in this byte order.
    pub fn u32(self, buf: [u8; 4]) -> (r: u32)
        ensures
            r == spec_u32(self, buf@),
    {
        match self {
            BlendEndian::LE => buf[0] as u32 + 0x100 * (buf[1] as u32) + 0x10000 * (buf[2] as u32)
                + 0x1000000 * (buf[3] as u32),
            BlendEndian::BE => buf[3] as u32 + 0x100 * (buf[2] as u32) + 0x10000 * (buf[1] as u32)
                + 0x1000000 * (buf[0] as u32),
        }
    }

    /// Decodes an 8-byte group in this byte order.
    pub fn u64(self, buf: [u8; 8]) -> (r: u64)
        ensures
            r == spec_u64(self, buf@),
    {
        match self {
            BlendEndian::LE => buf[0] as u64 + 0x100 * (buf[1] as u64) + 0x10000 * (buf[2] as u64)
                + 0x1000000 * (buf[3] as u64) + 0x100000000 * (buf[4] as u64) + 0x10000000000 * (
            buf[5] as u64) + 0x1000000000000 * (buf[6] as u64) + 0x100000000000000 * (
            buf[7] as u64),
            BlendEndian::BE => buf[7] as u64 + 0x100 * (buf[6] as u64) + 0x10000 * (buf[5] as u64)
                + 0x1000000 * (buf[4] as u64) + 0x100000000 * (buf[3] as u64) + 0x10000000000 * (
            buf[2] as u64) + 0x1000000000000 * (buf[1] as u64) + 0x100000000000000 * (
            buf[0] as u64),
        }
    }

    /// Reads and decodes the next 4-byte group from the cursor.
    pub fn read_u32(self, read: &mut Reader) -> (r: Result<u32, BlendError>)
        requires
            old(read).wf(),
        ensures
            final(read).wf(),
            final(read).data@ == old(read).data@,
            (match r {
                Ok(v) => old(read).pos + 4 <= old(read).data@.len() && v == spec_u32(
                    self,
                    old(read).data@.subrange(old(read).pos as int, old(read).pos + 4),
                ) && final(read).pos == old(read).pos + 4,
                Err(e) => old(read).pos + 4 > old(read).data@.len() && e == BlendError::Truncated(
                    old(read).pos,
                ) && final(read).pos == old(read).pos,
            }),
    {
        match read.read_exact_array::<4>() {
            Ok(a) => Ok(self.u32(a)),
            Err(e) => Err(e),
        }
    }

    /// Reads and decodes the next 8-byte group from the cursor.
    pub fn read_u64(self, read: &mut Reader) -> (r: Result<u64, BlendError>)
        requires
            old(read).wf(),
        ensures
            final(read).wf(),
            final(read).data@ == old(read).data@,
            (match r {
                Ok(v) => old(read).pos + 8 <= old(read).data@.len() && v == spec_u64(
                    self,
                    old(read).data@.subrange(old(read).pos as int, old(read).pos + 8),
                ) && final(read).pos == old(read).pos + 8,
                Err(e) => old(read).pos + 8 > old(read).data@.len() && e == BlendError::Truncated(
                    old(read).pos,
                ) && final(read).pos == old(read).pos,
            }),
    {
        match read.read_exact_array::<8>() {
            Ok(a) => Ok(self.u64(a)),
            Err(e) => Err(e),
        }
    }
}

/// The three ASCII digits of the file version, kept as raw digit bytes.
#[derive(Debug, Clone, Copy, PartialEq, Eq, Structural)]
pub struct BlendVersion {
    pub major: u8,
    pub minor: u8,
    pub patch: u8,
}

/// The decoded primary header: the whole-file decoding context.
#[derive(Debug, Clone, Copy, PartialEq, Eq, Structural)]
pub struct BlendHeader {
    pub pointer_width: BlendUsize,
    pub endian: BlendEndian,
    pub version: BlendVersion,
}

pub open spec fn spec_is_digit(b: u8) -> bool {
    48 <= b <= 57
}

/// A header is well formed when its version bytes are ASCII digits; the other
/// two fields are enumerations and carry no further constraint.
pub open spec fn header_wf(h: BlendHeader) -> bool {
    spec_is_digit(h.version.major) && spec_is_digit(h.version.minor) && spec_is_digit(
        h.version.patch,
    )
}

/// The format magic stands at `from`.
pub open spec fn spec_is_magic(data: Seq<u8>, from: int) -> bool {
    &&& 0 <= from
    &&& from + 7 <= data.len()
    &&& data[from] == 66
    &&& data[from + 1] == 76
    &&& data[from + 2] == 69
    &&& data[from + 3] == 78
    &&& data[from + 4] == 68
    &&& data[from + 5] == 69
    &&& data[from + 6] == 82
}

/// What decoding the 12 primary-header bytes at `from` yields.
pub open spec fn spec_read_header(data: Seq<u8>, from: int) -> Result<BlendHeader, BlendError> {
    if from < 0 || from + 12 > data.len() {
        Err(BlendError::Truncated(from as usize))
    } else if !spec_is_magic(data, from) {
        Err(BlendError::Magic)
    } else if data[from + 7] != 95 && data[from + 7] != 45 {
        Err(BlendError::PointerSize(data[from + 7]))
    } else if data[from + 8] != 118 && data[from + 8] != 86 {
        Err(BlendError::Endian(data[from + 8]))
    } else if !(spec_is_digit(data[from + 9]) && spec_is_digit(data[from + 10]) && spec_is_digit(
        data[from + 11],
    )) {
        Err(BlendError::Version(data[from + 9], data[from + 10], data[from + 11]))
    } else {
        Ok(
            BlendHeader {
                pointer_width: if data[from + 7] == 95 {
                    BlendUsize::U32
                } else {
                    BlendUsize::U64
                },
                endian: if data[from + 8] == 118 {
                    BlendEndian::LE
                } else {
                    BlendEndian::BE
                },
                version: BlendVersion {
                    major: data[from + 9],
                    minor: data[from + 10],
                    patch: data[from + 11],
                },
            },
        )
    }
}

/// The 12-byte encoding of a primary header.
pub open spec fn spec_encode_header(h: BlendHeader) -> Seq<u8> {
    seq![
        66,
        76,
        69,
        78,
        68,
        69,
        82,
        h.pointer_width.spec_tag(),
        h.endian.spec_tag(),
        h.version.major,
        h.version.minor,
        h.version.patch,
    ]
}

/// Decoding the encoding of any well-formed primary header gives the header
/// back, for every combination of pointer width, endianness and version.
pub proof fn lemma_header_round_trip(h: BlendHeader)
    requires
        header_wf(h),
    ensures
        spec_read_header(spec_encode_header(h), 0) == Ok::<BlendHeader, BlendError>(h),
{
}

/// Decodes the 12-byte primary header from the front of the stream. On
/// success the cursor has consumed exactly 12 bytes; on failure it has not
/// moved.
pub fn read_header(read: &mut Reader) -> (r: Result<BlendHeader, BlendError>)
    requires
        old(read).wf(),
    ensures
        final(read).wf(),
        final(read).data@ == old(read).data@,
        r == spec_read_header(old(read).data@, old(read).pos as int),
        (match r {
            Ok(_) => final(read).pos == old(read).pos + 12,
            Err(_) => final(read).pos == old(read).pos,
        }),
{
    if read.remaining() < 12 {
        return Err(BlendError::Truncated(read.pos));
    }
    let p = read.pos;
    let d = &read.data;
    if !(d[p] == 66 && d[p + 1] == 76 && d[p + 2] == 69 && d[p + 3] == 78 && d[p + 4]
        == 68 && d[p + 5] == 69 && d[p + 6] == 82) {
        return Err(BlendError::Magic);
    }
    let width_tag = d[p + 7];
    let pointer_width = if width_tag == 95 {
        BlendUsize::U32
    } else if width_tag == 45 {
        BlendUsize::U64
    } else {
        return Err(BlendError::PointerSize(width_tag));
    };
    let endian_tag = d[p + 8];
    let endian = if endian_tag == 118 {
        BlendEndian::LE
    } else if endian_tag == 86 {
        BlendEndian::BE
    } else {
        return Err(BlendError::Endian(endian_tag));
    };
    let (major, minor, patch) = (d[p + 9], d[p + 10], d[p + 11]);
    if !(48 <= major && major <= 57 && 48 <= minor && minor <= 57 && 48 <= patch && patch
        <= 57) {
        return Err(BlendError::Version(major, minor, patch));
    }
    read.pos = p + 12;
    Ok(BlendHeader { pointer_width, endian, version: BlendVersion { major, minor, patch } })
}

/// Encodes a primary header back into its 12 bytes.
pub fn encode_header(h: &BlendHeader) -> (r: Vec<u8>)
    ensures
        r@ == spec_encode_header(*h),
{
    let mut v: Vec<u8> = Vec::new();
    v.push(66);
    v.push(76);
    v.push(69);
    v.push(78);
    v.push(68);
    v.push(69);
    v.push(82);
    v.push(
        match h.pointer_width {
            BlendUsize::U32 => 95,
            BlendUsize::U64 => 45,
        },
    );
    v.push(
        match h.endian {
            BlendEndian::LE => 118,
            BlendEndian::BE => 86,
        },
    );
    v.push(h.version.major);
    v.push(h.version.minor);
    v.push(h.version.patch);
    proof {
        assert(v@ =~= spec_encode_header(*h));
    }
    v
}

/// The 4-byte record tag of a chunk: any 4 bytes are accepted verbatim.
#[derive(Debug, Clone, Copy, PartialEq, Eq)]
pub struct BlendChunkCode(pub [u8; 4]);

impl View for BlendChunkCode {
    type V = Seq<u8>;

    open spec fn view(&self) -> Seq<u8> {
        self.0@
    }
}

impl BlendChunkCode {
    /// Whether this code equals the given 4 bytes.
    pub fn is(&self, other: [u8; 4]) -> (r: bool)
        ensures
            r == (self@ == other@),
    {
        let r = self.0[0] == other[0] && self.0[1] == other[1] && self.0[2] == other[2]
            && self.0[3] == other[3];
        proof {
            if r {
                assert(self.0@ =~= other@);
            }
        }
        r
    }
}

/// What the scan does with a chunk: buffer and decode its payload as the
/// schema, stop the scan, or stream the payload through as an opaque record.
#[derive(Debug, Clone, Copy, PartialEq, Eq, Structural)]
pub enum ChunkClass {
    Schema,
    Terminal,
    Other,
}

/// The class of a chunk code: the schema sentinel, the terminal sentinel, or
/// any other record tag.
pub open spec fn spec_classify(code: Seq<u8>) -> ChunkClass {
    if code == seq![68u8, 78, 65, 49] {
        ChunkClass::Schema
    } else if code == seq![69u8, 78, 68, 66] {
        ChunkClass::Terminal
    } else {
        ChunkClass::Other
    }
}

/// Classifies a chunk code. The scan decodes the payload of the schema chunk,
/// ends at the terminal chunk, and streams every other chunk through.
pub fn classify_chunk(code: &BlendChunkCode) -> (r: ChunkClass)
    ensures
        r == spec_classify(code@),
{
    let dna = [68u8, 78, 65, 49];
    let endb = [69u8, 78, 68, 66];
    proof {
        assert(dna@ =~= seq![68u8, 78, 65, 49]);
        assert(endb@ =~= seq![69u8, 78, 68, 66]);
    }
    if code.is(dna) {
        ChunkClass::Schema
    } else if code.is(endb) {
        ChunkClass::Terminal
    } else {
        ChunkClass::Other
    }
}

/// One record descriptor of the linear chunk stream.
#[derive(Debug)]
pub struct BlendChunkHeader {
    pub code: BlendChunkCode,
    pub size: u32,
    pub addr: u64,
    pub sdna: u32,
    pub count: u32,
}

/// The mathematical image of a chunk header.
#[verifier::ext_equal]
pub ghost struct ChunkHeaderV {
    pub code: Seq<u8>,
    pub size: u32,
    pub addr: u64,
    pub sdna: u32,
    pub count: u32,
}

impl View for BlendChunkHeader {
    type V = ChunkHeaderV;

    open spec fn view(&self) -> ChunkHeaderV {
        ChunkHeaderV {
            code: self.code@,
            size: self.size,
            addr: self.addr,
            sdna: self.sdna,
            count: self.count,
        }
    }
}

/// How many bytes one chunk header occupies: code, size, address, schema
/// index and element count, with the address 4 or 8 bytes wide.
pub open spec fn spec_chunk_header_size(w: BlendUsize) -> int {
    4 + 4 + w.spec_len() + 4 + 4
}

/// What decoding one chunk header at `from` yields under the given primary
/// header.
pub open spec fn spec_read_chunk_header(h: BlendHeader, data: Seq<u8>, from: int) -> Result<
    ChunkHeaderV,
    BlendError,
> {
    if from < 0 || from + spec_chunk_header_size(h.pointer_width) > data.len() {
        Err(BlendError::Truncated(from as usize))
    } else {
        let e = h.endian;
        let code = data.subrange(from, from + 4);
        let size = spec_u32(e, data.subrange(from + 4, from + 8));
        let addr = match h.pointer_width {
            BlendUsize::U32 => spec_u32(e, data.subrange(from + 8, from + 12)) as u64,
            BlendUsize::U64 => spec_u64(e, data.subrange(from + 8, from + 16)),
        };
        let off = from + 8 + h.pointer_width.spec_len();
        let sdna = spec_u32(e, data.subrange(off, off + 4));
        let count = spec_u32(e, data.subrange(off + 4, off + 8));
        Ok(ChunkHeaderV { code, size, addr, sdna, count })
    }
}

/// Decodes one chunk header. On success the cursor has consumed exactly
/// `4 + 4 + width + 4 + 4` bytes, where `width` is 4 or 8 per the primary
/// header; on failure it has not moved.
pub fn read_chunk_header(blend: &BlendHeader, read: &mut Reader) -> (r: Result<
    BlendChunkHeader,
    BlendError,
>)
    requires
        old(read).wf(),
    ensures
        final(read).wf(),
        final(read).data@ == old(read).data@,
        (match r {
            Ok(c) => spec_read_chunk_header(*blend, old(read).data@, old(read).pos as int)
                == Ok::<ChunkHeaderV, BlendError>(c@) && final(read).pos == old(read).pos
                + spec_chunk_header_size(blend.pointer_width),
            Err(e) => spec_read_chunk_header(*blend, old(read).data@, old(read).pos as int)
                == Err::<ChunkHeaderV, BlendError>(e) && final(read).pos == old(read).pos,
        }),
{
    let need: usize = match blend.pointer_width {
        BlendUsize::U32 => 20,
        BlendUsize::U64 => 24,
    };
    if read.remaining() < need {
        return Err(BlendError::Truncated(read.pos));
    }
    let p = read.pos;
    let d = &read.data;
    let e = blend.endian;
    let code = BlendChunkCode([d[p], d[p + 1], d[p + 2], d[p + 3]]);
    let size = e.u32([d[p + 4], d[p + 5], d[p + 6], d[p + 7]]);
    let addr: u64 = match blend.pointer_width {
        BlendUsize::U32 => e.u32([d[p + 8], d[p + 9], d[p + 10], d[p + 11]]) as u64,
        BlendUsize::U64 => e.u64(
            [d[p + 8], d[p + 9], d[p + 10], d[p + 11], d[p + 12], d[p + 13], d[p + 14], d[p + 15]],
        ),
    };
    let off: usize = match blend.pointer_width {
        BlendUsize::U32 => p + 12,
        BlendUsize::U64 => p + 16,
    };
    let sdna = e.u32([d[off], d[off + 1], d[off + 2], d[off + 3]]);
    let count = e.u32([d[off + 4], d[off + 5], d[off + 6], d[off + 7]]);
    proof {
        let data = read.data@;
        let from = p as int;
        assert(code@ =~= data.subrange(from, from + 4));
        assert(seq![data[from + 4], data[from + 5], data[from + 6], data[from + 7]] =~= data.subrange(
            from + 4,
            from + 8,
        ));
        assert(seq![data[from + 8], data[from + 9], data[from + 10], data[from + 11]]
            =~= data.subrange(from + 8, from + 12));
        if blend.pointer_width is U64 {
            assert(seq![
                data[from + 8],
                data[from + 9],
                data[from + 10],
                data[from + 11],
                data[from + 12],
                data[from + 13],
                data[from + 14],
                data[from + 15],
            ] =~= data.subrange(from + 8, from + 16));
        }
        let o = off as int;
        assert(seq![data[o], data[o + 1], data[o + 2], data[o + 3]] =~= data.subrange(o, o + 4));
        assert(seq![data[o + 4], data[o + 5], data[o + 6], data[o + 7]] =~= data.subrange(
            o + 4,
            o + 8,
        ));
    }
    read.pos = p + need;
    Ok(BlendChunkHeader { code, size, addr, sdna, count })
}

} // verus!
