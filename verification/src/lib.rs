//! Decoder for the blend-file container format: the 12-byte primary header,
//! the linear chunk stream, and the embedded SDNA type catalog, together with
//! the renderers that project the decoded catalog into text artifacts.

use vstd::prelude::*;

mod blend;
mod byte_ext;
mod codec;

pub use codec::{
    cat_wf, lemma_cstrs_decode, lemma_dna1_round_trip, lemma_dna1_truncation,
    lemma_structs_decode, lemma_u16s_decode, no_nul, spec_enc_cstrs, spec_enc_fields,
    spec_enc_structs, spec_enc_u16s, spec_encode_dna1,
};
mod dna;
mod read_ext;
mod render;

pub use render::{
    chunk_stem, fmt_dec, fmt_hex, render_chunk_meta, render_header, render_index, render_struct,
    spec_chunk_meta, spec_chunk_stem, spec_dec, spec_hex, spec_render_header, spec_render_index,
    spec_render_struct, spec_struct_path, struct_ok, struct_path, struct_renderable,
};

pub use dna::{
    read_cstr_list, read_dna1, read_tlen_list, spec_cstr_list, spec_cstrs, spec_fields,
    spec_read_dna1, spec_structs, spec_tlen_list, spec_u16s, SchemaCatalog, SchemaCatalogV,
    StructDef, StructDefV,
};

pub use blend::{
    classify_chunk, encode_header, lemma_header_round_trip, read_chunk_header, read_header,
    spec_chunk_header_size, spec_classify, spec_encode_header, spec_read_chunk_header,
    spec_read_header, BlendChunkCode, BlendChunkHeader, BlendEndian, BlendHeader, BlendUsize,
    BlendVersion, ChunkClass, ChunkHeaderV,
};
pub use byte_ext::copy;
pub use read_ext::{BorrowedTake, Reader};

verus! {

/// Every failure the decoders can report. Offsets are byte positions into the
/// buffer being decoded, so a malformed input can be diagnosed in place.
#[derive(Debug, Clone, Copy, PartialEq, Eq, Structural)]
pub enum BlendError {
    /// The file does not begin with the format magic.
    Magic,
    /// Byte 7 of the header is not a recognised pointer-width tag.
    PointerSize(u8),
    /// Byte 8 of the header is not a recognised endianness tag.
    Endian(u8),
    /// Bytes 9..12 of the header are not three ASCII decimal digits.
    Version(u8, u8, u8),
    /// More bytes were needed at this offset than the buffer holds.
    Truncated(usize),
    /// A required 4-byte section magic is missing at this offset.
    Tag(usize),
    /// A table index recorded in the catalog is out of range for its table.
    Index(usize),
}

} // verus!
