//! Output projection: renders the primary header, each decoded struct, the
//! catalog index, and the metadata record of a non-schema chunk into the text
//! artifacts the scan emits. All text is built as raw bytes.

use vstd::prelude::*;

use crate::blend::{BlendChunkHeader, BlendHeader, BlendUsize, ChunkHeaderV};
use crate::dna::{SchemaCatalog, SchemaCatalogV};
use crate::BlendError;

verus! {

/// The decimal digits of `n`, most significant first.
pub open spec fn spec_dec(n: int) -> Seq<u8>
    decreases n,
{
    if n < 10 {
        seq![(48 + n) as u8]
    } else {
        spec_dec(n / 10) + seq![(48 + n % 10) as u8]
    }
}

/// One uppercase hexadecimal digit.
pub open spec fn spec_hex_digit(d: int) -> u8 {
    if d < 10 {
        (48 + d) as u8
    } else {
        (55 + d) as u8
    }
}

/// The uppercase hexadecimal digits of `n`, most significant first.
pub open spec fn spec_hex(n: int) -> Seq<u8>
    decreases n,
{
    if n < 16 {
        seq![spec_hex_digit(n)]
    } else {
        spec_hex(n / 16) + seq![spec_hex_digit(n % 16)]
    }
}

/// Renders `n` in decimal.
pub fn fmt_dec(n: u64) -> (r: Vec<u8>)
    ensures
        r@ == spec_dec(n as int),
    decreases n,
{
    if n < 10 {
        let mut v: Vec<u8> = Vec::new();
        v.push(48 + n as u8);
        proof {
            assert(v@ =~= spec_dec(n as int));
        }
        v
    } else {
        let mut v = fmt_dec(n / 10);
        v.push(48 + (n % 10) as u8);
        proof {
            assert(v@ =~= spec_dec(n as int));
        }
        v
    }
}

/// Renders `n` in uppercase hexadecimal.
pub fn fmt_hex(n: u64) -> (r: Vec<u8>)
    ensures
        r@ == spec_hex(n as int),
    decreases n,
{
    if n < 16 {
        let d = n as u8;
        let mut v: Vec<u8> = Vec::new();
        if d < 10 {
            v.push(48 + d);
        } else {
            v.push(55 + d);
        }
        proof {
            assert(v@ =~= spec_hex(n as int));
        }
        v
    } else {
        let mut v = fmt_hex(n / 16);
        let d = (n % 16) as u8;
        if d < 10 {
            v.push(48 + d);
        } else {
            v.push(55 + d);
        }
        proof {
            assert(v@ =~= spec_hex(n as int));
        }
        v
    }
}

/// Appends all of `bytes` to `out`.
fn append(out: &mut Vec<u8>, bytes: &Vec<u8>)
    ensures
        final(out)@ == old(out)@ + bytes@,
{
    let mut k: usize = 0;
    while k < bytes.len()
        invariant
            k <= bytes@.len(),
            out@ == old(out)@ + bytes@.subrange(0, k as int),
        decreases bytes@.len() - k,
    {
        out.push(bytes[k]);
        proof {
            assert(out@ =~= old(out)@ + bytes@.subrange(0, k + 1));
        }
        k = k + 1;
    }
    proof {
        assert(out@ =~= old(out)@ + bytes@);
    }
}

/// Appends the decimal rendering of `n` to `out`.
fn append_dec(out: &mut Vec<u8>, n: u64)
    ensures
        final(out)@ == old(out)@ + spec_dec(n as int),
{
    let d = fmt_dec(n);
    append(out, &d);
}

/// Appends the hexadecimal rendering of `n` to `out`.
fn append_hex(out: &mut Vec<u8>, n: u64)
    ensures
        final(out)@ == old(out)@ + spec_hex(n as int),
{
    let d = fmt_hex(n);
    append(out, &d);
}

/// The summary of a primary header: pointer width, endianness and version as
/// tab-separated key/value lines.
pub open spec fn spec_render_header(h: BlendHeader) -> Seq<u8> {
    seq![117u8, 115, 105, 122, 101, 9] + (match h.pointer_width {
        BlendUsize::U32 => seq![85u8, 51, 50],
        BlendUsize::U64 => seq![85u8, 54, 52],
    }) + seq![10u8, 101, 110, 100, 105, 97, 110, 9] + (match h.endian {
        crate::blend::BlendEndian::LE => seq![76u8, 69],
        crate::blend::BlendEndian::BE => seq![66u8, 69],
    }) + seq![10u8, 118, 101, 114, 115, 105, 111, 110, 9] + seq![
        h.version.major,
        46u8,
        h.version.minor,
        h.version.patch,
        10u8,
    ]
}

/// Renders the primary-header summary (the `usize`, `endian` and `version`
/// lines).
pub fn render_header(h: &BlendHeader) -> (r: Vec<u8>)
    ensures
        r@ == spec_render_header(*h),
{
    let mut v: Vec<u8> = Vec::new();
    v.push(117);
    v.push(115);
    v.push(105);
    v.push(122);
    v.push(101);
    v.push(9);
    match h.pointer_width {
        BlendUsize::U32 => {
            v.push(85);
            v.push(51);
            v.push(50);
        },
        BlendUsize::U64 => {
            v.push(85);
            v.push(54);
            v.push(52);
        },
    }
    v.push(10);
    v.push(101);
    v.push(110);
    v.push(100);
    v.push(105);
    v.push(97);
    v.push(110);
    v.push(9);
    match h.endian {
        crate::blend::BlendEndian::LE => {
            v.push(76);
            v.push(69);
        },
        crate::blend::BlendEndian::BE => {
            v.push(66);
            v.push(69);
        },
    }
    v.push(10);
    v.push(118);
    v.push(101);
    v.push(114);
    v.push(115);
    v.push(105);
    v.push(111);
    v.push(110);
    v.push(9);
    v.push(h.version.major);
    v.push(46);
    v.push(h.version.minor);
    v.push(h.version.patch);
    v.push(10);
    proof {
        assert(v@ =~= spec_render_header(*h));
    }
    v
}

/// Whether every table index this struct records is in range, so that its
/// listing and its index row can be rendered. This is the deferred validation
/// of indices that decoding leaves unchecked.
pub open spec fn struct_renderable(cat: SchemaCatalogV, i: int) -> bool {
    &&& 0 <= i < cat.structs.len()
    &&& cat.structs[i].type_index < cat.types.len()
    &&& cat.structs[i].type_index < cat.lengths.len()
    &&& forall|k: int|
        0 <= k < cat.structs[i].fields.len() ==> (cat.structs[i].fields[k].0 < cat.types.len()
            && cat.structs[i].fields[k].1 < cat.names.len())
}

/// Checks whether struct `i` of the catalog can be rendered.
pub fn struct_ok(cat: &SchemaCatalog, i: usize) -> (r: bool)
    ensures
        r == struct_renderable(cat@, i as int),
{
    if i >= cat.structs.len() {
        return false;
    }
    let sd = &cat.structs[i];
    let ti = sd.type_index as usize;
    if ti >= cat.types.len() || ti >= cat.lengths.len() {
        return false;
    }
    let mut k: usize = 0;
    while k < sd.fields.len()
        invariant
            0 <= i < cat@.structs.len(),
            *sd == cat.structs@[i as int],
            cat.structs@[i as int].type_index < cat@.types.len(),
            cat.structs@[i as int].type_index < cat@.lengths.len(),
            k <= sd.fields@.len(),
            forall|t: int|
                0 <= t < k ==> (cat@.structs[i as int].fields[t].0 < cat@.types.len()
                    && cat@.structs[i as int].fields[t].1 < cat@.names.len()),
        decreases sd.fields@.len() - k,
    {
        let (ft, fname) = sd.fields[k];
        if ft as usize >= cat.types.len() || fname as usize >= cat.names.len() {
            proof {
                assert(cat@.structs[i as int] == sd@);
                assert(cat@.structs[i as int].fields[k as int] == (ft, fname));
            }
            return false;
        }
        k = k + 1;
    }
    proof {
        assert(cat@.structs[i as int] == sd@);
    }
    true
}

/// The rendered lines for the first `k` fields of a struct: one line per
/// field, field name, a tab, the field's type name, a newline.
pub open spec fn spec_field_lines(cat: SchemaCatalogV, fields: Seq<(u16, u16)>, k: int) -> Seq<u8>
    decreases k,
{
    if k <= 0 {
        seq![]
    } else {
        spec_field_lines(cat, fields, k - 1) + cat.names[fields[k - 1].1 as int] + seq![9u8]
            + cat.types[fields[k - 1].0 as int] + seq![10u8]
    }
}

/// The rendered listing of struct `i`: a header comment with its type name,
/// ordinal type index, byte size and field count, then one line per field.
pub open spec fn spec_render_struct(cat: SchemaCatalogV, i: int) -> Seq<u8>
    recommends
        struct_renderable(cat, i),
{
    let s = cat.structs[i];
    seq![35u8, 32, 110, 97, 109, 101, 32] + cat.types[s.type_index as int] + seq![32u8, 64]
        + spec_dec(s.type_index as int) + seq![10u8] + seq![35u8, 32, 115, 105, 122, 101, 32]
        + spec_dec(cat.lengths[s.type_index as int] as int) + seq![10u8] + seq![
        35u8,
        32,
        102,
        105,
        101,
        108,
        100,
        115,
        32,
    ] + spec_dec(s.fields.len() as int) + seq![10u8] + spec_field_lines(
        cat,
        s.fields,
        s.fields.len() as int,
    )
}

/// The artifact path of struct `i`: its type name inside the schema
/// directory.
pub open spec fn spec_struct_path(cat: SchemaCatalogV, i: int) -> Seq<u8>
    recommends
        struct_renderable(cat, i),
{
    seq![68u8, 78, 65, 49, 47] + cat.types[cat.structs[i].type_index as int] + seq![
        46u8,
        116,
        120,
        116,
    ]
}

/// Renders the listing of struct `i`, or reports the ordinal of a struct
/// whose recorded indices are out of range for the catalog's tables.
pub fn render_struct(cat: &SchemaCatalog, i: usize) -> (r: Result<Vec<u8>, BlendError>)
    ensures
        (match r {
            Ok(v) => struct_renderable(cat@, i as int) && v@ == spec_render_struct(cat@, i as int),
            Err(e) => !struct_renderable(cat@, i as int) && e == BlendError::Index(i),
        }),
{
    if !struct_ok(cat, i) {
        return Err(BlendError::Index(i));
    }
    let sd = &cat.structs[i];
    let ti = sd.type_index as usize;
    let mut out: Vec<u8> = Vec::new();
    out.push(35);
    out.push(32);
    out.push(110);
    out.push(97);
    out.push(109);
    out.push(101);
    out.push(32);
    append(&mut out, &cat.types[ti]);
    out.push(32);
    out.push(64);
    append_dec(&mut out, sd.type_index as u64);
    out.push(10);
    out.push(35);
    out.push(32);
    out.push(115);
    out.push(105);
    out.push(122);
    out.push(101);
    out.push(32);
    append_dec(&mut out, cat.lengths[ti] as u64);
    out.push(10);
    out.push(35);
    out.push(32);
    out.push(102);
    out.push(105);
    out.push(101);
    out.push(108);
    out.push(100);
    out.push(115);
    out.push(32);
    append_dec(&mut out, sd.fields.len() as u64);
    out.push(10);
    let ghost head = out@;
    proof {
        assert(cat@.structs[i as int] == sd@);
        assert(head =~= seq![35u8, 32, 110, 97, 109, 101, 32] + cat@.types[sd.type_index as int]
            + seq![32u8, 64] + spec_dec(sd.type_index as int) + seq![10u8] + seq![
            35u8,
            32,
            115,
            105,
            122,
            101,
            32,
        ] + spec_dec(cat@.lengths[sd.type_index as int] as int) + seq![10u8] + seq![
            35u8,
            32,
            102,
            105,
            101,
            108,
            100,
            115,
            32,
        ] + spec_dec(sd.fields@.len() as int) + seq![10u8]);
        assert(out@ =~= head + spec_field_lines(cat@, sd.fields@, 0));
    }
    let mut k: usize = 0;
    while k < sd.fields.len()
        invariant
            struct_renderable(cat@, i as int),
            i < cat@.structs.len(),
            *sd == cat.structs@[i as int],
            cat@.structs[i as int] == sd@,
            k <= sd.fields@.len(),
            out@ == head + spec_field_lines(cat@, sd.fields@, k as int),
        decreases sd.fields@.len() - k,
    {
        let (ft, fname) = sd.fields[k];
        proof {
            assert(cat@.structs[i as int].fields[k as int] == (ft, fname));
        }
        append(&mut out, &cat.names[fname as usize]);
        out.push(9);
        append(&mut out, &cat.types[ft as usize]);
        out.push(10);
        proof {
            assert(out@ =~= head + spec_field_lines(cat@, sd.fields@, k + 1));
        }
        k = k + 1;
    }
    proof {
        assert(out@ =~= spec_render_struct(cat@, i as int));
    }
    Ok(out)
}

/// Renders the artifact path of struct `i`, or reports its ordinal when its
/// indices are out of range.
pub fn struct_path(cat: &SchemaCatalog, i: usize) -> (r: Result<Vec<u8>, BlendError>)
    ensures
        (match r {
            Ok(v) => struct_renderable(cat@, i as int) && v@ == spec_struct_path(cat@, i as int),
            Err(e) => !struct_renderable(cat@, i as int) && e == BlendError::Index(i),
        }),
{
    if !struct_ok(cat, i) {
        return Err(BlendError::Index(i));
    }
    let sd = &cat.structs[i];
    let ti = sd.type_index as usize;
    let mut out: Vec<u8> = Vec::new();
    out.push(68);
    out.push(78);
    out.push(65);
    out.push(49);
    out.push(47);
    append(&mut out, &cat.types[ti]);
    out.push(46);
    out.push(116);
    out.push(120);
    out.push(116);
    proof {
        assert(out@ =~= spec_struct_path(cat@, i as int));
    }
    Ok(out)
}

/// The index row of struct `i`: ordinal in hex, size in hex, path.
pub open spec fn spec_index_row(cat: SchemaCatalogV, i: int) -> Seq<u8>
    recommends
        struct_renderable(cat, i),
{
    seq![48u8, 120] + spec_hex(i) + seq![9u8, 48, 120] + spec_hex(
        cat.lengths[cat.structs[i].type_index as int] as int,
    ) + seq![9u8] + spec_struct_path(cat, i) + seq![10u8]
}

/// The index rows of the first `k` structs; a struct whose indices are out of
/// range contributes no row.
pub open spec fn spec_index_rows(cat: SchemaCatalogV, k: int) -> Seq<u8>
    decreases k,
{
    if k <= 0 {
        seq![]
    } else {
        spec_index_rows(cat, k - 1) + (if struct_renderable(cat, k - 1) {
            spec_index_row(cat, k - 1)
        } else {
            seq![]
        })
    }
}

/// The fixed rows for the built-in scalar types; the void row's size is the
/// pointer width of the file.
pub open spec fn spec_builtin_rows(w: BlendUsize) -> Seq<u8> {
    seq![45u8, 9, 48, 120, 49, 9, 98, 117, 105, 108, 116, 105, 110, 58, 99, 104, 97, 114, 10]
        + seq![45u8, 9, 48, 120, 50, 9, 98, 117, 105, 108, 116, 105, 110, 58, 115, 104, 111, 114, 116, 10]
        + seq![45u8, 9, 48, 120, 52, 9, 98, 117, 105, 108, 116, 105, 110, 58, 105, 110, 116, 10]
        + seq![45u8, 9, 48, 120, 52, 9, 98, 117, 105, 108, 116, 105, 110, 58, 102, 108, 111, 97, 116, 10]
        + seq![45u8, 9, 48, 120, 56, 9, 98, 117, 105, 108, 116, 105, 110, 58, 108, 111, 110, 103, 10]
        + seq![45u8, 9, 48, 120, 56, 9, 98, 117, 105, 108, 116, 105, 110, 58, 100, 111, 117, 98, 108, 101, 10]
        + seq![45u8, 9, 48, 120] + spec_hex(w.spec_len() as int) + seq![
        9u8,
        98,
        117,
        105,
        108,
        116,
        105,
        110,
        58,
        118,
        111,
        105,
        100,
        10,
    ]
}

/// The whole catalog index: a heading, the built-in rows, then one row per
/// renderable struct.
pub open spec fn spec_render_index(h: BlendHeader, cat: SchemaCatalogV) -> Seq<u8> {
    seq![115u8, 100, 110, 97, 9, 115, 105, 122, 101, 9, 112, 97, 116, 104, 10] + spec_builtin_rows(
        h.pointer_width,
    ) + spec_index_rows(cat, cat.structs.len() as int)
}

/// Renders the catalog index: heading, built-in rows, and one row per struct
/// whose recorded indices are all in range.
pub fn render_index(blend: &BlendHeader, cat: &SchemaCatalog) -> (r: Vec<u8>)
    ensures
        r@ == spec_render_index(*blend, cat@),
{
    let mut out: Vec<u8> = Vec::new();
    out.push(115);
    out.push(100);
    out.push(110);
    out.push(97);
    out.push(9);
    out.push(115);
    out.push(105);
    out.push(122);
    out.push(101);
    out.push(9);
    out.push(112);
    out.push(97);
    out.push(116);
    out.push(104);
    out.push(10);
    proof {
        assert(out@ =~= seq![115u8, 100, 110, 97, 9, 115, 105, 122, 101, 9, 112, 97, 116, 104, 10]);
    }
    push_builtin_rows(&mut out, blend.pointer_width);
    let ghost head = out@;
    proof {
        assert(head == seq![115u8, 100, 110, 97, 9, 115, 105, 122, 101, 9, 112, 97, 116, 104, 10]
            + spec_builtin_rows(blend.pointer_width));
        assert(out@ =~= head + spec_index_rows(cat@, 0));
    }
    let mut i: usize = 0;
    while i < cat.structs.len()
        invariant
            i <= cat@.structs.len(),
            cat@.structs.len() == cat.structs@.len(),
            out@ == head + spec_index_rows(cat@, i as int),
        decreases cat.structs@.len() - i,
    {
        if struct_ok(cat, i) {
            out.push(48);
            out.push(120);
            append_hex(&mut out, i as u64);
            out.push(9);
            out.push(48);
            out.push(120);
            let ti = cat.structs[i].type_index as usize;
            append_hex(&mut out, cat.lengths[ti] as u64);
            out.push(9);
            match struct_path(cat, i) {
                Ok(p) => append(&mut out, &p),
                Err(_) => {
                    proof {
                        assert(false);
                    }
                },
            }
            out.push(10);
        }
        proof {
            assert(out@ =~= head + spec_index_rows(cat@, i + 1));
        }
        i = i + 1;
    }
    out
}

/// Appends the seven built-in rows of the catalog index.
#[verifier::rlimit(100)]
fn push_builtin_rows(out: &mut Vec<u8>, w: BlendUsize)
    ensures
        final(out)@ == old(out)@ + spec_builtin_rows(w),
{
    let ghost base = out@;
    out.push(45);
    out.push(9);
    out.push(48);
    out.push(120);
    out.push(49);
    out.push(9);
    push_builtin(out);
    out.push(99);
    out.push(104);
    out.push(97);
    out.push(114);
    out.push(10);
    let ghost g1 = out@;
    proof {
        assert(g1 =~= base + seq![
            45u8, 9, 48, 120, 49, 9, 98, 117, 105, 108, 116, 105, 110, 58, 99, 104, 97, 114, 10,
        ]);
    }
    out.push(45);
    out.push(9);
    out.push(48);
    out.push(120);
    out.push(50);
    out.push(9);
    push_builtin(out);
    out.push(115);
    out.push(104);
    out.push(111);
    out.push(114);
    out.push(116);
    out.push(10);
    let ghost g2 = out@;
    proof {
        assert(g2 =~= g1 + seq![
            45u8, 9, 48, 120, 50, 9, 98, 117, 105, 108, 116, 105, 110, 58, 115, 104, 111, 114, 116,
            10,
        ]);
    }
    out.push(45);
    out.push(9);
    out.push(48);
    out.push(120);
    out.push(52);
    out.push(9);
    push_builtin(out);
    out.push(105);
    out.push(110);
    out.push(116);
    out.push(10);
    let ghost g3 = out@;
    proof {
        assert(g3 =~= g2 + seq![
            45u8, 9, 48, 120, 52, 9, 98, 117, 105, 108, 116, 105, 110, 58, 105, 110, 116, 10,
        ]);
    }
    out.push(45);
    out.push(9);
    out.push(48);
    out.push(120);
    out.push(52);
    out.push(9);
    push_builtin(out);
    out.push(102);
    out.push(108);
    out.push(111);
    out.push(97);
    out.push(116);
    out.push(10);
    let ghost g4 = out@;
    proof {
        assert(g4 =~= g3 + seq![
            45u8, 9, 48, 120, 52, 9, 98, 117, 105, 108, 116, 105, 110, 58, 102, 108, 111, 97, 116,
            10,
        ]);
    }
    out.push(45);
    out.push(9);
    out.push(48);
    out.push(120);
    out.push(56);
    out.push(9);
    push_builtin(out);
    out.push(108);
    out.push(111);
    out.push(110);
    out.push(103);
    out.push(10);
    let ghost g5 = out@;
    proof {
        assert(g5 =~= g4 + seq![
            45u8, 9, 48, 120, 56, 9, 98, 117, 105, 108, 116, 105, 110, 58, 108, 111, 110, 103, 10,
        ]);
    }
    out.push(45);
    out.push(9);
    out.push(48);
    out.push(120);
    out.push(56);
    out.push(9);
    push_builtin(out);
    out.push(100);
    out.push(111);
    out.push(117);
    out.push(98);
    out.push(108);
    out.push(101);
    out.push(10);
    let ghost g6 = out@;
    proof {
        assert(g6 =~= g5 + seq![
            45u8, 9, 48, 120, 56, 9, 98, 117, 105, 108, 116, 105, 110, 58, 100, 111, 117, 98, 108,
            101, 10,
        ]);
    }
    out.push(45);
    out.push(9);
    out.push(48);
    out.push(120);
    append_hex(out, w.len() as u64);
    out.push(9);
    push_builtin(out);
    out.push(118);
    out.push(111);
    out.push(105);
    out.push(100);
    out.push(10);
    proof {
        assert(out@ =~= g6 + (seq![45u8, 9, 48, 120] + spec_hex(w.spec_len() as int) + seq![
            9u8, 98, 117, 105, 108, 116, 105, 110, 58, 118, 111, 105, 100, 10,
        ]));
        assert(out@ =~= base + spec_builtin_rows(w));
    }
}

/// Appends the literal `builtin:`.
fn push_builtin(out: &mut Vec<u8>)
    ensures
        final(out)@ == old(out)@ + seq![98u8, 117, 105, 108, 116, 105, 110, 58],
{
    out.push(98);
    out.push(117);
    out.push(105);
    out.push(108);
    out.push(116);
    out.push(105);
    out.push(110);
    out.push(58);
    proof {
        assert(out@ =~= old(out)@ + seq![98u8, 117, 105, 108, 116, 105, 110, 58]);
    }
}

/// The printable text of a chunk code: its bytes up to the first NUL.
pub open spec fn spec_code_text(code: Seq<u8>) -> Seq<u8>
    recommends
        code.len() == 4,
{
    if code[0] == 0 {
        seq![]
    } else if code[1] == 0 {
        seq![code[0]]
    } else if code[2] == 0 {
        seq![code[0], code[1]]
    } else if code[3] == 0 {
        seq![code[0], code[1], code[2]]
    } else {
        seq![code[0], code[1], code[2], code[3]]
    }
}

/// The shared path stem of a non-schema chunk's artifacts: its code text and
/// its address in hex.
pub open spec fn spec_chunk_stem(c: ChunkHeaderV) -> Seq<u8> {
    spec_code_text(c.code) + seq![47u8, 48, 120] + spec_hex(c.addr as int)
}

/// The metadata record of a chunk: code, size, address, schema index and
/// element count as tab-separated key/value lines.
pub open spec fn spec_chunk_meta(c: ChunkHeaderV) -> Seq<u8> {
    seq![99u8, 111, 100, 101, 9] + spec_code_text(c.code) + seq![
        10u8,
        115,
        105,
        122,
        101,
        9,
        48,
        120,
    ] + spec_hex(c.size as int) + seq![10u8, 97, 100, 100, 114, 9, 48, 120] + spec_hex(
        c.addr as int,
    ) + seq![10u8, 115, 100, 110, 97, 9, 48, 120] + spec_hex(c.sdna as int) + seq![
        10u8,
        99,
        111,
        117,
        110,
        116,
        9,
    ] + spec_dec(c.count as int) + seq![10u8]
}

/// Appends the code text of `c` (its bytes up to the first NUL).
fn append_code_text(out: &mut Vec<u8>, c: &BlendChunkHeader)
    ensures
        final(out)@ == old(out)@ + spec_code_text(c.code@),
{
    let bytes = c.code.0;
    let mut k: usize = 0;
    while k < 4 && bytes[k] != 0
        invariant
            k <= 4,
            bytes@ == c.code.0@,
            out@ == old(out)@ + spec_code_text(c.code@).subrange(0, k as int),
            k <= spec_code_text(c.code@).len(),
        decreases 4 - k,
    {
        out.push(bytes[k]);
        proof {
            assert(out@ =~= old(out)@ + spec_code_text(c.code@).subrange(0, k + 1));
        }
        k = k + 1;
    }
    proof {
        assert(out@ =~= old(out)@ + spec_code_text(c.code@));
    }
}

/// Renders the shared path stem of a chunk's artifacts.
pub fn chunk_stem(c: &BlendChunkHeader) -> (r: Vec<u8>)
    ensures
        r@ == spec_chunk_stem(c@),
{
    let mut out: Vec<u8> = Vec::new();
    append_code_text(&mut out, c);
    out.push(47);
    out.push(48);
    out.push(120);
    append_hex(&mut out, c.addr);
    proof {
        assert(out@ =~= spec_chunk_stem(c@));
    }
    out
}

/// Renders the metadata record of a chunk.
pub fn render_chunk_meta(c: &BlendChunkHeader) -> (r: Vec<u8>)
    ensures
        r@ == spec_chunk_meta(c@),
{
    let mut out: Vec<u8> = Vec::new();
    out.push(99);
    out.push(111);
    out.push(100);
    out.push(101);
    out.push(9);
    append_code_text(&mut out, c);
    out.push(10);
    out.push(115);
    out.push(105);
    out.push(122);
    out.push(101);
    out.push(9);
    out.push(48);
    out.push(120);
    append_hex(&mut out, c.size as u64);
    out.push(10);
    out.push(97);
    out.push(100);
    out.push(100);
    out.push(114);
    out.push(9);
    out.push(48);
    out.push(120);
    append_hex(&mut out, c.addr);
    out.push(10);
    out.push(115);
    out.push(100);
    out.push(110);
    out.push(97);
    out.push(9);
    out.push(48);
    out.push(120);
    append_hex(&mut out, c.sdna as u64);
    out.push(10);
    out.push(99);
    out.push(111);
    out.push(117);
    out.push(110);
    out.push(116);
    out.push(9);
    append_dec(&mut out, c.count as u64);
    out.push(10);
    proof {
        assert(out@ =~= spec_chunk_meta(c@));
    }
    out
}

} // verus!
