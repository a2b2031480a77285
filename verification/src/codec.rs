//! The SDNA encoding, stated mathematically, and the round-trip law: decoding
//! the encoding of any well-formed catalog gives the catalog back.

use vstd::prelude::*;

use crate::blend::{
    lemma_u16_round_trip, lemma_u32_round_trip, spec_u16, spec_u16_bytes, spec_u32, spec_u32_bytes,
    BlendEndian,
};
use crate::byte_ext::{lemma_align4, spec_align4, spec_find_nul};
use crate::dna::{
    spec_cstr_list, spec_cstrs, spec_has_tag, spec_read_dna1, spec_structs, spec_u16s,
    SchemaCatalogV, StructDefV,
};
use crate::BlendError;

verus! {

/// The byte string holds no NUL, so it can stand in a NUL-terminated list.
pub open spec fn no_nul(s: Seq<u8>) -> bool {
    forall|k: int| 0 <= k < s.len() ==> s[k] != 0
}

/// The first `k` strings, each followed by its NUL terminator.
pub open spec fn spec_enc_cstrs(items: Seq<Seq<u8>>, k: int) -> Seq<u8>
    decreases k,
{
    if k <= 0 {
        seq![]
    } else {
        spec_enc_cstrs(items, k - 1) + items[k - 1] + seq![0u8]
    }
}

/// The first `k` sizes, each as 2 bytes.
pub open spec fn spec_enc_u16s(e: BlendEndian, items: Seq<u16>, k: int) -> Seq<u8>
    decreases k,
{
    if k <= 0 {
        seq![]
    } else {
        spec_enc_u16s(e, items, k - 1) + spec_u16_bytes(e, items[k - 1])
    }
}

/// The first `k` field pairs, each as two 2-byte indices.
pub open spec fn spec_enc_fields(e: BlendEndian, fields: Seq<(u16, u16)>, k: int) -> Seq<u8>
    decreases k,
{
    if k <= 0 {
        seq![]
    } else {
        spec_enc_fields(e, fields, k - 1) + spec_u16_bytes(e, fields[k - 1].0) + spec_u16_bytes(
            e,
            fields[k - 1].1,
        )
    }
}

/// The first `k` struct definitions: type index, field count, field pairs.
pub open spec fn spec_enc_structs(e: BlendEndian, structs: Seq<StructDefV>, k: int) -> Seq<u8>
    decreases k,
{
    if k <= 0 {
        seq![]
    } else {
        spec_enc_structs(e, structs, k - 1) + (spec_u16_bytes(e, structs[k - 1].type_index)
            + spec_u16_bytes(e, structs[k - 1].fields.len() as u16) + spec_enc_fields(
            e,
            structs[k - 1].fields,
            structs[k - 1].fields.len() as int,
        ))
    }
}

pub open spec fn zeros(n: int) -> Seq<u8> {
    Seq::new(n as nat, |i: int| 0u8)
}

/// `s` padded with NUL bytes to a multiple of 4.
pub open spec fn pad4(s: Seq<u8>) -> Seq<u8> {
    s + zeros(spec_align4(s.len() as int) - s.len())
}

/// A catalog that the format can represent: strings carry no NUL, the counts
/// fit their stream fields, and the size table is parallel to the type table.
pub open spec fn cat_wf(cat: SchemaCatalogV) -> bool {
    &&& forall|i: int| 0 <= i < cat.names.len() ==> no_nul(#[trigger] cat.names[i])
    &&& forall|i: int| 0 <= i < cat.types.len() ==> no_nul(#[trigger] cat.types[i])
    &&& cat.names.len() <= u32::MAX
    &&& cat.types.len() <= u32::MAX
    &&& cat.lengths.len() == cat.types.len()
    &&& cat.structs.len() <= u32::MAX
    &&& forall|i: int|
        0 <= i < cat.structs.len() ==> (#[trigger] cat.structs[i].fields).len() <= u16::MAX
}

/// The SDNA magic, the NAME tag, the name count and the packed names.
pub open spec fn enc_name_sec(e: BlendEndian, cat: SchemaCatalogV) -> Seq<u8> {
    seq![83u8, 68, 78, 65] + seq![78u8, 65, 77, 69] + spec_u32_bytes(e, cat.names.len() as u32)
        + spec_enc_cstrs(cat.names, cat.names.len() as int)
}

/// The TYPE tag, the type count and the packed type names.
pub open spec fn enc_type_sec(e: BlendEndian, cat: SchemaCatalogV) -> Seq<u8> {
    seq![84u8, 89, 80, 69] + spec_u32_bytes(e, cat.types.len() as u32) + spec_enc_cstrs(
        cat.types,
        cat.types.len() as int,
    )
}

/// The TLEN tag and the packed sizes.
pub open spec fn enc_tlen_sec(e: BlendEndian, cat: SchemaCatalogV) -> Seq<u8> {
    seq![84u8, 76, 69, 78] + spec_enc_u16s(e, cat.lengths, cat.lengths.len() as int)
}

/// The STRC tag, the struct count and the packed struct definitions.
pub open spec fn enc_strc_sec(e: BlendEndian, cat: SchemaCatalogV) -> Seq<u8> {
    seq![83u8, 84, 82, 67] + spec_u32_bytes(e, cat.structs.len() as u32) + spec_enc_structs(
        e,
        cat.structs,
        cat.structs.len() as int,
    )
}

/// The payload up to and including the TYPE section.
pub open spec fn enc_b(e: BlendEndian, cat: SchemaCatalogV) -> Seq<u8> {
    pad4(enc_name_sec(e, cat)) + enc_type_sec(e, cat)
}

/// The payload up to and including the TLEN section.
pub open spec fn enc_c(e: BlendEndian, cat: SchemaCatalogV) -> Seq<u8> {
    pad4(enc_b(e, cat)) + enc_tlen_sec(e, cat)
}

/// The whole SDNA payload of a catalog: the four tagged sections, the NAME,
/// TYPE and TLEN sections padded to 4-byte alignment.
pub open spec fn spec_encode_dna1(e: BlendEndian, cat: SchemaCatalogV) -> Seq<u8> {
    pad4(enc_c(e, cat)) + enc_strc_sec(e, cat)
}

/// A window of a buffer that equals `w` can be narrowed.
proof fn lemma_window(data: Seq<u8>, from: int, w: Seq<u8>, x: int, y: int)
    requires
        0 <= from,
        from + w.len() <= data.len(),
        data.subrange(from, from + w.len()) == w,
        0 <= x <= y <= w.len(),
    ensures
        data.subrange(from + x, from + y) == w.subrange(x, y),
{
    assert(data.subrange(from + x, from + y) =~= w.subrange(x, y));
}

/// A concatenation begins with its left operand.
proof fn lemma_prefix_concat(p: Seq<u8>, q: Seq<u8>)
    ensures
        (p + q).subrange(0, p.len() as int) == p,
{
    assert((p + q).subrange(0, p.len() as int) =~= p);
}

/// Being a prefix is transitive.
proof fn lemma_prefix_trans(s1: Seq<u8>, s2: Seq<u8>, s3: Seq<u8>)
    requires
        s2.len() <= s3.len(),
        s2 == s3.subrange(0, s2.len() as int),
        s1.len() <= s2.len(),
        s1 == s2.subrange(0, s1.len() as int),
    ensures
        s1 == s3.subrange(0, s1.len() as int),
{
    assert(s3.subrange(0, s1.len() as int) =~= s1);
}

/// When the bytes before `j` are non-NUL and the byte at `j` is NUL, the NUL
/// scan from `from` finds exactly `j`.
proof fn lemma_find_nul_window(data: Seq<u8>, from: int, j: int)
    requires
        0 <= from <= j < data.len(),
        forall|t: int| from <= t < j ==> data[t] != 0,
        data[j] == 0,
    ensures
        spec_find_nul(data, from) == Some(j),
    decreases j - from,
{
    if from < j {
        lemma_find_nul_window(data, from + 1, j);
    }
}

/// Reading `k` NUL-terminated strings out of their own encoding gives the
/// strings back and stops right after the last terminator.
pub proof fn lemma_cstrs_decode(data: Seq<u8>, from: int, items: Seq<Seq<u8>>, k: int)
    requires
        0 <= k <= items.len(),
        0 <= from,
        from + spec_enc_cstrs(items, k).len() <= data.len(),
        data.subrange(from, from + spec_enc_cstrs(items, k).len()) == spec_enc_cstrs(items, k),
        forall|i: int| 0 <= i < items.len() ==> no_nul(#[trigger] items[i]),
    ensures
        spec_cstrs(data, from, k as nat) == Ok::<(Seq<Seq<u8>>, int), BlendError>(
            (items.subrange(0, k), from + spec_enc_cstrs(items, k).len()),
        ),
    decreases k,
{
    if k == 0 {
        assert(items.subrange(0, 0) =~= Seq::<Seq<u8>>::empty());
    } else {
        let ek1 = spec_enc_cstrs(items, k - 1);
        let ek = spec_enc_cstrs(items, k);
        let itm = items[k - 1];
        assert(ek == ek1 + itm + seq![0u8]);
        assert(ek.subrange(0, ek1.len() as int) =~= ek1);
        lemma_window(data, from, ek, 0, ek1.len() as int);
        lemma_cstrs_decode(data, from, items, k - 1);
        let cur = from + ek1.len();
        assert(ek.subrange(ek1.len() as int, ek1.len() as int + itm.len()) =~= itm);
        lemma_window(data, from, ek, ek1.len() as int, ek1.len() as int + itm.len());
        assert(data.subrange(cur, cur + itm.len()) == itm);
        assert forall|t: int| cur <= t < cur + itm.len() implies data[t] != 0 by {
            assert(data.subrange(cur, cur + itm.len())[t - cur] == data[t]);
            assert(itm[t - cur] != 0);
        }
        assert(data.subrange(from, from + ek.len())[ek1.len() as int + itm.len()] == 0);
        assert(data[cur + itm.len()] == 0);
        lemma_find_nul_window(data, cur, cur + itm.len());
        assert(items.subrange(0, k - 1).push(itm) =~= items.subrange(0, k));
    }
}

/// The 2-byte encoding of `k` sizes occupies `2 * k` bytes.
proof fn lemma_enc_u16s_len(e: BlendEndian, items: Seq<u16>, k: int)
    requires
        0 <= k,
    ensures
        spec_enc_u16s(e, items, k).len() == 2 * k,
    decreases k,
{
    if k > 0 {
        lemma_enc_u16s_len(e, items, k - 1);
    }
}

/// Reading `k` sizes out of their own encoding gives the sizes back.
pub proof fn lemma_u16s_decode(e: BlendEndian, data: Seq<u8>, from: int, items: Seq<u16>, k: int)
    requires
        0 <= k <= items.len(),
        0 <= from,
        from + 2 * k <= data.len(),
        data.subrange(from, from + 2 * k) == spec_enc_u16s(e, items, k),
    ensures
        spec_u16s(e, data, from, k as nat) == Ok::<(Seq<u16>, int), BlendError>(
            (items.subrange(0, k), from + 2 * k),
        ),
    decreases k,
{
    lemma_enc_u16s_len(e, items, k);
    if k == 0 {
        assert(items.subrange(0, 0) =~= Seq::<u16>::empty());
    } else {
        let ek1 = spec_enc_u16s(e, items, k - 1);
        let ek = spec_enc_u16s(e, items, k);
        lemma_enc_u16s_len(e, items, k - 1);
        assert(ek.subrange(0, ek1.len() as int) =~= ek1);
        lemma_window(data, from, ek, 0, ek1.len() as int);
        lemma_u16s_decode(e, data, from, items, k - 1);
        let cur = from + 2 * (k - 1);
        assert(ek.subrange(ek1.len() as int, ek1.len() as int + 2) =~= spec_u16_bytes(e, items[k - 1]));
        lemma_window(data, from, ek, ek1.len() as int, ek1.len() as int + 2);
        lemma_u16_round_trip(e, items[k - 1]);
        assert(spec_u16(e, data.subrange(cur, cur + 2)) == items[k - 1]);
        assert(items.subrange(0, k - 1).push(items[k - 1]) =~= items.subrange(0, k));
    }
}

/// The encoding of `k` field pairs occupies `4 * k` bytes.
proof fn lemma_enc_fields_len(e: BlendEndian, fields: Seq<(u16, u16)>, k: int)
    requires
        0 <= k,
    ensures
        spec_enc_fields(e, fields, k).len() == 4 * k,
    decreases k,
{
    if k > 0 {
        lemma_enc_fields_len(e, fields, k - 1);
    }
}

/// Reading `k` field pairs out of their own encoding gives the pairs back.
proof fn lemma_fields_decode(
    e: BlendEndian,
    data: Seq<u8>,
    from: int,
    fields: Seq<(u16, u16)>,
    k: int,
)
    requires
        0 <= k <= fields.len(),
        0 <= from,
        from + 4 * k <= data.len(),
        data.subrange(from, from + 4 * k) == spec_enc_fields(e, fields, k),
    ensures
        crate::dna::spec_fields(e, data, from, k as nat) == Ok::<(Seq<(u16, u16)>, int), BlendError>(
            (fields.subrange(0, k), from + 4 * k),
        ),
    decreases k,
{
    lemma_enc_fields_len(e, fields, k);
    if k == 0 {
        assert(fields.subrange(0, 0) =~= Seq::<(u16, u16)>::empty());
    } else {
        let ek1 = spec_enc_fields(e, fields, k - 1);
        let ek = spec_enc_fields(e, fields, k);
        lemma_enc_fields_len(e, fields, k - 1);
        assert(ek.subrange(0, ek1.len() as int) =~= ek1);
        lemma_window(data, from, ek, 0, ek1.len() as int);
        lemma_fields_decode(e, data, from, fields, k - 1);
        let cur = from + 4 * (k - 1);
        assert(ek.subrange(ek1.len() as int, ek1.len() as int + 2) =~= spec_u16_bytes(e, fields[k - 1].0));
        lemma_window(data, from, ek, ek1.len() as int, ek1.len() as int + 2);
        assert(ek.subrange(ek1.len() as int + 2, ek1.len() as int + 4) =~= spec_u16_bytes(e, fields[k - 1].1));
        lemma_window(data, from, ek, ek1.len() as int + 2, ek1.len() as int + 4);
        lemma_u16_round_trip(e, fields[k - 1].0);
        lemma_u16_round_trip(e, fields[k - 1].1);
        assert(spec_u16(e, data.subrange(cur, cur + 2)) == fields[k - 1].0);
        assert(spec_u16(e, data.subrange(cur + 2, cur + 4)) == fields[k - 1].1);
        assert(fields.subrange(0, k - 1).push(fields[k - 1]) =~= fields.subrange(0, k));
    }
}

/// Reading `k` struct definitions out of their own encoding gives the structs
/// back.
pub proof fn lemma_structs_decode(
    e: BlendEndian,
    data: Seq<u8>,
    from: int,
    structs: Seq<StructDefV>,
    k: int,
)
    requires
        0 <= k <= structs.len(),
        0 <= from,
        from + spec_enc_structs(e, structs, k).len() <= data.len(),
        data.subrange(from, from + spec_enc_structs(e, structs, k).len()) == spec_enc_structs(
            e,
            structs,
            k,
        ),
        forall|i: int| 0 <= i < structs.len() ==> (#[trigger] structs[i].fields).len() <= u16::MAX,
    ensures
        spec_structs(e, data, from, k as nat) == Ok::<(Seq<StructDefV>, int), BlendError>(
            (structs.subrange(0, k), from + spec_enc_structs(e, structs, k).len()),
        ),
    decreases k,
{
    if k == 0 {
        assert(structs.subrange(0, 0) =~= Seq::<StructDefV>::empty());
    } else {
        let ek1 = spec_enc_structs(e, structs, k - 1);
        let ek = spec_enc_structs(e, structs, k);
        let sd = structs[k - 1];
        let flen = sd.fields.len() as int;
        lemma_enc_fields_len(e, sd.fields, flen);
        assert(ek.subrange(0, ek1.len() as int) =~= ek1);
        lemma_window(data, from, ek, 0, ek1.len() as int);
        lemma_structs_decode(e, data, from, structs, k - 1);
        let cur = from + ek1.len();
        assert(ek.subrange(ek1.len() as int, ek1.len() as int + 2) =~= spec_u16_bytes(e, sd.type_index));
        lemma_window(data, from, ek, ek1.len() as int, ek1.len() as int + 2);
        assert(ek.subrange(ek1.len() as int + 2, ek1.len() as int + 4) =~= spec_u16_bytes(
            e,
            sd.fields.len() as u16,
        ));
        lemma_window(data, from, ek, ek1.len() as int + 2, ek1.len() as int + 4);
        lemma_u16_round_trip(e, sd.type_index);
        lemma_u16_round_trip(e, sd.fields.len() as u16);
        assert(spec_u16(e, data.subrange(cur, cur + 2)) == sd.type_index);
        assert(spec_u16(e, data.subrange(cur + 2, cur + 4)) == sd.fields.len() as u16);
        assert(ek.subrange(ek1.len() as int + 4, ek1.len() as int + 4 + 4 * flen) =~= spec_enc_fields(
            e,
            sd.fields,
            flen,
        ));
        lemma_window(data, from, ek, ek1.len() as int + 4, ek1.len() as int + 4 + 4 * flen);
        lemma_fields_decode(e, data, cur + 4, sd.fields, flen);
        assert(sd.fields.subrange(0, flen) =~= sd.fields);
        assert(structs.subrange(0, k - 1).push(sd) =~= structs.subrange(0, k));
    }
}

/// Every earlier section of the encoding is a prefix of the whole payload.
proof fn lemma_rt_prefixes(e: BlendEndian, cat: SchemaCatalogV)
    ensures
        spec_encode_dna1(e, cat).subrange(0, enc_name_sec(e, cat).len() as int) == enc_name_sec(
            e,
            cat,
        ),
        spec_encode_dna1(e, cat).subrange(0, enc_b(e, cat).len() as int) == enc_b(e, cat),
        spec_encode_dna1(e, cat).subrange(0, enc_c(e, cat).len() as int) == enc_c(e, cat),
        pad4(enc_name_sec(e, cat)).len() == spec_align4(enc_name_sec(e, cat).len() as int),
        pad4(enc_b(e, cat)).len() == spec_align4(enc_b(e, cat).len() as int),
        pad4(enc_c(e, cat)).len() == spec_align4(enc_c(e, cat).len() as int),
{
    let data = spec_encode_dna1(e, cat);
    let name_sec = enc_name_sec(e, cat);
    let b = enc_b(e, cat);
    let c = enc_c(e, cat);
    lemma_align4(name_sec.len() as int);
    lemma_align4(b.len() as int);
    lemma_align4(c.len() as int);
    lemma_prefix_concat(pad4(c), enc_strc_sec(e, cat));
    lemma_prefix_concat(c, zeros(spec_align4(c.len() as int) - c.len()));
    lemma_prefix_trans(c, pad4(c), data);
    lemma_prefix_concat(pad4(b), enc_tlen_sec(e, cat));
    lemma_prefix_trans(pad4(b), c, data);
    lemma_prefix_concat(b, zeros(spec_align4(b.len() as int) - b.len()));
    lemma_prefix_trans(b, pad4(b), data);
    lemma_prefix_concat(pad4(name_sec), enc_type_sec(e, cat));
    lemma_prefix_trans(pad4(name_sec), b, data);
    lemma_prefix_concat(name_sec, zeros(
        spec_align4(name_sec.len() as int) - name_sec.len(),
    ));
    lemma_prefix_trans(name_sec, pad4(name_sec), data);
}

/// The SDNA and NAME tags stand at the front, and the NAME section decodes to
/// the encoded names, ending at the first padded boundary.
proof fn lemma_rt_name(e: BlendEndian, cat: SchemaCatalogV)
    requires
        cat_wf(cat),
    ensures
        spec_has_tag(spec_encode_dna1(e, cat), 0, 83, 68, 78, 65),
        spec_has_tag(spec_encode_dna1(e, cat), 4, 78, 65, 77, 69),
        spec_cstr_list(e, spec_encode_dna1(e, cat), 8) == Ok::<(Seq<Seq<u8>>, int), BlendError>(
            (cat.names, pad4(enc_name_sec(e, cat)).len() as int),
        ),
{
    let data = spec_encode_dna1(e, cat);
    let name_sec = enc_name_sec(e, cat);
    let nlen = cat.names.len() as int;
    let enc_n = spec_enc_cstrs(cat.names, nlen);
    lemma_rt_prefixes(e, cat);
    assert(name_sec.subrange(0, 8) =~= seq![83u8, 68, 78, 65, 78, 65, 77, 69]);
    lemma_window(data, 0, name_sec, 0, 8);
    assert(data.subrange(0, 8)[0] == 83);
    assert(data.subrange(0, 8)[1] == 68);
    assert(data.subrange(0, 8)[2] == 78);
    assert(data.subrange(0, 8)[3] == 65);
    assert(data.subrange(0, 8)[4] == 78);
    assert(data.subrange(0, 8)[5] == 65);
    assert(data.subrange(0, 8)[6] == 77);
    assert(data.subrange(0, 8)[7] == 69);
    assert(name_sec.subrange(8, 12) =~= spec_u32_bytes(e, cat.names.len() as u32));
    lemma_window(data, 0, name_sec, 8, 12);
    lemma_u32_round_trip(e, cat.names.len() as u32);
    assert(name_sec.subrange(12, name_sec.len() as int) =~= enc_n);
    lemma_window(data, 0, name_sec, 12, name_sec.len() as int);
    lemma_cstrs_decode(data, 12, cat.names, nlen);
    assert(cat.names.subrange(0, nlen) =~= cat.names);
}

/// The TYPE tag stands right after the padded NAME section, and the TYPE
/// section decodes to the encoded type names.
#[verifier::rlimit(100)]
proof fn lemma_rt_type(e: BlendEndian, cat: SchemaCatalogV)
    requires
        cat_wf(cat),
    ensures
        spec_has_tag(
            spec_encode_dna1(e, cat),
            pad4(enc_name_sec(e, cat)).len() as int,
            84,
            89,
            80,
            69,
        ),
        spec_cstr_list(
            e,
            spec_encode_dna1(e, cat),
            pad4(enc_name_sec(e, cat)).len() as int + 4,
        ) == Ok::<(Seq<Seq<u8>>, int), BlendError>((cat.types, pad4(enc_b(e, cat)).len() as int)),
{
    let data = spec_encode_dna1(e, cat);
    let b = enc_b(e, cat);
    let a2 = pad4(enc_name_sec(e, cat));
    let f1 = a2.len() as int;
    let tlen = cat.types.len() as int;
    let enc_t = spec_enc_cstrs(cat.types, tlen);
    lemma_rt_prefixes(e, cat);
    assert(b.subrange(f1, f1 + 4) =~= seq![84u8, 89, 80, 69]);
    lemma_window(data, 0, b, f1, f1 + 4);
    assert(data.subrange(f1, f1 + 4)[0] == 84);
    assert(data.subrange(f1, f1 + 4)[1] == 89);
    assert(data.subrange(f1, f1 + 4)[2] == 80);
    assert(data.subrange(f1, f1 + 4)[3] == 69);
    assert(b.subrange(f1 + 4, f1 + 8) =~= spec_u32_bytes(e, cat.types.len() as u32));
    lemma_window(data, 0, b, f1 + 4, f1 + 8);
    lemma_u32_round_trip(e, cat.types.len() as u32);
    assert(b.subrange(f1 + 8, b.len() as int) =~= enc_t);
    lemma_window(data, 0, b, f1 + 8, b.len() as int);
    lemma_cstrs_decode(data, f1 + 8, cat.types, tlen);
    assert(cat.types.subrange(0, tlen) =~= cat.types);
}

/// The TLEN tag stands right after the padded TYPE section, and the TLEN
/// section decodes to the encoded sizes.
proof fn lemma_rt_tlen(e: BlendEndian, cat: SchemaCatalogV)
    requires
        cat_wf(cat),
    ensures
        spec_has_tag(spec_encode_dna1(e, cat), pad4(enc_b(e, cat)).len() as int, 84, 76, 69, 78),
        crate::dna::spec_tlen_list(
            e,
            spec_encode_dna1(e, cat),
            pad4(enc_b(e, cat)).len() as int + 4,
            cat.types.len(),
        ) == Ok::<(Seq<u16>, int), BlendError>((cat.lengths, pad4(enc_c(e, cat)).len() as int)),
{
    let data = spec_encode_dna1(e, cat);
    let c = enc_c(e, cat);
    let b2 = pad4(enc_b(e, cat));
    let f2 = b2.len() as int;
    let tlen = cat.types.len() as int;
    let enc_l = spec_enc_u16s(e, cat.lengths, tlen);
    lemma_rt_prefixes(e, cat);
    lemma_enc_u16s_len(e, cat.lengths, tlen);
    assert(c.subrange(f2, f2 + 4) =~= seq![84u8, 76, 69, 78]);
    lemma_window(data, 0, c, f2, f2 + 4);
    assert(data.subrange(f2, f2 + 4)[0] == 84);
    assert(data.subrange(f2, f2 + 4)[1] == 76);
    assert(data.subrange(f2, f2 + 4)[2] == 69);
    assert(data.subrange(f2, f2 + 4)[3] == 78);
    assert(c.subrange(f2 + 4, c.len() as int) =~= enc_l);
    lemma_window(data, 0, c, f2 + 4, c.len() as int);
    lemma_u16s_decode(e, data, f2 + 4, cat.lengths, tlen);
    assert(cat.lengths.subrange(0, tlen) =~= cat.lengths);
}

/// The STRC tag, the struct count and the packed structs stand after the
/// padded TLEN section and decode to the encoded structs.
proof fn lemma_rt_strc(e: BlendEndian, cat: SchemaCatalogV)
    requires
        cat_wf(cat),
    ensures
        spec_has_tag(spec_encode_dna1(e, cat), pad4(enc_c(e, cat)).len() as int, 83, 84, 82, 67),
        pad4(enc_c(e, cat)).len() as int + 8 <= spec_encode_dna1(e, cat).len(),
        spec_u32(
            e,
            spec_encode_dna1(e, cat).subrange(
                pad4(enc_c(e, cat)).len() as int + 4,
                pad4(enc_c(e, cat)).len() as int + 8,
            ),
        ) == cat.structs.len() as u32,
        spec_structs(
            e,
            spec_encode_dna1(e, cat),
            pad4(enc_c(e, cat)).len() as int + 8,
            cat.structs.len(),
        ) == Ok::<(Seq<StructDefV>, int), BlendError>(
            (cat.structs, spec_encode_dna1(e, cat).len() as int),
        ),
{
    let data = spec_encode_dna1(e, cat);
    let c2 = pad4(enc_c(e, cat));
    let f3 = c2.len() as int;
    let slen = cat.structs.len() as int;
    let enc_s = spec_enc_structs(e, cat.structs, slen);
    lemma_rt_prefixes(e, cat);
    assert(data.subrange(f3, f3 + 4) =~= seq![83u8, 84, 82, 67]);
    assert(data.subrange(f3, f3 + 4)[0] == 83);
    assert(data.subrange(f3, f3 + 4)[1] == 84);
    assert(data.subrange(f3, f3 + 4)[2] == 82);
    assert(data.subrange(f3, f3 + 4)[3] == 67);
    assert(data.subrange(f3 + 4, f3 + 8) =~= spec_u32_bytes(e, cat.structs.len() as u32));
    lemma_u32_round_trip(e, cat.structs.len() as u32);
    assert(data.subrange(f3 + 8, data.len() as int) =~= enc_s);
    lemma_structs_decode(e, data, f3 + 8, cat.structs, slen);
    assert(cat.structs.subrange(0, slen) =~= cat.structs);
}

/// When no byte from `from` onward is NUL, the NUL scan finds nothing.
proof fn lemma_find_nul_none(d: Seq<u8>, from: int)
    requires
        0 <= from <= d.len(),
        forall|t: int| from <= t < d.len() ==> d[t] != 0,
    ensures
        spec_find_nul(d, from) is None,
    decreases d.len() - from,
{
    if from < d.len() {
        lemma_find_nul_none(d, from + 1);
    }
}

/// Reading `k` sizes succeeds exactly when `2 * k` bytes are available, and
/// then ends right after them.
proof fn lemma_u16s_shape(e: BlendEndian, d: Seq<u8>, from: int, k: int)
    requires
        0 <= from <= d.len(),
        0 <= k,
    ensures
        from + 2 * k > d.len() ==> spec_u16s(e, d, from, k as nat) is Err,
        from + 2 * k <= d.len() ==> spec_u16s(e, d, from, k as nat) is Ok && spec_u16s(
            e,
            d,
            from,
            k as nat,
        )->Ok_0.1 == from + 2 * k,
    decreases k,
{
    if k > 0 {
        lemma_u16s_shape(e, d, from, k - 1);
    }
}

/// Reading `k` field pairs succeeds exactly when `4 * k` bytes are available,
/// and then ends right after them.
proof fn lemma_fields_shape(e: BlendEndian, d: Seq<u8>, from: int, k: int)
    requires
        0 <= from <= d.len(),
        0 <= k,
    ensures
        from + 4 * k > d.len() ==> crate::dna::spec_fields(e, d, from, k as nat) is Err,
        from + 4 * k <= d.len() ==> crate::dna::spec_fields(e, d, from, k as nat) is Ok
            && crate::dna::spec_fields(e, d, from, k as nat)->Ok_0.1 == from + 4 * k,
    decreases k,
{
    if k > 0 {
        lemma_fields_shape(e, d, from, k - 1);
    }
}

/// Reading `k` NUL-terminated strings out of a strict prefix of their
/// encoding fails.
proof fn lemma_cstrs_trunc(d: Seq<u8>, from: int, items: Seq<Seq<u8>>, k: int)
    requires
        0 <= k <= items.len(),
        0 <= from <= d.len(),
        d.len() < from + spec_enc_cstrs(items, k).len(),
        d.subrange(from, d.len() as int) == spec_enc_cstrs(items, k).subrange(
            0,
            d.len() - from,
        ),
        forall|i: int| 0 <= i < items.len() ==> no_nul(#[trigger] items[i]),
    ensures
        spec_cstrs(d, from, k as nat) is Err,
    decreases k,
{
    let ek = spec_enc_cstrs(items, k);
    let avail = d.len() - from;
    if k == 0 {
    } else {
        let ek1 = spec_enc_cstrs(items, k - 1);
        let itm = items[k - 1];
        if d.len() < from + ek1.len() {
            assert(ek.subrange(0, ek1.len() as int) =~= ek1);
            assert(d.subrange(from, d.len() as int) =~= ek1.subrange(0, d.len() - from));
            lemma_cstrs_trunc(d, from, items, k - 1);
        } else {
            // the first k - 1 strings are fully present, the last is cut
            assert(d.subrange(from, from + ek1.len()) =~= ek1);
            lemma_cstrs_decode(d, from, items, k - 1);
            let cur = from + ek1.len();
            assert forall|t: int| cur <= t < d.len() implies d[t] != 0 by {
                assert(d.subrange(from, d.len() as int)[t - from] == d[t]);
                assert(ek[t - from] == itm[t - cur]);
                assert(itm[t - cur] != 0);
            }
            lemma_find_nul_none(d, cur);
        }
    }
}

/// Reading `k` struct definitions out of a strict prefix of their encoding
/// fails.
proof fn lemma_structs_trunc(
    e: BlendEndian,
    d: Seq<u8>,
    from: int,
    structs: Seq<StructDefV>,
    k: int,
)
    requires
        0 <= k <= structs.len(),
        0 <= from <= d.len(),
        d.len() < from + spec_enc_structs(e, structs, k).len(),
        d.subrange(from, d.len() as int) == spec_enc_structs(e, structs, k).subrange(
            0,
            d.len() - from,
        ),
        forall|i: int| 0 <= i < structs.len() ==> (#[trigger] structs[i].fields).len() <= u16::MAX,
    ensures
        spec_structs(e, d, from, k as nat) is Err,
    decreases k,
{
    let ek = spec_enc_structs(e, structs, k);
    if k == 0 {
    } else {
        let ek1 = spec_enc_structs(e, structs, k - 1);
        let sd = structs[k - 1];
        let flen = sd.fields.len() as int;
        lemma_enc_fields_len(e, sd.fields, flen);
        if d.len() < from + ek1.len() {
            assert(ek.subrange(0, ek1.len() as int) =~= ek1);
            assert(d.subrange(from, d.len() as int) =~= ek1.subrange(0, d.len() - from));
            lemma_structs_trunc(e, d, from, structs, k - 1);
        } else {
            assert(d.subrange(from, from + ek1.len()) =~= ek1);
            lemma_structs_decode(e, d, from, structs, k - 1);
            let cur = from + ek1.len();
            assert forall|t: int| from <= t < d.len() implies d[t] == ek[t - from] by {
                assert(d.subrange(from, d.len() as int)[t - from] == d[t]);
                assert(ek.subrange(0, d.len() - from)[t - from] == ek[t - from]);
            }
            if cur + 4 <= d.len() {
                // the type index and field count are present; the fields are cut
                assert(d.subrange(cur, cur + 2) =~= ek.subrange(
                    ek1.len() as int,
                    ek1.len() as int + 2,
                ));
                assert(ek.subrange(ek1.len() as int, ek1.len() as int + 2) =~= spec_u16_bytes(
                    e,
                    sd.type_index,
                ));
                assert(d.subrange(cur + 2, cur + 4) =~= ek.subrange(
                    ek1.len() as int + 2,
                    ek1.len() as int + 4,
                ));
                assert(ek.subrange(ek1.len() as int + 2, ek1.len() as int + 4) =~= spec_u16_bytes(
                    e,
                    sd.fields.len() as u16,
                ));
                lemma_u16_round_trip(e, sd.fields.len() as u16);
                assert(spec_u16(e, d.subrange(cur + 2, cur + 4)) == sd.fields.len() as u16);
                lemma_fields_shape(e, d, cur + 4, flen);
            }
        }
    }
}

/// A subrange of a prefix is a subrange of the whole.
proof fn lemma_take_sub(data: Seq<u8>, m: int, x: int, y: int)
    requires
        0 <= x <= y <= m <= data.len(),
    ensures
        data.subrange(0, m).subrange(x, y) == data.subrange(x, y),
{
    assert(data.subrange(0, m).subrange(x, y) =~= data.subrange(x, y));
}

/// On any prefix that still holds the whole NAME section, that section
/// decodes as on the full payload.
#[verifier::rlimit(100)]
proof fn lemma_trunc_name_ok(e: BlendEndian, cat: SchemaCatalogV, m: int)
    requires
        cat_wf(cat),
        enc_name_sec(e, cat).len() <= m <= spec_encode_dna1(e, cat).len(),
    ensures
        spec_has_tag(spec_encode_dna1(e, cat).subrange(0, m), 0, 83, 68, 78, 65),
        spec_has_tag(spec_encode_dna1(e, cat).subrange(0, m), 4, 78, 65, 77, 69),
        spec_cstr_list(e, spec_encode_dna1(e, cat).subrange(0, m), 8) == Ok::<
            (Seq<Seq<u8>>, int),
            BlendError,
        >((cat.names, pad4(enc_name_sec(e, cat)).len() as int)),
{
    let data = spec_encode_dna1(e, cat);
    let d = data.subrange(0, m);
    let ns = enc_name_sec(e, cat);
    let nlen = cat.names.len() as int;
    let enc_n = spec_enc_cstrs(cat.names, nlen);
    lemma_rt_prefixes(e, cat);
    lemma_rt_name(e, cat);
    assert(d[0] == data[0]);
    assert(d[1] == data[1]);
    assert(d[2] == data[2]);
    assert(d[3] == data[3]);
    assert(d[4] == data[4]);
    assert(d[5] == data[5]);
    assert(d[6] == data[6]);
    assert(d[7] == data[7]);
    lemma_take_sub(data, m, 8, 12);
    assert(ns.subrange(8, 12) =~= spec_u32_bytes(e, cat.names.len() as u32));
    lemma_window(data, 0, ns, 8, 12);
    lemma_u32_round_trip(e, cat.names.len() as u32);
    lemma_take_sub(data, m, 12, ns.len() as int);
    assert(ns.subrange(12, ns.len() as int) =~= enc_n);
    lemma_window(data, 0, ns, 12, ns.len() as int);
    lemma_cstrs_decode(d, 12, cat.names, nlen);
    assert(cat.names.subrange(0, nlen) =~= cat.names);
    lemma_align4(ns.len() as int);
}

/// On any prefix that still holds the whole TYPE section, that section
/// decodes as on the full payload.
#[verifier::rlimit(100)]
proof fn lemma_trunc_type_ok(e: BlendEndian, cat: SchemaCatalogV, m: int)
    requires
        cat_wf(cat),
        enc_b(e, cat).len() <= m <= spec_encode_dna1(e, cat).len(),
    ensures
        spec_has_tag(
            spec_encode_dna1(e, cat).subrange(0, m),
            pad4(enc_name_sec(e, cat)).len() as int,
            84,
            89,
            80,
            69,
        ),
        spec_cstr_list(
            e,
            spec_encode_dna1(e, cat).subrange(0, m),
            pad4(enc_name_sec(e, cat)).len() as int + 4,
        ) == Ok::<(Seq<Seq<u8>>, int), BlendError>((cat.types, pad4(enc_b(e, cat)).len() as int)),
{
    let data = spec_encode_dna1(e, cat);
    let d = data.subrange(0, m);
    let b = enc_b(e, cat);
    let f1 = pad4(enc_name_sec(e, cat)).len() as int;
    let tlen = cat.types.len() as int;
    let enc_t = spec_enc_cstrs(cat.types, tlen);
    lemma_rt_prefixes(e, cat);
    lemma_rt_type(e, cat);
    assert(d[f1] == data[f1]);
    assert(d[f1 + 1] == data[f1 + 1]);
    assert(d[f1 + 2] == data[f1 + 2]);
    assert(d[f1 + 3] == data[f1 + 3]);
    lemma_take_sub(data, m, f1 + 4, f1 + 8);
    assert(b.subrange(f1 + 4, f1 + 8) =~= spec_u32_bytes(e, cat.types.len() as u32));
    lemma_window(data, 0, b, f1 + 4, f1 + 8);
    lemma_u32_round_trip(e, cat.types.len() as u32);
    lemma_take_sub(data, m, f1 + 8, b.len() as int);
    assert(b.subrange(f1 + 8, b.len() as int) =~= enc_t);
    lemma_window(data, 0, b, f1 + 8, b.len() as int);
    lemma_cstrs_decode(d, f1 + 8, cat.types, tlen);
    assert(cat.types.subrange(0, tlen) =~= cat.types);
    lemma_align4(b.len() as int);
}

/// On any prefix that still holds the whole TLEN section, that section
/// decodes as on the full payload.
#[verifier::rlimit(100)]
proof fn lemma_trunc_tlen_ok(e: BlendEndian, cat: SchemaCatalogV, m: int)
    requires
        cat_wf(cat),
        enc_c(e, cat).len() <= m <= spec_encode_dna1(e, cat).len(),
    ensures
        spec_has_tag(
            spec_encode_dna1(e, cat).subrange(0, m),
            pad4(enc_b(e, cat)).len() as int,
            84,
            76,
            69,
            78,
        ),
        crate::dna::spec_tlen_list(
            e,
            spec_encode_dna1(e, cat).subrange(0, m),
            pad4(enc_b(e, cat)).len() as int + 4,
            cat.types.len(),
        ) == Ok::<(Seq<u16>, int), BlendError>((cat.lengths, pad4(enc_c(e, cat)).len() as int)),
{
    let data = spec_encode_dna1(e, cat);
    let d = data.subrange(0, m);
    let c = enc_c(e, cat);
    let f2 = pad4(enc_b(e, cat)).len() as int;
    let tlen = cat.types.len() as int;
    let enc_l = spec_enc_u16s(e, cat.lengths, tlen);
    lemma_rt_prefixes(e, cat);
    lemma_rt_tlen(e, cat);
    lemma_enc_u16s_len(e, cat.lengths, tlen);
    assert(d[f2] == data[f2]);
    assert(d[f2 + 1] == data[f2 + 1]);
    assert(d[f2 + 2] == data[f2 + 2]);
    assert(d[f2 + 3] == data[f2 + 3]);
    lemma_take_sub(data, m, f2 + 4, c.len() as int);
    assert(c.subrange(f2 + 4, c.len() as int) =~= enc_l);
    lemma_window(data, 0, c, f2 + 4, c.len() as int);
    lemma_u16s_decode(e, d, f2 + 4, cat.lengths, tlen);
    assert(cat.lengths.subrange(0, tlen) =~= cat.lengths);
    lemma_align4(c.len() as int);
}

/// A prefix cut inside the header tags or the NAME count fails to decode.
#[verifier::rlimit(100)]
proof fn lemma_trunc_r1a(e: BlendEndian, cat: SchemaCatalogV, m: int)
    requires
        cat_wf(cat),
        0 <= m <= spec_encode_dna1(e, cat).len(),
        m < 12,
    ensures
        spec_read_dna1(e, spec_encode_dna1(e, cat).subrange(0, m)) is Err,
{
    let data = spec_encode_dna1(e, cat);
    let d = data.subrange(0, m);
    if m < 8 {
        assert(!spec_has_tag(d, 4, 78, 65, 77, 69));
    }
}

/// A prefix cut inside the NAME strings fails to decode.
#[verifier::rlimit(100)]
proof fn lemma_trunc_r1b(e: BlendEndian, cat: SchemaCatalogV, m: int)
    requires
        cat_wf(cat),
        12 <= m <= spec_encode_dna1(e, cat).len(),
        m < enc_name_sec(e, cat).len(),
    ensures
        spec_read_dna1(e, spec_encode_dna1(e, cat).subrange(0, m)) is Err,
{
    let data = spec_encode_dna1(e, cat);
    let d = data.subrange(0, m);
    let ns = enc_name_sec(e, cat);
    let nlen = cat.names.len() as int;
    let enc_n = spec_enc_cstrs(cat.names, nlen);
    lemma_rt_prefixes(e, cat);
    lemma_rt_name(e, cat);
    lemma_take_sub(data, m, 8, 12);
    assert(ns.subrange(8, 12) =~= spec_u32_bytes(e, cat.names.len() as u32));
    lemma_window(data, 0, ns, 8, 12);
    lemma_u32_round_trip(e, cat.names.len() as u32);
    lemma_take_sub(data, m, 12, m);
    lemma_window(data, 0, ns, 12, m);
    assert(ns.subrange(12, m) =~= enc_n.subrange(0, m - 12));
    lemma_cstrs_trunc(d, 12, cat.names, nlen);
}

/// A prefix cut inside the NAME padding or the TYPE tag or count fails.
#[verifier::rlimit(100)]
proof fn lemma_trunc_r1c(e: BlendEndian, cat: SchemaCatalogV, m: int)
    requires
        cat_wf(cat),
        enc_name_sec(e, cat).len() <= m <= spec_encode_dna1(e, cat).len(),
        m < pad4(enc_name_sec(e, cat)).len() as int + 8,
    ensures
        spec_read_dna1(e, spec_encode_dna1(e, cat).subrange(0, m)) is Err,
{
    let data = spec_encode_dna1(e, cat);
    let d = data.subrange(0, m);
    let f1 = pad4(enc_name_sec(e, cat)).len() as int;
    lemma_trunc_name_ok(e, cat, m);
    if m < f1 + 4 {
        assert(!spec_has_tag(d, f1, 84, 89, 80, 69));
    } else {
        // the TYPE tag is present, but its count is cut
        lemma_rt_type(e, cat);
        assert(d[f1] == data[f1]);
        assert(d[f1 + 1] == data[f1 + 1]);
        assert(d[f1 + 2] == data[f1 + 2]);
        assert(d[f1 + 3] == data[f1 + 3]);
        assert(m < f1 + 8);
    }
}

/// Inside the TYPE section, a prefix still shows the type count and the cut
/// front of the packed type names.
#[verifier::rlimit(100)]
proof fn lemma_trunc_r2a_pre(e: BlendEndian, cat: SchemaCatalogV, m: int)
    requires
        cat_wf(cat),
        pad4(enc_name_sec(e, cat)).len() as int + 8 <= m <= spec_encode_dna1(e, cat).len(),
        m < enc_b(e, cat).len(),
    ensures
        spec_u32(
            e,
            spec_encode_dna1(e, cat).subrange(0, m).subrange(
                pad4(enc_name_sec(e, cat)).len() as int + 4,
                pad4(enc_name_sec(e, cat)).len() as int + 8,
            ),
        ) == cat.types.len() as u32,
        spec_encode_dna1(e, cat).subrange(0, m).subrange(
            pad4(enc_name_sec(e, cat)).len() as int + 8,
            m,
        ) == spec_enc_cstrs(cat.types, cat.types.len() as int).subrange(
            0,
            m - (pad4(enc_name_sec(e, cat)).len() as int + 8),
        ),
        enc_b(e, cat).len() == pad4(enc_name_sec(e, cat)).len() as int + 8 + spec_enc_cstrs(
            cat.types,
            cat.types.len() as int,
        ).len(),
{
    let data = spec_encode_dna1(e, cat);
    let b = enc_b(e, cat);
    let f1 = pad4(enc_name_sec(e, cat)).len() as int;
    let tlen = cat.types.len() as int;
    let enc_t = spec_enc_cstrs(cat.types, tlen);
    lemma_rt_prefixes(e, cat);
    lemma_take_sub(data, m, f1 + 4, f1 + 8);
    assert(b.subrange(f1 + 4, f1 + 8) =~= spec_u32_bytes(e, cat.types.len() as u32));
    lemma_window(data, 0, b, f1 + 4, f1 + 8);
    lemma_u32_round_trip(e, cat.types.len() as u32);
    lemma_take_sub(data, m, f1 + 8, m);
    lemma_window(data, 0, b, f1 + 8, m);
    assert(b.subrange(f1 + 8, m) =~= enc_t.subrange(0, m - (f1 + 8)));
}

/// A prefix cut inside the TYPE strings fails.
#[verifier::rlimit(100)]
proof fn lemma_trunc_r2a(e: BlendEndian, cat: SchemaCatalogV, m: int)
    requires
        cat_wf(cat),
        0 <= m <= spec_encode_dna1(e, cat).len(),
        pad4(enc_name_sec(e, cat)).len() as int + 8 <= m,
        m < enc_b(e, cat).len(),
    ensures
        spec_read_dna1(e, spec_encode_dna1(e, cat).subrange(0, m)) is Err,
{
    let data = spec_encode_dna1(e, cat);
    let d = data.subrange(0, m);
    let f1 = pad4(enc_name_sec(e, cat)).len() as int;
    let tlen = cat.types.len() as int;
    lemma_trunc_name_ok(e, cat, m);
    lemma_trunc_r2a_pre(e, cat, m);
    lemma_cstrs_trunc(d, f1 + 8, cat.types, tlen);
}

/// A prefix cut inside the TYPE padding or the TLEN tag fails.
#[verifier::rlimit(100)]
proof fn lemma_trunc_r2b(e: BlendEndian, cat: SchemaCatalogV, m: int)
    requires
        cat_wf(cat),
        enc_b(e, cat).len() <= m <= spec_encode_dna1(e, cat).len(),
        m < pad4(enc_b(e, cat)).len() as int + 4,
    ensures
        spec_read_dna1(e, spec_encode_dna1(e, cat).subrange(0, m)) is Err,
{
    let data = spec_encode_dna1(e, cat);
    let d = data.subrange(0, m);
    let f2 = pad4(enc_b(e, cat)).len() as int;
    lemma_trunc_name_ok(e, cat, m);
    lemma_trunc_type_ok(e, cat, m);
    assert(!spec_has_tag(d, f2, 84, 76, 69, 78));
}

/// A prefix cut inside the TLEN section or its trailing padding fails.
#[verifier::rlimit(100)]
proof fn lemma_trunc_r3(e: BlendEndian, cat: SchemaCatalogV, m: int)
    requires
        cat_wf(cat),
        0 <= m <= spec_encode_dna1(e, cat).len(),
        pad4(enc_b(e, cat)).len() as int + 4 <= m,
        m < pad4(enc_c(e, cat)).len() as int + 4,
    ensures
        spec_read_dna1(e, spec_encode_dna1(e, cat).subrange(0, m)) is Err,
{
    let data = spec_encode_dna1(e, cat);
    let d = data.subrange(0, m);
    let c = enc_c(e, cat);
    let f2 = pad4(enc_b(e, cat)).len() as int;
    let f3 = pad4(c).len() as int;
    let tlen = cat.types.len() as int;
    lemma_rt_prefixes(e, cat);
    lemma_rt_tlen(e, cat);
    lemma_trunc_name_ok(e, cat, m);
    lemma_trunc_type_ok(e, cat, m);
    lemma_enc_u16s_len(e, cat.lengths, tlen);
    assert(d[f2] == data[f2]);
    assert(d[f2 + 1] == data[f2 + 1]);
    assert(d[f2 + 2] == data[f2 + 2]);
    assert(d[f2 + 3] == data[f2 + 3]);
    if m < c.len() {
        lemma_u16s_shape(e, d, f2 + 4, tlen);
    } else {
        lemma_trunc_tlen_ok(e, cat, m);
        assert(!spec_has_tag(d, f3, 83, 84, 82, 67));
    }
}

/// A prefix cut inside the STRC count fails.
#[verifier::rlimit(100)]
proof fn lemma_trunc_r4a(e: BlendEndian, cat: SchemaCatalogV, m: int)
    requires
        cat_wf(cat),
        pad4(enc_c(e, cat)).len() as int + 4 <= m <= spec_encode_dna1(e, cat).len(),
        m < pad4(enc_c(e, cat)).len() as int + 8,
    ensures
        spec_read_dna1(e, spec_encode_dna1(e, cat).subrange(0, m)) is Err,
{
    let data = spec_encode_dna1(e, cat);
    let d = data.subrange(0, m);
    let f3 = pad4(enc_c(e, cat)).len() as int;
    lemma_rt_strc(e, cat);
    lemma_trunc_name_ok(e, cat, m);
    lemma_trunc_type_ok(e, cat, m);
    lemma_trunc_tlen_ok(e, cat, m);
    assert(d[f3] == data[f3]);
    assert(d[f3 + 1] == data[f3 + 1]);
    assert(d[f3 + 2] == data[f3 + 2]);
    assert(d[f3 + 3] == data[f3 + 3]);
}

/// Inside the STRC section, a prefix still shows the struct count and the
/// cut front of the packed struct definitions.
#[verifier::rlimit(100)]
proof fn lemma_trunc_r4b_pre(e: BlendEndian, cat: SchemaCatalogV, m: int)
    requires
        cat_wf(cat),
        pad4(enc_c(e, cat)).len() as int + 8 <= m < spec_encode_dna1(e, cat).len(),
    ensures
        spec_u32(
            e,
            spec_encode_dna1(e, cat).subrange(0, m).subrange(
                pad4(enc_c(e, cat)).len() as int + 4,
                pad4(enc_c(e, cat)).len() as int + 8,
            ),
        ) == cat.structs.len() as u32,
        spec_encode_dna1(e, cat).subrange(0, m).subrange(
            pad4(enc_c(e, cat)).len() as int + 8,
            m,
        ) == spec_enc_structs(e, cat.structs, cat.structs.len() as int).subrange(
            0,
            m - (pad4(enc_c(e, cat)).len() as int + 8),
        ),
        spec_encode_dna1(e, cat).len() == pad4(enc_c(e, cat)).len() as int + 8 + spec_enc_structs(
            e,
            cat.structs,
            cat.structs.len() as int,
        ).len(),
{
    let data = spec_encode_dna1(e, cat);
    let f3 = pad4(enc_c(e, cat)).len() as int;
    let slen = cat.structs.len() as int;
    let enc_s = spec_enc_structs(e, cat.structs, slen);
    lemma_rt_strc(e, cat);
    lemma_take_sub(data, m, f3 + 4, f3 + 8);
    assert(data.subrange(f3 + 8, data.len() as int) =~= enc_s);
    lemma_take_sub(data, m, f3 + 8, m);
    lemma_window(data, f3 + 8, enc_s, 0, m - (f3 + 8));
}

/// A prefix cut inside the struct definitions fails.
#[verifier::rlimit(100)]
proof fn lemma_trunc_r4b(e: BlendEndian, cat: SchemaCatalogV, m: int)
    requires
        cat_wf(cat),
        pad4(enc_c(e, cat)).len() as int + 8 <= m < spec_encode_dna1(e, cat).len(),
    ensures
        spec_read_dna1(e, spec_encode_dna1(e, cat).subrange(0, m)) is Err,
{
    let data = spec_encode_dna1(e, cat);
    let d = data.subrange(0, m);
    let f3 = pad4(enc_c(e, cat)).len() as int;
    let slen = cat.structs.len() as int;
    lemma_trunc_name_ok(e, cat, m);
    lemma_trunc_type_ok(e, cat, m);
    lemma_trunc_tlen_ok(e, cat, m);
    lemma_trunc_r4b_pre(e, cat, m);
    lemma_structs_trunc(e, d, f3 + 8, cat.structs, slen);
}

/// Truncating the encoding of a well-formed catalog at any byte boundary
/// before its natural end yields a reported error, never a decoded catalog.
pub proof fn lemma_dna1_truncation(e: BlendEndian, cat: SchemaCatalogV, m: int)
    requires
        cat_wf(cat),
        0 <= m < spec_encode_dna1(e, cat).len(),
    ensures
        spec_read_dna1(e, spec_encode_dna1(e, cat).subrange(0, m)) is Err,
{
    if m < 12 {
        lemma_trunc_r1a(e, cat, m);
    } else if m < enc_name_sec(e, cat).len() {
        lemma_trunc_r1b(e, cat, m);
    } else if m < pad4(enc_name_sec(e, cat)).len() as int + 8 {
        lemma_trunc_r1c(e, cat, m);
    } else if m < enc_b(e, cat).len() {
        lemma_trunc_r2a(e, cat, m);
    } else if m < pad4(enc_b(e, cat)).len() as int + 4 {
        lemma_trunc_r2b(e, cat, m);
    } else if m < pad4(enc_c(e, cat)).len() as int + 4 {
        lemma_trunc_r3(e, cat, m);
    } else if m < pad4(enc_c(e, cat)).len() as int + 8 {
        lemma_trunc_r4a(e, cat, m);
    } else {
        lemma_trunc_r4b(e, cat, m);
    }
}

/// Decoding the encoding of any well-formed catalog gives the catalog back:
/// the decoder produces exactly the names, the types with their parallel
/// sizes, and the struct definitions that were encoded.
#[verifier::rlimit(100)]
pub proof fn lemma_dna1_round_trip(e: BlendEndian, cat: SchemaCatalogV)
    requires
        cat_wf(cat),
    ensures
        spec_read_dna1(e, spec_encode_dna1(e, cat)) == Ok::<SchemaCatalogV, BlendError>(cat),
{
    let data = spec_encode_dna1(e, cat);
    lemma_rt_name(e, cat);
    lemma_rt_type(e, cat);
    lemma_rt_tlen(e, cat);
    lemma_rt_strc(e, cat);
    let decoded = spec_read_dna1(e, data);
    assert(decoded is Ok);
    assert(decoded->Ok_0 =~= cat);
}

} // verus!
