//! The SDNA type-catalog decoder: parses the payload of the schema chunk into
//! the name table, the type table with its parallel size table, and the
//! ordered struct definitions.

use vstd::prelude::*;
use vstd::slice::{slice_subrange, slice_to_vec};

use crate::blend::{spec_u16, spec_u32, BlendEndian};
use crate::byte_ext::{align_up4, lemma_align4, spec_align4, spec_find_nul};
use crate::BlendError;

verus! {

/// One structure's layout: which type it defines and its ordered
/// (field-type-index, field-name-index) pairs.
#[derive(Debug)]
pub struct StructDef {
    pub type_index: u16,
    pub fields: Vec<(u16, u16)>,
}

/// The mathematical image of a struct definition.
#[verifier::ext_equal]
pub ghost struct StructDefV {
    pub type_index: u16,
    pub fields: Seq<(u16, u16)>,
}

impl View for StructDef {
    type V = StructDefV;

    open spec fn view(&self) -> StructDefV {
        StructDefV { type_index: self.type_index, fields: self.fields@ }
    }
}

/// The fully decoded SDNA catalog. Indices recorded in `structs` are not
/// validated at decode time against the tables they point into; the range
/// check is deferred to first use, when the catalog is rendered.
#[derive(Debug)]
pub struct SchemaCatalog {
    pub names: Vec<Vec<u8>>,
    pub types: Vec<Vec<u8>>,
    pub lengths: Vec<u16>,
    pub structs: Vec<StructDef>,
}

/// The mathematical image of a catalog.
#[verifier::ext_equal]
pub ghost struct SchemaCatalogV {
    pub names: Seq<Seq<u8>>,
    pub types: Seq<Seq<u8>>,
    pub lengths: Seq<u16>,
    pub structs: Seq<StructDefV>,
}

impl View for SchemaCatalog {
    type V = SchemaCatalogV;

    open spec fn view(&self) -> SchemaCatalogV {
        SchemaCatalogV {
            names: self.names@.map_values(|v: Vec<u8>| v@),
            types: self.types@.map_values(|v: Vec<u8>| v@),
            lengths: self.lengths@,
            structs: self.structs@.map_values(|s: StructDef| s@),
        }
    }
}

/// The four bytes `t0 t1 t2 t3` stand at `from`.
pub open spec fn spec_has_tag(data: Seq<u8>, from: int, t0: u8, t1: u8, t2: u8, t3: u8) -> bool {
    &&& 0 <= from
    &&& from + 4 <= data.len()
    &&& data[from] == t0
    &&& data[from + 1] == t1
    &&& data[from + 2] == t2
    &&& data[from + 3] == t3
}

fn check_tag(dna1: &Vec<u8>, from: usize, t0: u8, t1: u8, t2: u8, t3: u8) -> (r: bool)
    ensures
        r == spec_has_tag(dna1@, from as int, t0, t1, t2, t3),
{
    let len = dna1.len();
    if from > len || len - from < 4 {
        return false;
    }
    dna1[from] == t0 && dna1[from + 1] == t1 && dna1[from + 2] == t2 && dna1[from + 3] == t3
}

fn u16_at(e: BlendEndian, dna1: &Vec<u8>, from: usize) -> (r: u16)
    requires
        from + 2 <= dna1@.len(),
    ensures
        r == spec_u16(e, dna1@.subrange(from as int, from as int + 2)),
{
    let len = dna1.len();
    let a = [dna1[from], dna1[from + 1]];
    proof {
        assert(a@ =~= dna1@.subrange(from as int, from as int + 2));
    }
    e.u16(a)
}

fn u32_at(e: BlendEndian, dna1: &Vec<u8>, from: usize) -> (r: u32)
    requires
        from + 4 <= dna1@.len(),
    ensures
        r == spec_u32(e, dna1@.subrange(from as int, from as int + 4)),
{
    let len = dna1.len();
    let a = [dna1[from], dna1[from + 1], dna1[from + 2], dna1[from + 3]];
    proof {
        assert(a@ =~= dna1@.subrange(from as int, from as int + 4));
    }
    e.u32(a)
}

/// What reading `n` packed NUL-terminated strings yields, starting at `from`:
/// the strings (without their terminators) and the offset just past the last
/// terminator.
pub open spec fn spec_cstrs(data: Seq<u8>, from: int, n: nat) -> Result<
    (Seq<Seq<u8>>, int),
    BlendError,
>
    decreases n,
{
    if n == 0 {
        Ok((seq![], from))
    } else {
        match spec_cstrs(data, from, (n - 1) as nat) {
            Err(e) => Err(e),
            Ok((items, cur)) => match spec_find_nul(data, cur) {
                None => Err(BlendError::Truncated(cur as usize)),
                Some(i) => Ok((items.push(data.subrange(cur, i)), i + 1)),
            },
        }
    }
}

/// Once reading a string list has failed, asking for more strings reports the
/// same failure.
proof fn lemma_cstrs_err(data: Seq<u8>, from: int, k: nat, n: nat)
    requires
        k <= n,
        spec_cstrs(data, from, k) is Err,
    ensures
        spec_cstrs(data, from, n) == spec_cstrs(data, from, k),
    decreases n,
{
    if n > k {
        lemma_cstrs_err(data, from, k, (n - 1) as nat);
    }
}

/// What decoding one string-list section yields: a 4-byte count, that many
/// packed NUL-terminated strings, then the offset rounded up to the next
/// multiple of 4.
pub open spec fn spec_cstr_list(e: BlendEndian, data: Seq<u8>, from: int) -> Result<
    (Seq<Seq<u8>>, int),
    BlendError,
> {
    if from < 0 || from + 4 > data.len() {
        Err(BlendError::Truncated(from as usize))
    } else {
        let n = spec_u32(e, data.subrange(from, from + 4));
        match spec_cstrs(data, from + 4, n as nat) {
            Err(e2) => Err(e2),
            Ok((items, end)) => Ok((items, spec_align4(end))),
        }
    }
}

/// Decodes one string-list section (the NAME and TYPE sections). On success
/// the returned next offset is always a multiple of 4.
pub fn read_cstr_list(endian: BlendEndian, dna1: &Vec<u8>, from: usize) -> (r: Result<
    (Vec<Vec<u8>>, usize),
    BlendError,
>)
    requires
        dna1@.len() + 3 <= usize::MAX,
    ensures
        (match (r, spec_cstr_list(endian, dna1@, from as int)) {
            (Ok((items, end)), Ok((sitems, send))) => {
                &&& items@.map_values(|v: Vec<u8>| v@) == sitems
                &&& end as int == send
                &&& end % 4 == 0
                &&& end <= dna1@.len() + 3
            },
            (Err(a), Err(b)) => a == b,
            _ => false,
        }),
{
    let len = dna1.len();
    if from > len || len - from < 4 {
        return Err(BlendError::Truncated(from));
    }
    let count = u32_at(endian, dna1, from);
    let start = from + 4;
    let mut items: Vec<Vec<u8>> = Vec::new();
    let mut cur: usize = start;
    let mut i: u32 = 0;
    proof {
        assert(items@.map_values(|v: Vec<u8>| v@) =~= Seq::<Seq<u8>>::empty());
    }
    while i < count
        invariant
            dna1@.len() + 3 <= usize::MAX,
            len == dna1@.len(),
            from + 4 <= dna1@.len(),
            start == from + 4,
            count == spec_u32(endian, dna1@.subrange(from as int, from as int + 4)),
            cur <= dna1@.len(),
            i <= count,
            spec_cstrs(dna1@, start as int, i as nat) == Ok::<(Seq<Seq<u8>>, int), BlendError>(
                (items@.map_values(|v: Vec<u8>| v@), cur as int),
            ),
        decreases count - i,
    {
        let mut j = cur;
        while j < len && dna1[j] != 0
            invariant
                len == dna1@.len(),
                cur <= j <= dna1@.len(),
                spec_find_nul(dna1@, cur as int) == spec_find_nul(dna1@, j as int),
            decreases dna1@.len() - j,
        {
            j = j + 1;
        }
        if j == len {
            proof {
                lemma_cstrs_err(dna1@, start as int, (i + 1) as nat, count as nat);
            }
            return Err(BlendError::Truncated(cur));
        }
        let name = slice_to_vec(slice_subrange(dna1.as_slice(), cur, j));
        let ghost old_items = items@;
        items.push(name);
        proof {
            assert(items@.map_values(|v: Vec<u8>| v@) =~= old_items.map_values(
                |v: Vec<u8>| v@,
            ).push(name@));
        }
        cur = j + 1;
        i = i + 1;
    }
    proof {
        lemma_align4(cur as int);
    }
    let end = align_up4(cur);
    Ok((items, end))
}

/// What reading `n` packed 2-byte sizes yields, starting at `from`.
pub open spec fn spec_u16s(e: BlendEndian, data: Seq<u8>, from: int, n: nat) -> Result<
    (Seq<u16>, int),
    BlendError,
>
    decreases n,
{
    if n == 0 {
        Ok((seq![], from))
    } else {
        match spec_u16s(e, data, from, (n - 1) as nat) {
            Err(e2) => Err(e2),
            Ok((items, cur)) => if cur + 2 > data.len() {
                Err(BlendError::Truncated(cur as usize))
            } else {
                Ok((items.push(spec_u16(e, data.subrange(cur, cur + 2))), cur + 2))
            },
        }
    }
}

proof fn lemma_u16s_err(e: BlendEndian, data: Seq<u8>, from: int, k: nat, n: nat)
    requires
        k <= n,
        spec_u16s(e, data, from, k) is Err,
    ensures
        spec_u16s(e, data, from, n) == spec_u16s(e, data, from, k),
    decreases n,
{
    if n > k {
        lemma_u16s_err(e, data, from, k, (n - 1) as nat);
    }
}

/// What decoding the TLEN section yields: `n` 2-byte sizes (`n` comes from
/// the type table, not from the stream), then alignment to a multiple of 4.
pub open spec fn spec_tlen_list(e: BlendEndian, data: Seq<u8>, from: int, n: nat) -> Result<
    (Seq<u16>, int),
    BlendError,
> {
    match spec_u16s(e, data, from, n) {
        Err(e2) => Err(e2),
        Ok((items, end)) => Ok((items, spec_align4(end))),
    }
}

/// Decodes the TLEN section: `count` 2-byte type sizes. On success the
/// returned next offset is always a multiple of 4.
pub fn read_tlen_list(endian: BlendEndian, dna1: &Vec<u8>, from: usize, count: usize) -> (r: Result<
    (Vec<u16>, usize),
    BlendError,
>)
    requires
        dna1@.len() + 3 <= usize::MAX,
        from <= dna1@.len(),
    ensures
        (match (r, spec_tlen_list(endian, dna1@, from as int, count as nat)) {
            (Ok((items, end)), Ok((sitems, send))) => {
                &&& items@ == sitems
                &&& end as int == send
                &&& end % 4 == 0
                &&& end <= dna1@.len() + 3
            },
            (Err(a), Err(b)) => a == b,
            _ => false,
        }),
{
    let len = dna1.len();
    let mut items: Vec<u16> = Vec::new();
    let mut cur: usize = from;
    let mut i: usize = 0;
    proof {
        assert(items@ =~= Seq::<u16>::empty());
    }
    while i < count
        invariant
            dna1@.len() + 3 <= usize::MAX,
            len == dna1@.len(),
            cur <= dna1@.len(),
            i <= count,
            spec_u16s(endian, dna1@, from as int, i as nat) == Ok::<(Seq<u16>, int), BlendError>(
                (items@, cur as int),
            ),
        decreases count - i,
    {
        if len - cur < 2 {
            proof {
                lemma_u16s_err(endian, dna1@, from as int, (i + 1) as nat, count as nat);
            }
            return Err(BlendError::Truncated(cur));
        }
        let v = u16_at(endian, dna1, cur);
        items.push(v);
        cur = cur + 2;
        i = i + 1;
    }
    proof {
        lemma_align4(cur as int);
    }
    let end = align_up4(cur);
    Ok((items, end))
}

/// What reading `n` (field-type-index, field-name-index) pairs yields.
pub open spec fn spec_fields(e: BlendEndian, data: Seq<u8>, from: int, n: nat) -> Result<
    (Seq<(u16, u16)>, int),
    BlendError,
>
    decreases n,
{
    if n == 0 {
        Ok((seq![], from))
    } else {
        match spec_fields(e, data, from, (n - 1) as nat) {
            Err(e2) => Err(e2),
            Ok((items, cur)) => if cur + 2 > data.len() {
                Err(BlendError::Truncated(cur as usize))
            } else if cur + 4 > data.len() {
                Err(BlendError::Truncated((cur + 2) as usize))
            } else {
                Ok(
                    (
                        items.push(
                            (
                                spec_u16(e, data.subrange(cur, cur + 2)),
                                spec_u16(e, data.subrange(cur + 2, cur + 4)),
                            ),
                        ),
                        cur + 4,
                    ),
                )
            },
        }
    }
}

proof fn lemma_fields_err(e: BlendEndian, data: Seq<u8>, from: int, k: nat, n: nat)
    requires
        k <= n,
        spec_fields(e, data, from, k) is Err,
    ensures
        spec_fields(e, data, from, n) == spec_fields(e, data, from, k),
    decreases n,
{
    if n > k {
        lemma_fields_err(e, data, from, k, (n - 1) as nat);
    }
}

/// What reading `n` struct definitions yields: each is a 2-byte type index, a
/// 2-byte field count, then that many field pairs, packed with no alignment.
pub open spec fn spec_structs(e: BlendEndian, data: Seq<u8>, from: int, n: nat) -> Result<
    (Seq<StructDefV>, int),
    BlendError,
>
    decreases n,
{
    if n == 0 {
        Ok((seq![], from))
    } else {
        match spec_structs(e, data, from, (n - 1) as nat) {
            Err(e2) => Err(e2),
            Ok((items, cur)) => if cur + 2 > data.len() {
                Err(BlendError::Truncated(cur as usize))
            } else if cur + 4 > data.len() {
                Err(BlendError::Truncated((cur + 2) as usize))
            } else {
                let ti = spec_u16(e, data.subrange(cur, cur + 2));
                let fc = spec_u16(e, data.subrange(cur + 2, cur + 4));
                match spec_fields(e, data, cur + 4, fc as nat) {
                    Err(e2) => Err(e2),
                    Ok((fs, end)) => Ok(
                        (items.push(StructDefV { type_index: ti, fields: fs }), end),
                    ),
                }
            },
        }
    }
}

proof fn lemma_structs_err(e: BlendEndian, data: Seq<u8>, from: int, k: nat, n: nat)
    requires
        k <= n,
        spec_structs(e, data, from, k) is Err,
    ensures
        spec_structs(e, data, from, n) == spec_structs(e, data, from, k),
    decreases n,
{
    if n > k {
        lemma_structs_err(e, data, from, k, (n - 1) as nat);
    }
}

/// Decodes the STRC body: `count` packed struct definitions starting at
/// `from`.
fn read_structs(endian: BlendEndian, dna1: &Vec<u8>, from: usize, count: u32) -> (r: Result<
    (Vec<StructDef>, usize),
    BlendError,
>)
    requires
        from <= dna1@.len(),
    ensures
        (match (r, spec_structs(endian, dna1@, from as int, count as nat)) {
            (Ok((items, end)), Ok((sitems, send))) => {
                &&& items@.map_values(|s: StructDef| s@) == sitems
                &&& end as int == send
            },
            (Err(a), Err(b)) => a == b,
            _ => false,
        }),
{
    let len = dna1.len();
    let mut items: Vec<StructDef> = Vec::new();
    let mut cur: usize = from;
    let mut i: u32 = 0;
    proof {
        assert(items@.map_values(|s: StructDef| s@) =~= Seq::<StructDefV>::empty());
    }
    while i < count
        invariant
            len == dna1@.len(),
            cur <= dna1@.len(),
            i <= count,
            spec_structs(endian, dna1@, from as int, i as nat) == Ok::<
                (Seq<StructDefV>, int),
                BlendError,
            >((items@.map_values(|s: StructDef| s@), cur as int)),
        decreases count - i,
    {
        if len - cur < 2 {
            proof {
                lemma_structs_err(endian, dna1@, from as int, (i + 1) as nat, count as nat);
            }
            return Err(BlendError::Truncated(cur));
        }
        if len - cur < 4 {
            proof {
                lemma_structs_err(endian, dna1@, from as int, (i + 1) as nat, count as nat);
            }
            return Err(BlendError::Truncated(cur + 2));
        }
        let ti = u16_at(endian, dna1, cur);
        let fc = u16_at(endian, dna1, cur + 2);
        let fstart = cur + 4;
        let mut fields: Vec<(u16, u16)> = Vec::new();
        let mut fcur: usize = fstart;
        let mut k: u16 = 0;
        proof {
            assert(fields@ =~= Seq::<(u16, u16)>::empty());
        }
        while k < fc
            invariant
                len == dna1@.len(),
                i < count,
                cur + 4 <= dna1@.len(),
                fstart == cur + 4,
                ti == spec_u16(endian, dna1@.subrange(cur as int, cur as int + 2)),
                fc == spec_u16(endian, dna1@.subrange(cur as int + 2, cur as int + 4)),
                spec_structs(endian, dna1@, from as int, i as nat) == Ok::<
                    (Seq<StructDefV>, int),
                    BlendError,
                >((items@.map_values(|s: StructDef| s@), cur as int)),
                fcur <= dna1@.len(),
                k <= fc,
                spec_fields(endian, dna1@, fstart as int, k as nat) == Ok::<
                    (Seq<(u16, u16)>, int),
                    BlendError,
                >((fields@, fcur as int)),
            decreases fc - k,
        {
            if len - fcur < 2 {
                proof {
                    lemma_fields_err(endian, dna1@, fstart as int, (k + 1) as nat, fc as nat);
                    lemma_structs_err(endian, dna1@, from as int, (i + 1) as nat, count as nat);
                }
                return Err(BlendError::Truncated(fcur));
            }
            if len - fcur < 4 {
                proof {
                    lemma_fields_err(endian, dna1@, fstart as int, (k + 1) as nat, fc as nat);
                    lemma_structs_err(endian, dna1@, from as int, (i + 1) as nat, count as nat);
                }
                return Err(BlendError::Truncated(fcur + 2));
            }
            let ftype = u16_at(endian, dna1, fcur);
            let fname = u16_at(endian, dna1, fcur + 2);
            fields.push((ftype, fname));
            fcur = fcur + 4;
            k = k + 1;
        }
        let ghost old_items = items@;
        let sdef = StructDef { type_index: ti, fields };
        let ghost sdefv = sdef@;
        items.push(sdef);
        proof {
            assert(items@.map_values(|s: StructDef| s@) =~= old_items.map_values(
                |s: StructDef| s@,
            ).push(sdefv));
        }
        cur = fcur;
        i = i + 1;
    }
    Ok((items, cur))
}

/// What decoding a whole SDNA payload yields: the `SDNA` magic, the NAME
/// list, the TYPE list, the TLEN list (one size per type), and the STRC list.
pub open spec fn spec_read_dna1(e: BlendEndian, data: Seq<u8>) -> Result<
    SchemaCatalogV,
    BlendError,
> {
    if !spec_has_tag(data, 0, 83, 68, 78, 65) {
        Err(BlendError::Tag(0))
    } else if !spec_has_tag(data, 4, 78, 65, 77, 69) {
        Err(BlendError::Tag(4))
    } else {
        match spec_cstr_list(e, data, 8) {
            Err(er) => Err(er),
            Ok((names, f1)) => if !spec_has_tag(data, f1, 84, 89, 80, 69) {
                Err(BlendError::Tag(f1 as usize))
            } else {
                match spec_cstr_list(e, data, f1 + 4) {
                    Err(er) => Err(er),
                    Ok((types, f2)) => if !spec_has_tag(data, f2, 84, 76, 69, 78) {
                        Err(BlendError::Tag(f2 as usize))
                    } else {
                        match spec_tlen_list(e, data, f2 + 4, types.len()) {
                            Err(er) => Err(er),
                            Ok((lengths, f3)) => if !spec_has_tag(data, f3, 83, 84, 82, 67) {
                                Err(BlendError::Tag(f3 as usize))
                            } else if f3 + 8 > data.len() {
                                Err(BlendError::Truncated((f3 + 4) as usize))
                            } else {
                                let s = spec_u32(e, data.subrange(f3 + 4, f3 + 8));
                                match spec_structs(e, data, f3 + 8, s as nat) {
                                    Err(er) => Err(er),
                                    Ok((structs, _end)) => Ok(
                                        SchemaCatalogV { names, types, lengths, structs },
                                    ),
                                }
                            },
                        }
                    },
                }
            },
        }
    }
}

/// Decodes a whole SDNA payload into a catalog. A truncated or malformed
/// payload yields a position-tagged error, never an out-of-bounds access.
pub fn read_dna1(endian: BlendEndian, dna1: &Vec<u8>) -> (r: Result<SchemaCatalog, BlendError>)
    requires
        dna1@.len() + 3 <= usize::MAX,
    ensures
        (match (r, spec_read_dna1(endian, dna1@)) {
            (Ok(cat), Ok(catv)) => cat@ == catv,
            (Err(a), Err(b)) => a == b,
            _ => false,
        }),
{
    if !check_tag(dna1, 0, 83, 68, 78, 65) {
        return Err(BlendError::Tag(0));
    }
    if !check_tag(dna1, 4, 78, 65, 77, 69) {
        return Err(BlendError::Tag(4));
    }
    let (names, f1) = match read_cstr_list(endian, dna1, 8) {
        Ok(p) => p,
        Err(e) => return Err(e),
    };
    if !check_tag(dna1, f1, 84, 89, 80, 69) {
        return Err(BlendError::Tag(f1));
    }
    let (types, f2) = match read_cstr_list(endian, dna1, f1 + 4) {
        Ok(p) => p,
        Err(e) => return Err(e),
    };
    if !check_tag(dna1, f2, 84, 76, 69, 78) {
        return Err(BlendError::Tag(f2));
    }
    let (lengths, f3) = match read_tlen_list(endian, dna1, f2 + 4, types.len()) {
        Ok(p) => p,
        Err(e) => return Err(e),
    };
    if !check_tag(dna1, f3, 83, 84, 82, 67) {
        return Err(BlendError::Tag(f3));
    }
    let len = dna1.len();
    if len - f3 < 8 {
        return Err(BlendError::Truncated(f3 + 4));
    }
    let s = u32_at(endian, dna1, f3 + 4);
    let (structs, _end) = match read_structs(endian, dna1, f3 + 8, s) {
        Ok(p) => p,
        Err(e) => return Err(e),
    };
    let cat = SchemaCatalog { names, types, lengths, structs };
    proof {
        let sv = spec_read_dna1(endian, dna1@);
        assert(sv is Ok);
        assert(cat@ =~= sv->Ok_0);
    }
    Ok(cat)
}

} // verus!
