use blend2zip::{
    read_cstr_list, read_dna1, read_tlen_list, render_index, render_struct, struct_path,
    BlendEndian, BlendError, BlendHeader, BlendUsize, BlendVersion,
};

fn blob(names: &[&str], types: &[&str], lens: &[u16], structs: &[(u16, Vec<(u16, u16)>)]) -> Vec<u8> {
    let mut v = b"SDNA".to_vec();
    v.extend(b"NAME");
    v.extend((names.len() as u32).to_le_bytes());
    for n in names {
        v.extend(n.as_bytes());
        v.push(0);
    }
    while v.len() % 4 != 0 {
        v.push(0);
    }
    v.extend(b"TYPE");
    v.extend((types.len() as u32).to_le_bytes());
    for t in types {
        v.extend(t.as_bytes());
        v.push(0);
    }
    while v.len() % 4 != 0 {
        v.push(0);
    }
    v.extend(b"TLEN");
    for l in lens {
        v.extend(l.to_le_bytes());
    }
    while v.len() % 4 != 0 {
        v.push(0);
    }
    v.extend(b"STRC");
    v.extend((structs.len() as u32).to_le_bytes());
    for (ti, fs) in structs {
        v.extend(ti.to_le_bytes());
        v.extend((fs.len() as u16).to_le_bytes());
        for (ft, fnm) in fs {
            v.extend(ft.to_le_bytes());
            v.extend(fnm.to_le_bytes());
        }
    }
    v
}

fn header32le() -> BlendHeader {
    BlendHeader {
        pointer_width: BlendUsize::U32,
        endian: BlendEndian::LE,
        version: BlendVersion { major: b'3', minor: b'0', patch: b'0' },
    }
}

#[test]
fn catalog_tables_have_the_encoded_sizes() {
    let b = blob(
        &["a", "bb", "*c"],
        &["int", "Foo"],
        &[4, 12],
        &[(1, vec![(0, 0), (0, 1), (0, 2)]), (0, vec![])],
    );
    let cat = read_dna1(BlendEndian::LE, &b).unwrap();
    assert_eq!(cat.names.len(), 3);
    assert_eq!(cat.types.len(), 2);
    assert_eq!(cat.lengths.len(), 2);
    assert_eq!(cat.structs.len(), 2);
    assert_eq!(cat.names, vec![b"a".to_vec(), b"bb".to_vec(), b"*c".to_vec()]);
    assert_eq!(cat.types, vec![b"int".to_vec(), b"Foo".to_vec()]);
    assert_eq!(cat.lengths, vec![4, 12]);
    assert_eq!(cat.structs[0].type_index, 1);
    assert_eq!(cat.structs[0].fields, vec![(0, 0), (0, 1), (0, 2)]);
    assert_eq!(cat.structs[1].type_index, 0);
    assert_eq!(cat.structs[1].fields, vec![]);
}

#[test]
fn catalog_round_trips_in_big_endian_too() {
    // the same catalog laid out big-endian, built by hand
    let mut v = b"SDNA".to_vec();
    v.extend(b"NAME");
    v.extend(1u32.to_be_bytes());
    v.extend(b"x\0");
    v.extend([0, 0]);
    v.extend(b"TYPE");
    v.extend(1u32.to_be_bytes());
    v.extend(b"char\0");
    v.extend([0, 0, 0]);
    v.extend(b"TLEN");
    v.extend(1u16.to_be_bytes());
    v.extend([0, 0]);
    v.extend(b"STRC");
    v.extend(1u32.to_be_bytes());
    v.extend(0u16.to_be_bytes());
    v.extend(1u16.to_be_bytes());
    v.extend(0u16.to_be_bytes());
    v.extend(0u16.to_be_bytes());
    let cat = read_dna1(BlendEndian::BE, &v).unwrap();
    assert_eq!(cat.names, vec![b"x".to_vec()]);
    assert_eq!(cat.types, vec![b"char".to_vec()]);
    assert_eq!(cat.lengths, vec![1]);
    assert_eq!(cat.structs[0].type_index, 0);
    assert_eq!(cat.structs[0].fields, vec![(0, 0)]);
}

#[test]
fn name_list_ends_on_a_4_byte_boundary() {
    // 4-byte count, then "a\0bc\0d\0": 11 bytes of content, aligned up to 12
    let mut v = 3u32.to_le_bytes().to_vec();
    v.extend(b"a\0bc\0d\0");
    let (names, end) = read_cstr_list(BlendEndian::LE, &v, 0).unwrap();
    assert_eq!(names, vec![b"a".to_vec(), b"bc".to_vec(), b"d".to_vec()]);
    assert_eq!(end, 12);
    assert_eq!(end % 4, 0);
}

#[test]
fn size_list_ends_on_a_4_byte_boundary() {
    let mut v = Vec::new();
    for l in [1u16, 2, 3] {
        v.extend(l.to_le_bytes());
    }
    let (lens, end) = read_tlen_list(BlendEndian::LE, &v, 0, 3).unwrap();
    assert_eq!(lens, vec![1, 2, 3]);
    assert_eq!(end, 8);
    assert_eq!(end % 4, 0);
}

#[test]
fn every_truncation_of_a_blob_is_an_error() {
    let b = blob(
        &["a", "b"],
        &["int", "Foo"],
        &[4, 8],
        &[(1, vec![(0, 0), (0, 1)])],
    );
    for cut in 0..b.len() {
        let prefix = b[..cut].to_vec();
        assert!(
            read_dna1(BlendEndian::LE, &prefix).is_err(),
            "prefix of {cut} bytes decoded"
        );
    }
    assert!(read_dna1(BlendEndian::LE, &b).is_ok());
}

#[test]
fn missing_section_magics_report_their_offset() {
    assert_eq!(
        read_dna1(BlendEndian::LE, &b"XDNA".to_vec()).unwrap_err(),
        BlendError::Tag(0)
    );
    assert_eq!(
        read_dna1(BlendEndian::LE, &b"SDNAXAME".to_vec()).unwrap_err(),
        BlendError::Tag(4)
    );
    // a well-formed blob whose TYPE tag is corrupted
    let mut b = blob(&["a"], &["int"], &[4], &[]);
    let type_at = b.windows(4).position(|w| w == b"TYPE").unwrap();
    b[type_at] = b'X';
    assert_eq!(
        read_dna1(BlendEndian::LE, &b).unwrap_err(),
        BlendError::Tag(type_at)
    );
}

#[test]
fn one_struct_renders_its_listing_and_index_row() {
    let b = blob(
        &["a", "b"],
        &["int", "Foo"],
        &[4, 8],
        &[(1, vec![(0, 0), (0, 1)])],
    );
    let cat = read_dna1(BlendEndian::LE, &b).unwrap();
    let listing = render_struct(&cat, 0).unwrap();
    assert_eq!(
        listing,
        b"# name Foo @1\n# size 8\n# fields 2\na\tint\nb\tint\n".to_vec()
    );
    assert_eq!(struct_path(&cat, 0).unwrap(), b"DNA1/Foo.txt".to_vec());
    let index = render_index(&header32le(), &cat);
    let expected = b"sdna\tsize\tpath\n\
-\t0x1\tbuiltin:char\n\
-\t0x2\tbuiltin:short\n\
-\t0x4\tbuiltin:int\n\
-\t0x4\tbuiltin:float\n\
-\t0x8\tbuiltin:long\n\
-\t0x8\tbuiltin:double\n\
-\t0x4\tbuiltin:void\n\
0x0\t0x8\tDNA1/Foo.txt\n";
    assert_eq!(index, expected.to_vec());
}

#[test]
fn out_of_range_indices_skip_one_struct_not_the_rest() {
    // the second struct's type index points past the type table
    let b = blob(
        &["a"],
        &["int", "Foo"],
        &[4, 8],
        &[(1, vec![(0, 0)]), (9, vec![]), (0, vec![])],
    );
    let cat = read_dna1(BlendEndian::LE, &b).unwrap();
    assert!(render_struct(&cat, 0).is_ok());
    assert_eq!(render_struct(&cat, 1).unwrap_err(), BlendError::Index(1));
    assert!(render_struct(&cat, 2).is_ok());
    let index = render_index(&header32le(), &cat);
    let text = String::from_utf8(index).unwrap();
    assert!(text.contains("\n0x0\t0x8\tDNA1/Foo.txt\n"));
    assert!(!text.contains("\n0x1\t"));
    assert!(text.contains("\n0x2\t0x4\tDNA1/int.txt\n"));
}

#[test]
fn field_index_out_of_range_is_reported_per_struct() {
    let b = blob(&["a"], &["int"], &[4], &[(0, vec![(0, 7)])]);
    let cat = read_dna1(BlendEndian::LE, &b).unwrap();
    assert_eq!(render_struct(&cat, 0).unwrap_err(), BlendError::Index(0));
}

#[test]
fn empty_tables_decode_and_align() {
    let b = blob(&[], &[], &[], &[]);
    let cat = read_dna1(BlendEndian::LE, &b).unwrap();
    assert_eq!(cat.names.len(), 0);
    assert_eq!(cat.types.len(), 0);
    assert_eq!(cat.lengths.len(), 0);
    assert_eq!(cat.structs.len(), 0);
}
