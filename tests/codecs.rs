use bitcoin_vm::prefix::{
    compact_size, read_compact_size, with_prefix_compact_size, with_prefix_pushdata,
};
use bitcoin_vm::script::{to_csv_script_encode, to_n_sequence_encode, CSVFlag};

#[test]
fn compact_size_tier_boundaries() {
    assert_eq!(compact_size(0), vec![0x00]);
    assert_eq!(compact_size(252), vec![0xfc]);
    assert_eq!(compact_size(253), vec![0xfd, 0xfd, 0x00]);
    assert_eq!(compact_size(65535), vec![0xfd, 0xff, 0xff]);
    assert_eq!(compact_size(65536), vec![0xfe, 0x00, 0x00, 0x01, 0x00]);
    assert_eq!(compact_size(4294967295), vec![0xfe, 0xff, 0xff, 0xff, 0xff]);
    assert_eq!(
        compact_size(4294967296),
        vec![0xff, 0x00, 0x00, 0x00, 0x00, 0x01, 0x00, 0x00, 0x00]
    );
}

#[test]
fn compact_size_prefixes_data() {
    assert_eq!(with_prefix_compact_size(&vec![]), vec![0x00]);
    assert_eq!(with_prefix_compact_size(&vec![0xaa, 0xbb]), vec![0x02, 0xaa, 0xbb]);
    let long = vec![0x11u8; 253];
    let out = with_prefix_compact_size(&long);
    assert_eq!(out.len(), 256);
    assert_eq!(&out[..3], &[0xfd, 0xfd, 0x00]);
    assert_eq!(&out[3..], &long[..]);
    let longer = vec![0x22u8; 65536];
    let out = with_prefix_compact_size(&longer);
    assert_eq!(&out[..5], &[0xfe, 0x00, 0x00, 0x01, 0x00]);
    assert_eq!(out.len(), 65541);
}

#[test]
fn pushdata_small_numbers_use_opcodes() {
    assert_eq!(with_prefix_pushdata(&vec![0x00]), Ok(vec![0x00]));
    for n in 1u8..=16 {
        assert_eq!(with_prefix_pushdata(&vec![n]), Ok(vec![0x50 + n]));
    }
    assert_eq!(with_prefix_pushdata(&vec![0x11]), Ok(vec![0x01, 0x11]));
    assert_eq!(with_prefix_pushdata(&vec![0x05, 0x05]), Ok(vec![0x02, 0x05, 0x05]));
}

#[test]
fn pushdata_length_tiers() {
    let d75 = vec![0xaau8; 75];
    let out = with_prefix_pushdata(&d75).unwrap();
    assert_eq!(out[0], 0x4b);
    assert_eq!(&out[1..], &d75[..]);

    let d76 = vec![0xaau8; 76];
    let out = with_prefix_pushdata(&d76).unwrap();
    assert_eq!(&out[..2], &[0x4c, 0x4c]);
    assert_eq!(&out[2..], &d76[..]);

    let d255 = vec![0xaau8; 255];
    let out = with_prefix_pushdata(&d255).unwrap();
    assert_eq!(&out[..2], &[0x4c, 0xff]);
    assert_eq!(out.len(), 257);

    let d256 = vec![0xaau8; 256];
    let out = with_prefix_pushdata(&d256).unwrap();
    assert_eq!(&out[..3], &[0x4d, 0x00, 0x01]);
    assert_eq!(out.len(), 259);

    let d65536 = vec![0xaau8; 65536];
    let out = with_prefix_pushdata(&d65536).unwrap();
    assert_eq!(&out[..5], &[0x4e, 0x00, 0x00, 0x01, 0x00]);
    assert_eq!(out.len(), 65541);
}

#[test]
fn csv_in_blocks() {
    assert_eq!(to_n_sequence_encode(CSVFlag::Blocks(0)), vec![0, 0, 0, 0]);
    assert_eq!(to_csv_script_encode(CSVFlag::Blocks(0)), vec![0x00, 0xb2, 0x75]);
    assert_eq!(to_csv_script_encode(CSVFlag::Blocks(16)), vec![0x60, 0xb2, 0x75]);
    assert_eq!(to_csv_script_encode(CSVFlag::Blocks(0x7f)), vec![0x01, 0x7f, 0xb2, 0x75]);
    assert_eq!(to_n_sequence_encode(CSVFlag::Blocks(0xffff)), vec![0xff, 0xff, 0, 0]);
    assert_eq!(
        to_csv_script_encode(CSVFlag::Blocks(0xffff)),
        vec![0x03, 0xff, 0xff, 0x00, 0xb2, 0x75]
    );
}

#[test]
fn compact_size_reads_back() {
    for n in [0u64, 1, 252, 253, 65535, 65536, 4294967295, 4294967296, u64::MAX] {
        let mut bytes = compact_size(n);
        let used = bytes.len();
        bytes.extend_from_slice(&[0xab, 0xcd]);
        assert_eq!(read_compact_size(&bytes), Some((n, used)));
    }
}

#[test]
fn compact_size_read_rejects() {
    assert_eq!(read_compact_size(&[]), None);
    assert_eq!(read_compact_size(&[0xfd, 0x01]), None);
    assert_eq!(read_compact_size(&[0xfe, 0, 0, 1]), None);
    assert_eq!(read_compact_size(&[0xff, 0, 0, 0, 0, 1, 0, 0]), None);
    assert_eq!(read_compact_size(&[0xfd, 0xfc, 0x00]), None);
    assert_eq!(read_compact_size(&[0xfe, 0xff, 0xff, 0x00, 0x00]), None);
    assert_eq!(read_compact_size(&[0xff, 0xff, 0xff, 0xff, 0xff, 0, 0, 0, 0]), None);
    assert_eq!(read_compact_size(&[0xfd, 0xfd, 0x00]), Some((253, 3)));
}
