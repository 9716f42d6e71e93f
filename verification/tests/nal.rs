use prtsc::nal::{split_annex_b_nal, AccessUnit, NAL_TYPE_PPS, NAL_TYPE_SPS};

#[test]
fn splits_both_start_codes() {
    assert_eq!(split_annex_b_nal(&[0, 0, 1, 0x67, 1]), Some((7, &[0x67, 1][..])));
    assert_eq!(split_annex_b_nal(&[0, 0, 0, 1, 0x68, 2, 3]), Some((8, &[0x68, 2, 3][..])));
}

#[test]
fn type_is_the_low_five_bits() {
    assert_eq!(split_annex_b_nal(&[0, 0, 1, 0xff]), Some((31, &[0xff][..])));
    assert_eq!(split_annex_b_nal(&[0, 0, 1, 0x65]), Some((5, &[0x65][..])));
    assert_eq!(split_annex_b_nal(&[0, 0, 1, 0x20]), Some((0, &[0x20][..])));
}

#[test]
fn refuses_what_has_no_start_code_or_nothing_behind_it() {
    assert_eq!(split_annex_b_nal(&[]), None);
    assert_eq!(split_annex_b_nal(&[0, 0]), None);
    assert_eq!(split_annex_b_nal(&[0, 0, 1]), None);
    assert_eq!(split_annex_b_nal(&[0, 0, 0, 1]), None);
    assert_eq!(split_annex_b_nal(&[0, 0, 2, 0x67]), None);
    assert_eq!(split_annex_b_nal(&[0x67, 0, 0, 1]), None);
    assert_eq!(split_annex_b_nal(&[0, 0, 0, 0, 1, 0x67]), None);
}

#[test]
fn splitting_undoes_a_start_code() {
    let payload: [u8; 5] = [0x41, 0, 0, 1, 9];
    for code in [&[0u8, 0, 1][..], &[0u8, 0, 0, 1][..]] {
        let nal: Vec<u8> = [code, &payload[..]].concat();
        assert_eq!(split_annex_b_nal(&nal), Some((1, &payload[..])));
    }
}

#[test]
fn sorts_parameter_sets_from_samples() {
    let mut unit: AccessUnit = AccessUnit::new();
    assert!(unit.sps.is_none() && unit.pps.is_none() && unit.sample.is_empty());
    unit.push_nal(&[0, 0, 0, 1, 0x67, 1, 2, 3]);
    unit.push_nal(&[0, 0, 0, 1, 0x68, 4]);
    unit.push_nal(&[0, 0, 1, 0x65, 5, 6]);
    unit.push_nal(&[9, 9, 9]);
    unit.push_nal(&[0, 0, 1, 0x41]);
    assert_eq!(unit.sps, Some(vec![0x67, 1, 2, 3]));
    assert_eq!(unit.pps, Some(vec![0x68, 4]));
    assert_eq!(unit.sample, vec![0, 0, 0, 3, 0x65, 5, 6, 0, 0, 0, 1, 0x41]);
    assert_eq!((NAL_TYPE_SPS, NAL_TYPE_PPS), (7, 8));
}

#[test]
fn the_last_parameter_set_counts() {
    let mut unit: AccessUnit = AccessUnit::new();
    unit.push_nal(&[0, 0, 1, 0x67, 1]);
    unit.push_nal(&[0, 0, 1, 0x67, 2]);
    unit.push_nal(&[0, 0, 1, 0x28, 3]);
    unit.push_nal(&[0, 0, 1, 0x68, 4]);
    assert_eq!(unit.sps, Some(vec![0x67, 2]));
    assert_eq!(unit.pps, Some(vec![0x68, 4]));
    assert!(unit.sample.is_empty());
}

#[test]
fn lengths_are_four_big_endian_bytes() {
    let mut nal: Vec<u8> = vec![0, 0, 1];
    nal.extend(vec![0x41u8; 0x1_0203]);
    let mut unit: AccessUnit = AccessUnit::new();
    unit.push_nal(&nal);
    assert_eq!(unit.sample.len(), 4 + 0x1_0203);
    assert_eq!(unit.sample[..5], [0x00, 0x01, 0x02, 0x03, 0x41]);
}

#[test]
fn a_sample_reads_back_into_its_nals() {
    let payloads: Vec<Vec<u8>> = vec![vec![0x65], vec![0x41; 300], vec![0x06, 0, 0, 1]];
    let mut unit: AccessUnit = AccessUnit::new();
    for payload in &payloads {
        unit.push_nal(&[&[0u8, 0, 0, 1][..], &payload[..]].concat());
    }
    let mut rest: &[u8] = &unit.sample;
    let mut read: Vec<Vec<u8>> = Vec::new();
    while !rest.is_empty() {
        let len = u32::from_be_bytes([rest[0], rest[1], rest[2], rest[3]]) as usize;
        read.push(rest[4..4 + len].to_vec());
        rest = &rest[4 + len..];
    }
    assert_eq!(read, payloads);
}
