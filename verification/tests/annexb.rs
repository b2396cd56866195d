use niri_android_monitor::annexb::{contains_nal_type, find_start_code, nal_type, AnnexBParser};

#[test]
fn splits_annex_b_across_chunks() {
    let mut parser = AnnexBParser::default();
    parser.push(&[0, 0]);
    assert!(parser.next_nal().is_none());
    parser.push(&[0, 1, 0x09, 0xf0, 0, 0, 0, 1, 0x67, 1]);
    let first = parser.next_nal().unwrap();
    assert_eq!(nal_type(&first), Some(9));
    parser.push(&[2, 0, 0, 1, 0x68, 3]);
    let second = parser.next_nal().unwrap();
    assert_eq!(nal_type(&second), Some(7));
    assert_eq!(nal_type(&parser.finish().unwrap()), Some(8));
}

#[test]
fn finds_short_and_long_start_codes() {
    assert_eq!(find_start_code(&[7, 0, 0, 1, 9], 0), Some((1, 3)));
    assert_eq!(find_start_code(&[7, 0, 0, 0, 1, 9], 0), Some((1, 4)));
    assert_eq!(find_start_code(&[7, 0, 0, 0, 0, 1, 9], 0), Some((2, 4)));
    assert_eq!(find_start_code(&[0, 0, 1, 5, 0, 0, 1], 3), Some((4, 3)));
    assert_eq!(find_start_code(&[0, 0, 1], 1), None);
    assert_eq!(find_start_code(&[0, 0, 0], 0), None);
    assert_eq!(find_start_code(&[0, 0], 0), None);
    assert_eq!(find_start_code(&[], 0), None);
    assert_eq!(find_start_code(&[0, 0, 1], usize::MAX), None);
}

#[test]
fn reads_nal_types_from_the_low_five_bits() {
    assert_eq!(nal_type(&[0, 0, 1, 0x65]), Some(5));
    assert_eq!(nal_type(&[9, 9, 0, 0, 0, 1, 0xe9]), Some(9));
    assert_eq!(nal_type(&[0, 0, 1]), None);
    assert_eq!(nal_type(&[1, 2, 3, 4]), None);
}

#[test]
fn looks_for_a_nal_type_behind_every_start_code() {
    let data = [0, 0, 0, 1, 0x09, 0xf0, 0, 0, 1, 0x67, 1, 0, 0, 0, 1, 0x65, 2];
    assert!(contains_nal_type(&data, 9));
    assert!(contains_nal_type(&data, 7));
    assert!(contains_nal_type(&data, 5));
    assert!(!contains_nal_type(&data, 1));
    assert!(!contains_nal_type(&data, 0x65));
    assert!(!contains_nal_type(&[0, 0, 1], 0));
    assert!(contains_nal_type(&[0, 0, 1, 0, 0, 1], 0));
}

#[test]
fn drops_what_precedes_the_first_start_code() {
    let mut parser = AnnexBParser::default();
    parser.push(&[1, 2, 3, 0, 0, 1, 0x67, 0, 0, 1, 0x68]);
    assert_eq!(parser.next_nal(), Some(vec![0, 0, 1, 0x67]));
    assert_eq!(parser.next_nal(), None);
    assert_eq!(parser.finish(), Some(vec![0, 0, 1, 0x68]));
    assert_eq!(parser.finish(), None);
}

#[test]
fn keeps_bytes_without_a_start_code() {
    let mut parser = AnnexBParser::default();
    parser.push(&[5, 6, 7, 0, 0]);
    assert_eq!(parser.next_nal(), None);
    assert_eq!(parser.finish(), None);
    parser.push(&[1, 0x65]);
    assert_eq!(parser.finish(), Some(vec![5, 6, 7, 0, 0, 1, 0x65]));
}

fn split_in_chunks(stream: &[u8], size: usize) -> (Vec<Vec<u8>>, Option<Vec<u8>>) {
    let mut parser = AnnexBParser::default();
    let mut units = Vec::new();
    for chunk in stream.chunks(size) {
        parser.push(chunk);
        while let Some(unit) = parser.next_nal() {
            units.push(unit);
        }
    }
    (units, parser.finish())
}

#[test]
fn chunk_sizes_do_not_change_the_units() {
    let stream = [
        3, 0, 0, 0, 1, 9, 0xf0, 0, 0, 1, 0x67, 0, 0, 0, 1, 0x68, 0, 0, 0, 0, 1, 0x65, 0, 0, 0, 0, 1,
        9, 1, 0, 0, 1,
    ];
    let (whole, last) = split_in_chunks(&stream, stream.len());
    let mut joined: Vec<u8> = whole.concat();
    joined.extend(last.clone().unwrap());
    assert_eq!(joined, stream[1..].to_vec());
    for size in 1..stream.len() {
        assert_eq!(split_in_chunks(&stream, size), (whole.clone(), last.clone()));
    }
    for unit in &whole {
        let (start, prefix) = find_start_code(unit, 0).unwrap();
        assert_eq!(start, 0);
        assert_eq!(find_start_code(unit, prefix), None);
    }
}
