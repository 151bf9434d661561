use meshview::header::{check_numbers, number_fits, word_is_at, ELEMENT, END_HEADER, FORMAT};

fn fits(text: &str) -> bool {
    check_numbers(text.as_bytes())
}

#[test]
fn spells_the_words_of_a_header() {
    assert_eq!(&FORMAT, b"format");
    assert_eq!(&ELEMENT, b"element");
    assert_eq!(&END_HEADER, b"end_header");
}

#[test]
fn accepts_a_common_header() {
    assert!(fits("ply\nformat ascii 1.0\nelement vertex 8\nproperty float x\nelement face 12\nproperty list uchar uint vertex_indices\nend_header\n"));
    assert!(fits(""));
    assert!(fits("ply"));
    assert!(fits("\n\n\n"));
}

#[test]
fn accepts_the_largest_number_of_64_bits() {
    assert!(fits("element vertex 18446744073709551615\n"));
    assert!(!fits("element vertex 18446744073709551616\n"));
    assert!(!fits("element vertex 18446744073709551620\n"));
    assert!(!fits("element vertex 28446744073709551615\n"));
    assert!(!fits("element vertex 100000000000000000000\n"));
    assert!(fits("element vertex 9999999999999999999\n"));
}

#[test]
fn accepts_zeros_before_a_number() {
    assert!(fits("element vertex 000000000000000000000000000000000000012\n"));
    assert!(fits("element vertex 0000000000000000000018446744073709551615\n"));
    assert!(!fits("element vertex 0000000000000000000018446744073709551616\n"));
}

#[test]
fn looks_at_both_parts_of_a_version() {
    assert!(fits("format ascii 1.0\n"));
    assert!(!fits("format ascii 99999999999999999999.0\n"));
    assert!(!fits("format ascii 1.99999999999999999999\n"));
    assert!(!fits("format binary_little_endian 1.99999999999999999999"));
}

#[test]
fn looks_at_the_first_line_too() {
    assert!(!fits("element vertex 99999999999999999999\nply\n"));
    assert!(!fits("format ascii 99999999999999999999.0"));
}

#[test]
fn looks_behind_tabs() {
    assert!(!fits("element\tvertex\t99999999999999999999\n"));
    assert!(!fits("element vertex  \t 99999999999999999999\n"));
}

#[test]
fn looks_at_no_other_lines() {
    assert!(fits("comment 99999999999999999999\n"));
    assert!(fits("obj_info 99999999999999999999\n"));
    assert!(fits("property 99999999999999999999\n"));
    assert!(fits("ply 99999999999999999999\n"));
    assert!(fits(" element vertex 99999999999999999999\n"));
    assert!(fits("Element vertex 99999999999999999999\n"));
    assert!(fits("99999999999999999999\n"));
}

#[test]
fn looks_at_no_digits_inside_a_name() {
    assert!(fits("element v99999999999999999999 1\n"));
    assert!(fits("element vertex_99999999999999999999 1\n"));
    assert!(!fits("element v99999999999999999999 99999999999999999999\n"));
}

#[test]
fn looks_at_nothing_behind_the_header() {
    assert!(fits("ply\nformat ascii 1.0\nend_header\nelement vertex 99999999999999999999\n"));
    assert!(fits("end_header\nformat ascii 99999999999999999999.0\n"));
    assert!(fits("end_header and more\nelement vertex 99999999999999999999\n"));
    assert!(!fits("comment end_header\nelement vertex 99999999999999999999\n"));
    assert!(!fits(" end_header\nelement vertex 99999999999999999999\n"));
    assert!(!fits("ply\nelement vertex 99999999999999999999\nend_header\n"));
}

#[test]
fn takes_a_line_to_end_at_a_line_feed_only() {
    assert!(!fits("ply\relement vertex 3\r\nelement face 99999999999999999999\r\n"));
    assert!(fits("ply\relement vertex 99999999999999999999\r\n"));
}

#[test]
fn tells_whether_a_number_fits() {
    assert!(number_fits(b"18446744073709551615", 0));
    assert!(!number_fits(b"18446744073709551616", 0));
    assert!(number_fits(b"18446744073709551616", 1));
    assert!(number_fits(b"x 18446744073709551615 y", 2));
    assert!(number_fits(b"abc", 0));
    assert!(number_fits(b"abc", 3));
    assert!(number_fits(b"", 0));
    assert!(number_fits(b"12", 3));
    assert!(number_fits(b"99999999999999999999", usize::MAX));
    assert!(!number_fits(b"184467440737095516150", 0));
    assert!(number_fits(b"18446744073709551615a0", 0));
}

#[test]
fn finds_a_word_at_a_position() {
    assert!(word_is_at(b"format ascii", 0, &FORMAT));
    assert!(word_is_at(b" format", 1, &FORMAT));
    assert!(!word_is_at(b" format", 0, &FORMAT));
    assert!(!word_is_at(b"forma", 0, &FORMAT));
    assert!(!word_is_at(b"format", 1, &FORMAT));
    assert!(!word_is_at(b"format", 7, &FORMAT));
    assert!(!word_is_at(b"format", usize::MAX, &FORMAT));
    assert!(word_is_at(b"format", 6, b""));
    assert!(word_is_at(b"end_header\n", 0, &END_HEADER));
    assert!(!word_is_at(b"end-header\n", 0, &END_HEADER));
    assert!(word_is_at(b"an element", 3, &ELEMENT));
}
