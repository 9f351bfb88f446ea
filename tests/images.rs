use rasterizer::encode::{ppm_text, push_decimal, terminal_frame};
use rasterizer::ppm::{parse_number, parse_ppm, PpmError};

#[test]
fn decimal_digits() {
    let mut out = Vec::new();
    push_decimal(&mut out, 0);
    push_decimal(&mut out, 255);
    push_decimal(&mut out, 1000);
    assert_eq!(out, b"02551000".to_vec());
}

#[test]
fn terminal_frame_of_one_column() {
    let px = vec![vec![(255, 0, 10)], vec![(1, 2, 3)]];
    let text = String::from_utf8(terminal_frame(&px, 1, 2)).unwrap();
    assert_eq!(text, "\x1b[38;2;255;0;10m\x1b[48;2;1;2;3m\u{2580}\x1b[0m\n");
}

#[test]
fn terminal_frame_pairs_rows() {
    let px = vec![vec![(0, 0, 0), (9, 9, 9)], vec![(1, 1, 1), (8, 8, 8)], vec![(2, 2, 2), (7, 7, 7)], vec![(3, 3, 3), (6, 6, 6)]];
    let text = String::from_utf8(terminal_frame(&px, 2, 4)).unwrap();
    let lines: Vec<&str> = text.split('\n').collect();
    assert_eq!(lines.len(), 3);
    assert_eq!(lines[1], "\x1b[38;2;2;2;2m\x1b[48;2;3;3;3m\u{2580}\x1b[0m\x1b[38;2;7;7;7m\x1b[48;2;6;6;6m\u{2580}\x1b[0m");
    assert_eq!(lines[2], "");
}

#[test]
fn ppm_text_of_small_image() {
    let px = vec![vec![(255, 0, 0), (0, 255, 0)], vec![(0, 0, 255), (12, 34, 56)]];
    let text = String::from_utf8(ppm_text(&px, 2, 2)).unwrap();
    assert_eq!(text, "P3 2 2 255\n255 0 0 0 255 0 \n0 0 255 12 34 56 \n");
}

#[test]
fn parse_number_rejects_overflow_and_non_digits() {
    assert_eq!(parse_number(b"0"), Some(0));
    assert_eq!(parse_number(b"1234"), Some(1234));
    assert_eq!(parse_number(b""), None);
    assert_eq!(parse_number(b"12a"), None);
    assert_eq!(parse_number(b"99999999999999999999999"), None);
}

#[test]
fn parse_ppm_reads_rows() {
    let img = parse_ppm("P3\n2 2\n255\n255 0 0 0 255 0\n0 0 255 255 255 255\n").unwrap();
    assert_eq!(img.width, 2);
    assert_eq!(img.height, 2);
    assert_eq!(img.rows, vec![vec![(255, 0, 0), (0, 255, 0)], vec![(0, 0, 255), (255, 255, 255)]]);
}

#[test]
fn parse_ppm_drops_partial_row() {
    let img = parse_ppm("P3 2 1 255\n1 2 3 4 5 6 7 8 9\n").unwrap();
    assert_eq!(img.rows, vec![vec![(1, 2, 3), (4, 5, 6)]]);
}

#[test]
fn parse_ppm_round_trips_written_text() {
    let px = vec![vec![(10, 20, 30)], vec![(40, 50, 60)]];
    let text = String::from_utf8(ppm_text(&px, 1, 2)).unwrap();
    let img = parse_ppm(&text).unwrap();
    assert_eq!((img.width, img.height), (1, 2));
    assert_eq!(img.rows, px);
}

#[test]
fn parse_ppm_errors() {
    assert_eq!(parse_ppm("P6 2 2 255\n").err(), Some(PpmError::MissingHeader));
    assert_eq!(parse_ppm("P3 0 2 255\n1 2 3\n").err(), Some(PpmError::ZeroWidth));
    assert_eq!(parse_ppm("P3 99999999999999999999999 1 255\n").err(), Some(PpmError::BadNumber));
    assert_eq!(parse_ppm("\u{20ac}\u{20ac}\u{20ac}\u{20ac}P3 1 1 255 1 2 3").err(), Some(PpmError::MisplacedHeader));
}

#[test]
fn parse_ppm_zero_width_without_pixels() {
    let img = parse_ppm("P3 0 0 255\n").unwrap();
    assert_eq!((img.width, img.height), (0, 0));
    assert!(img.rows.is_empty());
}
