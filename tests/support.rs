use syntax_launcher::clock::{format_clock, get_time};
use syntax_launcher::digest::{cache_path, generate_md5, hex_lower};
use syntax_launcher::terminal::{is_large, is_wide};

#[test]
fn md5_of_known_inputs() {
    assert_eq!(generate_md5(""), "d41d8cd98f00b204e9800998ecf8427e");
    assert_eq!(generate_md5("abc"), "900150983cd24fb0d6963f7d28e17f72");
}

#[test]
fn hex_is_lower_case_two_digits_per_byte() {
    assert_eq!(hex_lower(&vec![0x00, 0xff, 0x1a, 0x09]), "00ff1a09");
    assert_eq!(hex_lower(&Vec::new()), "");
}

#[test]
fn cache_file_is_named_by_digest() {
    let p = cache_path(&vec!["/tmp".to_string(), "Downloads".to_string()], "abc");
    assert_eq!(p, vec!["/tmp".to_string(), "Downloads".to_string(), "900150983cd24fb0d6963f7d28e17f72".to_string()]);
}

#[test]
fn clock_is_zero_padded() {
    assert_eq!(format_clock(9, 5, 7), "09:05:07");
    assert_eq!(format_clock(23, 59, 0), "23:59:00");
}

#[test]
fn current_time_has_clock_shape() {
    let t = get_time();
    let b = t.as_bytes();
    assert_eq!(b.len(), 8);
    assert_eq!(b[2], b':');
    assert_eq!(b[5], b':');
    let h: u32 = t[0..2].parse().unwrap();
    assert!(h < 24);
}

#[test]
fn banner_width_threshold() {
    assert!(is_wide(Some((81, 24))));
    assert!(!is_wide(Some((80, 24))));
    assert!(!is_wide(None));
    let _ = is_large();
}
