use clipboard_investigator::size::format_size;

fn float_format(bytes: usize) -> String {
    if bytes < 1024 {
        format!("{} B", bytes)
    } else if bytes < 1024 * 1024 {
        format!("{:.1} KB", bytes as f64 / 1024.0)
    } else {
        format!("{:.1} MB", bytes as f64 / (1024.0 * 1024.0))
    }
}

#[test]
fn format_size_bytes() {
    assert_eq!(format_size(0), "0 B");
    assert_eq!(format_size(512), "512 B");
    assert_eq!(format_size(1023), "1023 B");
}

#[test]
fn format_size_kilobytes() {
    assert_eq!(format_size(1024), "1.0 KB");
    assert_eq!(format_size(1536), "1.5 KB");
    assert_eq!(format_size(1024 * 1024 - 1), "1024.0 KB");
}

#[test]
fn format_size_megabytes() {
    assert_eq!(format_size(1024 * 1024), "1.0 MB");
    assert_eq!(format_size(5 * 1024 * 1024 + 512 * 1024), "5.5 MB");
}

#[test]
fn format_size_halfway_kilobytes() {
    // 1280 bytes are exactly 1.25 KB
    assert_eq!(format_size(1280), float_format(1280));
    assert_eq!(format_size(1280 + 2560), float_format(1280 + 2560));
}

#[test]
fn format_size_agrees_with_float_formatting() {
    for b in 0..200_000usize {
        assert_eq!(format_size(b), float_format(b), "at {}", b);
    }
    let mut b: usize = 1024 * 1024;
    while b < usize::MAX / 3 {
        for d in [0usize, 1, 52428, 52429, 104857, 104858] {
            let x = b + d;
            assert_eq!(format_size(x), float_format(x), "at {}", x);
        }
        b = b / 2 * 3;
    }
    for x in [usize::MAX, usize::MAX - 1, (1usize << 53) + 1, (1usize << 60) + 12345, (1usize << 63) - 1] {
        assert_eq!(format_size(x), float_format(x), "at {}", x);
    }
}

