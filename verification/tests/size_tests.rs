use oxitailr::size::{format_file_size, scaled_decimal, GB, KB, MB};

fn float_size(bytes: u64) -> String {
    if bytes >= GB {
        format!("{:.2} GB", bytes as f64 / GB as f64)
    } else if bytes >= MB {
        format!("{:.2} MB", bytes as f64 / MB as f64)
    } else if bytes >= KB {
        format!("{:.2} KB", bytes as f64 / KB as f64)
    } else {
        format!("{} B", bytes)
    }
}

#[test]
fn file_size_examples() {
    assert_eq!(format_file_size(0), "0 B");
    assert_eq!(format_file_size(1023), "1023 B");
    assert_eq!(format_file_size(1024), "1.00 KB");
    assert_eq!(format_file_size(1536), "1.50 KB");
    assert_eq!(format_file_size(1048576), "1.00 MB");
    assert_eq!(format_file_size(5 * 1073741824), "5.00 GB");
    assert_eq!(format_file_size(u64::MAX), "17179869184.00 GB");
}

#[test]
fn file_size_tie_goes_to_even() {
    // 1152 / 1024 = 1.125 exactly
    assert_eq!(format_file_size(1152), float_size(1152));
    assert_eq!(format_file_size(1152), "1.12 KB");
    // 1.375 exactly
    assert_eq!(format_file_size(1408), float_size(1408));
}

#[test]
fn file_size_matches_float_formatting() {
    for b in 0..70000u64 {
        assert_eq!(format_file_size(b), float_size(b), "bytes {}", b);
    }
    let mut x: u64 = 0x9E37_79B9_7F4A_7C15;
    for _ in 0..200000 {
        x = x.wrapping_mul(6364136223846793005).wrapping_add(1442695040888963407);
        let shift = (x >> 58) as u32;
        let b = x >> shift;
        assert_eq!(format_file_size(b), float_size(b), "bytes {}", b);
    }
    for k in 50..64u32 {
        let base = 1u64 << k;
        for d in 0..3000u64 {
            for b in [base.wrapping_add(d), base.wrapping_sub(d)] {
                assert_eq!(format_file_size(b), float_size(b), "bytes {}", b);
            }
        }
    }
}

#[test]
fn megabytes_with_one_decimal() {
    for b in [0u64, 1, 52428, 52429, 104857, 1048576, 1572864, 123456789, u64::MAX] {
        assert_eq!(scaled_decimal(b, MB, 1), format!("{:.1}", b as f64 / (1024.0 * 1024.0)), "bytes {}", b);
    }
    assert_eq!(scaled_decimal(0, MB, 1), "0.0");
    assert_eq!(scaled_decimal(1572864, MB, 1), "1.5");
}
