use megamonic::ui::{convert_with_padding, convert_with_padding_proc, maxstr, XY};
use megamonic::ui::memory::Memory as MemoryWidget;
use megamonic::fmt::{push_dec, push_dec_padded, push_fixed, div_round_half_even, u64_to_f64};

const UNITS: [&str; 9] = ["b", "Kb", "Mb", "Gb", "Tb", "Pb", "Eb", "Zb", "Yb"];

fn reference_bytes(num: u64) -> String {
    let mut buffer = String::new();
    if num != 0 {
        let num = num as f64;
        let exponent = (num.ln() / 6.931_471_805_599_453_f64).floor() as i32;
        let pretty = num / 1024_f64.powi(exponent);
        match exponent {
            3 => {
                if pretty >= 10.0 {
                    buffer.push_str(&format!("{:>4.1} Gb", pretty));
                } else {
                    buffer.push_str(&format!("{:>4.2} Gb", pretty));
                }
            }
            2 => buffer.push_str(&format!("{:>4.0} Mb", pretty)),
            1 => buffer.push_str(&format!("{:>4.0} Kb", pretty)),
            0 => buffer.push_str(&format!("{:>5.0} b", pretty)),
            _ => buffer.push_str(&format!("{:>4.1} {}", pretty, UNITS[exponent as usize])),
        }
    } else {
        buffer.push_str(&format!("{:>5.0} b", num));
    }
    buffer
}

fn reference_proc(num: i64, color: &str) -> String {
    let mut buffer = String::new();
    if num != 0 {
        let num = num as f64;
        let exponent = (num.ln() / 1024_f64.ln()).floor() as i32;
        let pretty = num / 1024_f64.powi(exponent);
        match exponent {
            2 => buffer.push_str(&format!("{}{:>4.0} Mb", color, pretty)),
            3 => {
                if pretty >= 10.0 {
                    buffer.push_str(&format!("{}{:>4.1} Gb", color, pretty));
                } else {
                    buffer.push_str(&format!("{}{:>4.2} Gb", color, pretty));
                }
            }
            1 => buffer.push_str(&format!("{}{:>4.0} Kb", color, pretty)),
            0 => buffer.push_str(&format!("{}{:>5.0} b", color, pretty)),
            _ => buffer.push_str(&format!("{}{:>4.1} {}", color, pretty, UNITS[exponent as usize])),
        }
    } else {
        buffer.push_str(&format!("{}  {:>5}", color, "-"));
    }
    buffer
}

fn bytes(num: u64) -> String {
    let mut v = b"stale".to_vec();
    convert_with_padding(&mut v, num);
    String::from_utf8(v).unwrap()
}

fn proc_text(num: i64, color: &str) -> String {
    let mut v = b"stale".to_vec();
    convert_with_padding_proc(&mut v, num, color.as_bytes());
    String::from_utf8(v).unwrap()
}

fn sample_values() -> Vec<u64> {
    let mut v: Vec<u64> = vec![0, 1, 2, 9, 10, 99, 100, 999, 1000, 1023, 1024, 1025, 1535, 1536, 1537, 2047, 2048];
    let mut p: u64 = 1;
    for _ in 0..7 {
        p = p.saturating_mul(1024);
        for d in [1u64, 2, 3, 5, 9, 10, 11, 100, 511, 512, 513, 1000, 1023, 1024, 1025] {
            v.push(p.saturating_sub(d));
            v.push(p.saturating_add(d));
        }
        v.push(p);
        v.push(p / 2 * 3);
        v.push(p.saturating_mul(9) + p / 2);
        v.push(p.saturating_mul(10));
        v.push(p.saturating_mul(999));
        v.push(p.saturating_mul(1000));
    }
    for k in 0..64u32 {
        v.push(1u64 << k);
        v.push((1u64 << k).wrapping_sub(1));
    }
    v.push(u64::MAX);
    v.push(u64::MAX - 1);
    v.push((1u64 << 50) - 3);
    v.push((1u64 << 50) - 2);
    v.push((1u64 << 50) - 1);
    v.push((1u64 << 60) - 6144);
    v.push((1u64 << 60) - 6145);
    v.push((1u64 << 60) - 128);
    let mut x: u64 = 0x9E37_79B9_7F4A_7C15;
    for _ in 0..2000 {
        x ^= x << 13;
        x ^= x >> 7;
        x ^= x << 17;
        v.push(x >> (x % 64));
    }
    v
}

#[test]
fn zero_bytes_is_padded_b() {
    assert_eq!(bytes(0), "    0 b");
}

#[test]
fn bytes_exact_values() {
    assert_eq!(bytes(1), "    1 b");
    assert_eq!(bytes(1023), " 1023 b");
    assert_eq!(bytes(1024), "   1 Kb");
    assert_eq!(bytes(1536), "   2 Kb");
    assert_eq!(bytes(2560), "   2 Kb");
    assert_eq!(bytes(1024 * 1024), "   1 Mb");
    assert_eq!(bytes(1024 * 1024 * 1024), "1.00 Gb");
    assert_eq!(bytes(10 * 1024 * 1024 * 1024), "10.0 Gb");
    assert_eq!(bytes(1u64 << 40), " 1.0 Tb");
    assert_eq!(bytes(u64::MAX), "16.0 Eb");
}

#[test]
fn bytes_match_float_reference() {
    for n in sample_values() {
        assert_eq!(bytes(n), reference_bytes(n), "value {}", n);
    }
}

#[test]
fn proc_match_float_reference() {
    for n in sample_values() {
        let m = (n >> 1) as i64;
        assert_eq!(proc_text(m, "\x1b[92m"), reference_proc(m, "\x1b[92m"), "value {}", m);
    }
}

#[test]
fn proc_zero_and_negative() {
    assert_eq!(proc_text(0, "\x1b[94m"), "\x1b[94m      -");
    assert_eq!(proc_text(-1, "\x1b[92m"), reference_proc(-1, "\x1b[92m"));
    assert_eq!(proc_text(-5000, "\x1b[92m"), reference_proc(-5000, "\x1b[92m"));
    assert_eq!(proc_text(i64::MIN, "\x1b[92m"), reference_proc(i64::MIN, "\x1b[92m"));
    assert_eq!(proc_text(2048, "\x1b[92m"), "\x1b[92m   2 Kb");
}

fn reference_maxstr(exec: &str, cmd: &str, is_not_exec: bool, pid: u32, pidlen: usize, maxlen: usize) -> String {
    let mut e = exec.to_string();
    let mut c = cmd.to_string();
    let color = if is_not_exec { "\x1b[94m" } else { "\x1b[92m" };
    let mut p = format!("{:>pad$} ", pid, pad = pidlen);
    if (p.len() + 3) > maxlen {
        p.truncate(maxlen.saturating_sub(3));
        return format!("\x1b[91m ] \x1b[37m{}\x1b[0m", p);
    }
    if (e.len() + p.len() + 3) > maxlen {
        e.truncate(maxlen.saturating_sub(p.len() + 3));
        return format!("\x1b[91m ] \x1b[37m{}\x1b[0m{}{}\x1b[0m", p, color, e);
    }
    if (c.len() + e.len() + p.len() + 3) > maxlen {
        c.truncate(maxlen.saturating_sub(e.len() + p.len() + 3));
        return format!("\x1b[91m ] \x1b[37m{}\x1b[0m{}{}\x1b[38;5;244m{}\x1b[0m", p, color, e, c);
    }
    format!("\x1b[91m ] \x1b[37m{}\x1b[0m{}{}\x1b[38;5;244m{}\x1b[0m", p, color, e, c)
}

#[test]
fn maxstr_fits_everything() {
    let r = maxstr(b"bash", b" -l", false, 42, 5, 80);
    assert_eq!(String::from_utf8(r).unwrap(), "\x1b[91m ] \x1b[37m   42 \x1b[0m\x1b[92mbash\x1b[38;5;244m -l\x1b[0m");
}

#[test]
fn maxstr_cuts_each_part() {
    for maxlen in 0..40usize {
        for &(e, c, ne) in &[("firefox", " --new-window https://x", false), ("kworker/0:1", "", true), ("a", "b", false)] {
            let got = String::from_utf8(maxstr(e.as_bytes(), c.as_bytes(), ne, 1234, 6, maxlen)).unwrap();
            assert_eq!(got, reference_maxstr(e, c, ne, 1234, 6, maxlen), "maxlen {}", maxlen);
        }
    }
}

#[test]
fn maxstr_pid_wider_than_padding() {
    let got = String::from_utf8(maxstr(b"init", b"", false, 123456, 2, 30)).unwrap();
    assert_eq!(got, reference_maxstr("init", "", false, 123456, 2, 30));
}

#[test]
fn cursor_moves_are_one_based() {
    let mut w = MemoryWidget::new(XY::new());
    w.rebuild_cache();
    assert!(w.cache.0.starts_with(b"\x1b[1;1H\x1b[95mMemory"));
    let mut v = MemoryWidget::new(XY { x: 26, y: 5 });
    v.rebuild_cache();
    assert!(v.cache.0.starts_with(b"\x1b[6;27H"));
}

#[test]
fn decimal_helpers() {
    let mut v = Vec::new();
    push_dec(&mut v, 0);
    push_dec(&mut v, 1234567890);
    assert_eq!(v, b"01234567890".to_vec());
    let mut w = Vec::new();
    push_dec_padded(&mut w, 42, 5);
    push_dec_padded(&mut w, 123456, 3);
    assert_eq!(w, b"   42123456".to_vec());
    assert_eq!(div_round_half_even(5, 2), 2);
    assert_eq!(div_round_half_even(7, 2), 4);
    assert_eq!(div_round_half_even(10, 4), 2);
    assert_eq!(div_round_half_even(11, 4), 3);
    let mut f = Vec::new();
    push_fixed(&mut f, 12345, 2);
    assert_eq!(f, b"123.45".to_vec());
    let mut g = Vec::new();
    push_fixed(&mut g, 5, 2);
    assert_eq!(g, b"0.05".to_vec());
}

#[test]
fn float_conversion_rounds_to_nearest_even() {
    assert_eq!(u64_to_f64(3), 3);
    assert_eq!(u64_to_f64((1u64 << 53) + 1), 1u128 << 53);
    assert_eq!(u64_to_f64((1u64 << 53) + 3), (1u128 << 53) + 4);
    assert_eq!(u64_to_f64(u64::MAX), 1u128 << 64);
    for n in sample_values() {
        assert_eq!(u64_to_f64(n), n as f64 as u128, "value {}", n);
    }
}
