use megamonic::text::{split_lines, split_tokens, split_words, parse_u64, parse_i64, digits_u64, starts_with, trim};
use megamonic::keyed::{compare_bytes, copy_bytes};
use megamonic::memory::{Memory, MemError};
use megamonic::loadavg::{Loadavg, LoadavgError};
use megamonic::cpu::{count_cpus, Cpuinfo, CpuError};
use megamonic::network::{Network, NetError, Bandwidth};
use megamonic::swap::{Swap, SwapError};
use megamonic::sensors::Sensors;
use megamonic::hostinfo::{Hostinfo, parse_os_release};
use megamonic::time::sync_delay;
use megamonic::terminal::{raw_modes, Modes};

fn slices<'a>(s: &'a [u8], r: &[(usize, usize)]) -> Vec<&'a [u8]> {
    r.iter().map(|&(a, b)| &s[a..b]).collect()
}

#[test]
fn lines_like_str_lines() {
    for text in ["a\nb\r\nc", "", "\n", "x\n\ny\n", "\r\n", "one", "a\rb\n"] {
        let got = slices(text.as_bytes(), &split_lines(text.as_bytes()));
        let want: Vec<&[u8]> = text.lines().map(|l| l.as_bytes()).collect();
        assert_eq!(got, want, "text {:?}", text);
    }
}

#[test]
fn tokens_like_split_ascii_whitespace() {
    let text = b"  cpu  10 20\t30\r\n";
    let got = slices(text, &split_tokens(text, 0, text.len()));
    assert_eq!(got, vec![&b"cpu"[..], b"10", b"20", b"30"]);
    let part = slices(text, &split_tokens(text, 2, 9));
    assert_eq!(part, vec![&b"cpu"[..], b"10"]);
}

#[test]
fn words_like_split_whitespace() {
    for text in ["a b", "  x\u{a0}y\u{2003}z  ", "\u{3000}", "", "one", "tab\tand\u{85}next\u{2029}end", "é\u{202f}ü"] {
        let b = text.as_bytes();
        let got = slices(b, &split_words(b, 0, b.len()));
        let want: Vec<&[u8]> = text.split_whitespace().map(|w| w.as_bytes()).collect();
        assert_eq!(got, want, "text {:?}", text);
    }
}

#[test]
fn trim_like_str_trim() {
    for text in ["  hi  ", "\u{2000}\u{a0}x y\u{3000}\n", "", "   ", "5.15.0-91-generic\n", "\u{1680}a\u{85}", "é"] {
        let b = text.as_bytes();
        assert_eq!(trim(b, 0, b.len()), text.trim().as_bytes().to_vec(), "text {:?}", text);
    }
}

#[test]
fn numbers_like_std_parse() {
    for t in ["0", "42", "+7", "-7", "", "+", "-", "18446744073709551615", "18446744073709551616", "9223372036854775807",
              "9223372036854775808", "-9223372036854775808", "-9223372036854775809", "12a", " 1", "007"] {
        let b = t.as_bytes();
        assert_eq!(parse_u64(b, 0, b.len()), t.parse::<u64>().ok(), "u64 {:?}", t);
        assert_eq!(parse_i64(b, 0, b.len()), t.parse::<i64>().ok(), "i64 {:?}", t);
    }
    assert_eq!(digits_u64(b"123", 0, 3), Some(123));
    assert_eq!(digits_u64(b"+123", 0, 4), None);
    assert_eq!(digits_u64(b"", 0, 0), None);
}

#[test]
fn prefix_and_bytes() {
    assert!(starts_with(b"cpu0 1 2", 0, 8, b"cpu"));
    assert!(!starts_with(b"cp", 0, 2, b"cpu"));
    assert!(!starts_with(b"xcpu", 0, 4, b"cpu"));
    assert!(compare_bytes(&b"eth0".to_vec(), &b"lo".to_vec()) < 0);
    assert!(compare_bytes(&b"lo".to_vec(), &b"eth0".to_vec()) > 0);
    assert_eq!(compare_bytes(&b"lo".to_vec(), &b"lo".to_vec()), 0);
    assert!(compare_bytes(&b"lo".to_vec(), &b"lo0".to_vec()) < 0);
    assert_eq!(copy_bytes(b"abcdef", 1, 4), b"bcd".to_vec());
}

fn meminfo(total: u64, free: u64, swap_total: u64, swap_free: u64) -> String {
    let mut s = String::new();
    s.push_str(&format!("MemTotal:       {} kB\n", total));
    s.push_str("MemFree:          1000 kB\n");
    s.push_str(&format!("MemAvailable:   {} kB\n", free));
    for i in 0..11 {
        s.push_str(&format!("Filler{}:   {} kB\n", i, i));
    }
    s.push_str(&format!("SwapTotal:      {} kB\n", swap_total));
    s.push_str(&format!("SwapFree:       {} kB\n", swap_free));
    s
}

#[test]
fn memory_reads_kilobytes_as_bytes() {
    let mut m = Memory::new();
    let text = meminfo(16000, 4000, 2000, 500);
    assert_eq!(m.update(text.as_bytes()), Ok(()));
    assert_eq!(m.mem_total, 16000 * 1024);
    assert_eq!(m.mem_free, 4000 * 1024);
    assert_eq!(m.mem_used, 12000 * 1024);
    assert_eq!(m.swap_total, 2000 * 1024);
    assert_eq!(m.swap_free, 500 * 1024);
    assert_eq!(m.swap_used, 1500 * 1024);
}

#[test]
fn memory_errors() {
    let mut m = Memory::new();
    assert_eq!(m.update(b""), Err(MemError::NoLine));
    assert_eq!(m.update(b"MemTotal:\n"), Err(MemError::NoWord));
    assert_eq!(m.update(b"MemTotal: lots kB\n"), Err(MemError::NotNumber));
    let mut m = Memory::new();
    assert_eq!(m.update(b"MemTotal: 10 kB\nx\nMemAvailable: 4 kB\n"), Err(MemError::NoLine));
    assert_eq!(m.mem_total, 10240);
    assert_eq!(m.mem_free, 4096);
    assert_eq!(m.mem_used, 0);
}

#[test]
fn loadavg_words() {
    let mut l = Loadavg::new();
    assert_eq!(l.update(b"0.52 0.58 0.59 1/389 12345\n"), Ok(()));
    assert_eq!(l.min1, b"0.52".to_vec());
    assert_eq!(l.min5, b"0.58".to_vec());
    assert_eq!(l.min15, b"0.59".to_vec());
    assert_eq!(l.update(b"1.00 2.00"), Err(LoadavgError(3)));
    assert_eq!(l.min15, Vec::<u8>::new());
    assert_eq!(l.update(b"  "), Err(LoadavgError(1)));
    assert_eq!(l.update(b"3.0"), Err(LoadavgError(2)));
    assert_eq!(l.min1, b"3.0".to_vec());
}

#[test]
fn cpu_counting_and_ticks() {
    let stat = b"cpu  10 0 10 70 10 0 0 0 0 0\ncpu0 5 0 5 35 5 0 0 0\ncpu1 5 0 5 35 5 0 0 0\nintr 1\ncpu9 1\n";
    assert_eq!(count_cpus(stat), 2);
    assert_eq!(count_cpus(b"cpu 1\n"), 0);
    let mut c = Cpuinfo::new(2);
    assert_eq!(c.update(stat), Ok(()));
    assert_eq!(c.stats, vec![10, 0, 10, 70, 10, 0, 0, 0]);
    assert_eq!(c.idle, 80);
    assert_eq!(c.non_idle, 20);
    assert_eq!(c.totald, 100);
    assert_eq!(c.busy, 20);
    assert_eq!(c.update(b"cpu  20 0 20 120 20 0 0 0\n"), Ok(()));
    assert_eq!(c.totald, 80);
    assert_eq!(c.busy, 20);
    assert_eq!(c.update(b"cpu 30 x 1 1 1 1 1 1\n"), Err(CpuError::Field(1)));
    assert_eq!(c.stats[0], 30);
    assert_eq!(c.update(b""), Err(CpuError::NoLine));
}

fn netdev(lines: &[(&str, u64, u64)]) -> String {
    let mut s = String::from("Inter-|   Receive\n face |bytes    packets\n");
    for (name, rx, tx) in lines {
        s.push_str(&format!("{}: {} 1 0 0 0 0 0 0 {} 2 0 0 0 0 0 0\n", name, rx, tx));
    }
    s
}

#[test]
fn network_keeps_rates_and_order() {
    let mut n = Network::new();
    assert_eq!(n.update(netdev(&[("wlan0", 100, 50), ("eth0", 10, 5), ("lo", 0, 0)]).as_bytes()), Ok(()));
    let names: Vec<Vec<u8>> = n.stats.iter().map(|e| e.0.clone()).collect();
    assert_eq!(names, vec![b"eth0:".to_vec(), b"wlan0:".to_vec()]);
    assert_eq!(n.stats[1].1, Bandwidth { recv: 0, sent: 0, total_recv: 100, total_sent: 50 });
    assert_eq!(n.update(netdev(&[("wlan0", 160, 70), ("eth0", 10, 5)]).as_bytes()), Ok(()));
    assert_eq!(n.stats[1].1, Bandwidth { recv: 60, sent: 20, total_recv: 160, total_sent: 70 });
    assert_eq!(n.stats[0].1, Bandwidth { recv: 0, sent: 0, total_recv: 10, total_sent: 5 });
}

#[test]
fn network_errors() {
    let mut n = Network::new();
    assert_eq!(n.update(b"h1\nh2\n   \n"), Err(NetError::Name));
    assert_eq!(n.update(b"h1\nh2\neth0: x\n"), Err(NetError::Recv));
    assert_eq!(n.update(b"h1\nh2\neth0: 5 1 2\n"), Err(NetError::Sent));
    assert_eq!(n.update(b"h1\nh2\neth0: 5 1 2 3 4 5 6 7 9\nlo: q\n"), Err(NetError::Recv));
    assert_eq!(n.stats.len(), 1);
}

#[test]
fn swap_sums_partitions() {
    let text = "Filename\tType\tSize\tUsed\tPriority\n/dev/sda2 partition 1000 200 -2\n/swapfile file 3000 100 -3\n";
    let mut s = Swap::new();
    assert_eq!(s.update(text.as_bytes()), Ok(()));
    assert_eq!(s.total, 4000 * 1024);
    assert_eq!(s.used, 300 * 1024);
    assert_eq!(s.free, 3700 * 1024);
}

#[test]
fn swap_errors_keep_partial_sums() {
    let mut s = Swap::new();
    assert_eq!(s.update(b"header\n/dev/sda2 partition 1000\n"), Err(SwapError::Missing));
    assert_eq!(s.total, 1000 * 1024);
    assert_eq!(s.free, 0);
    assert_eq!(s.update(b"header\n/dev/sda2 partition big 1\n"), Err(SwapError::NotNumber));
    assert_eq!(s.total, 0);
    assert_eq!(s.update(b"header\nonly two\n"), Err(SwapError::Missing));
    assert_eq!(s.update(b"header only\n"), Ok(()));
    assert_eq!((s.total, s.used, s.free), (0, 0, 0));
}

#[test]
fn sensors_by_name_in_order() {
    let mut s = Sensors::new();
    s.record(b"k10temp-pci-00c3", b"temp1", 45);
    s.record(b"nvme-pci-0100", b"Composite", 38);
    s.record(b"coretemp", b"Package id 0 and more", 50);
    s.record(b"nvme-pci-0100", b"Composite", 40);
    let got: Vec<(Vec<u8>, u8)> = s.chips.clone();
    assert_eq!(got, vec![
        (b"Composite".to_vec(), 40),
        (b"Package id 0 a".to_vec(), 50),
        (b"k10temp-pci-00".to_vec(), 45),
    ]);
    assert_eq!(s.len(), 3);
}

#[test]
fn os_release_name_and_color() {
    let text = "NAME=\"Arch Linux\"\nPRETTY_NAME=\"Arch\"\nANSI_COLOR=\"38;2;23;147;209\"\nID=arch\n";
    let (name, color) = parse_os_release(text.as_bytes());
    assert_eq!(name, b"Arch Linux".to_vec());
    assert_eq!(color, b"\x1b[38;2;23;147;209m".to_vec());
    let (name, color) = parse_os_release(b"NAME=plain\nID=x\n");
    assert_eq!(name, b"Not Found".to_vec());
    assert_eq!(color, b"\x1b[97m".to_vec());
    let (name, _) = parse_os_release("NAME=\"  Ubuntu \u{a0}\"".as_bytes());
    assert_eq!(name, b"Ubuntu".to_vec());
}

#[test]
fn hostinfo_from_texts() {
    let h = Hostinfo::from_texts(Some(b"NAME=\"Debian GNU/Linux\"\n"), Some(b"6.1.0-13-amd64\n"));
    assert_eq!(h.distname, b"Debian GNU/Linux".to_vec());
    assert_eq!(h.kernel, b"6.1.0-13-amd64".to_vec());
    assert_eq!(h.ansi_color, b"\x1b[97m".to_vec());
    let h = Hostinfo::from_texts(None, None);
    assert_eq!(h.distname, b"Not Found".to_vec());
    assert_eq!(h.kernel, b"Not Found".to_vec());
}

#[test]
fn clock_delay() {
    assert_eq!(sync_delay(0), 1_000_000_000);
    assert_eq!(sync_delay(10_000), 1_000_000_000);
    assert_eq!(sync_delay(10_001), 1_000_000_000 - 1_000_100);
    assert_eq!(sync_delay(500_000), 950_000_000);
    let d = std::time::Duration::from_millis(1000) - (std::time::Duration::from_micros(999_999) / 10);
    assert_eq!(sync_delay(999_999) as u128, d.as_nanos());
}

#[test]
fn raw_mode_flags() {
    let m = Modes { c_iflag: u32::MAX, c_oflag: u32::MAX, c_cflag: 0, c_lflag: u32::MAX };
    let r = raw_modes(m);
    assert_eq!(r.c_iflag, u32::MAX & !(0o1 | 0o2 | 0o10 | 0o40 | 0o100 | 0o200 | 0o400 | 0o2000));
    assert_eq!(r.c_oflag, u32::MAX - 1);
    assert_eq!(r.c_cflag, 0o60);
    assert_eq!(r.c_lflag, u32::MAX & !(0o2 | 0o10 | 0o100 | 0o100000));
    let z = raw_modes(Modes { c_iflag: 0, c_oflag: 0, c_cflag: u32::MAX, c_lflag: 0 });
    assert_eq!(z.c_cflag, (u32::MAX & !(0o60 | 0o400)) | 0o60);
    // ISIG (0o1) and ECHOK (0o40) stay; CREAD (0o200) and the baud bits stay.
    let k = raw_modes(Modes { c_iflag: 0o4, c_oflag: 0o4, c_cflag: 0o200 | 0o17, c_lflag: 0o1 | 0o40 });
    assert_eq!(k.c_lflag, 0o1 | 0o40);
    assert_eq!(k.c_iflag, 0o4);
    assert_eq!(k.c_cflag, 0o200 | 0o17 | 0o60);
}
