use megamonic::cpu::{cpu_line_count, Cpuinfo};
use megamonic::memory::update_fits as meminfo_fits;
use megamonic::network::Network;
use megamonic::process::Process;
use megamonic::processes::{dirents_fit, Processes};
use megamonic::hostinfo::os_release_fits;
use megamonic::ui::{maxstr_fits, XY};
use megamonic::sensors::key_fits;
use megamonic::layout::Layout;

#[test]
fn cpu_lines_counted_without_bound() {
    let mut text = String::from("cpu 1 2 3\n");
    for i in 0..300 {
        text.push_str(&format!("cpu{} 1\n", i));
    }
    assert_eq!(cpu_line_count(text.as_bytes()), 300);
    assert_eq!(cpu_line_count(b""), 0);
}

#[test]
fn cpu_readings_that_go_back_do_not_fit() {
    let mut c = Cpuinfo::new(1);
    assert!(c.update_fits(b"cpu 10 10 10 10 10 10 10 10\n"));
    c.update(b"cpu 10 10 10 10 10 10 10 10\n").unwrap();
    assert!(!c.update_fits(b"cpu 5 10 10 10 10 10 10 10\n"));
    assert!(c.update_fits(b"cpu 5 x\n"));
    assert!(!c.update_fits(b"cpu 18446744073709551615 1 0 0 0 0 0 0\n"));
}

#[test]
fn meminfo_that_overflows_does_not_fit() {
    assert!(meminfo_fits(b"MemTotal: 10 kB\n"));
    assert!(!meminfo_fits(b"MemTotal: 18446744073709551615 kB\n"));
    assert!(meminfo_fits(b"MemTotal: 1 kB\nx\nMemAvailable: 2 kB\n"));
    let mut s = String::from("MemTotal: 4 kB\nx\nMemAvailable: 2 kB\n");
    for _ in 0..11 {
        s.push_str("x 0\n");
    }
    s.push_str("SwapTotal: 8 kB\n");
    assert!(!meminfo_fits(s.as_bytes()));
    s.push_str("SwapFree: 9 kB\n");
    assert!(!meminfo_fits(s.as_bytes()));
}

#[test]
fn network_counters_that_go_back_do_not_fit() {
    let mut n = Network::new();
    let first = b"h\nh\neth0: 100 0 0 0 0 0 0 0 100\n";
    assert!(n.update_fits(first));
    n.update(first).unwrap();
    assert!(!n.update_fits(b"h\nh\neth0: 50 0 0 0 0 0 0 0 100\n"));
    assert!(n.update_fits(b"h\nh\neth0: 150 0 0 0 0 0 0 0 100\n"));
    assert!(!n.update_fits(b"h\nh\nlo: 18446744073709551615 0 0 0 0 0 0 0 1\n"));
    assert!(n.update_fits(b"h\nh\nbad\n"));
    assert_eq!(n.find(&b"eth0:".to_vec()).unwrap().total_recv, 100);
    assert!(n.find(&b"lo:".to_vec()).is_none());
}

fn stat_line(utime: u64, rss: u64) -> String {
    let mut fields: Vec<String> = (0..52).map(|i| format!("{}", i)).collect();
    fields[1] = "(x)".to_string();
    fields[13] = utime.to_string();
    fields[23] = rss.to_string();
    fields.join(" ")
}

#[test]
fn stat_and_smaps_fits() {
    let mut p = Process::new(3, Vec::new(), Vec::new(), true, 4).unwrap();
    assert!(p.stat_fits(stat_line(10, 1).as_bytes()));
    assert!(!p.stat_fits(stat_line(10, 1u64 << 62).as_bytes()));
    p.update_stat(stat_line(100, 1).as_bytes()).unwrap();
    assert!(!p.stat_fits(stat_line(10, 1).as_bytes()));
    assert!(p.stat_fits(b"too short"));
    let spaces = " ".repeat(130);
    assert!(!p.stat_fits(spaces.as_bytes()));
    assert!(p.smaps_fits(b"a\nb\nPss: 9223372036854775807 kB\n"));
    p.get_smaps_fd(7);
    assert!(!p.smaps_fits(b"a\nb\nPss: 9223372036854775807 kB\n"));
    assert!(p.smaps_fits(b"a\nb\nPss: 10 kB\n"));
}

#[test]
fn completion_fits() {
    let mut t = Processes::new(3).unwrap();
    t.begin_update(true);
    t.insert_process(Process::new(9, Vec::new(), Vec::new(), true, 4).unwrap());
    assert!(t.complete_fits(9, 0, 0, stat_line(1, 1).as_bytes()));
    assert!(!t.complete_fits(9, 0, 0, stat_line(1, 1u64 << 62).as_bytes()));
    assert!(t.complete_fits(9, 0, -1, stat_line(1, 1u64 << 62).as_bytes()));
    assert!(t.complete_fits(10, 0, 0, stat_line(1, 1u64 << 62).as_bytes()));
}

#[test]
fn directory_buffers() {
    assert!(dirents_fit(b""));
    assert!(!dirents_fit(&[0u8; 10]));
    let mut rec = vec![0u8; 24];
    rec[16] = 24;
    rec[18] = 4;
    rec[19] = b'1';
    assert!(dirents_fit(&rec));
    rec[16] = 0;
    assert!(!dirents_fit(&rec));
}

#[test]
fn os_release_lines() {
    assert!(os_release_fits(b"NAME=\"Arch\"\n"));
    assert!(!os_release_fits(b"NAME=\"\n"));
    assert!(!os_release_fits("NAME=\"Arché".as_bytes()));
    assert!(os_release_fits(b"ID=\"\n"));
}

#[test]
fn names_cut_between_characters() {
    assert!(maxstr_fits(b"bash", b"-l", 1, 3, 80));
    assert!(maxstr_fits("ééééé".as_bytes(), b"", 1, 2, 8));
    assert!(!maxstr_fits("ééééé".as_bytes(), b"", 1, 2, 9));
    assert!(key_fits(b"chip", b"temp1"));
    assert!(!key_fits("abcdefghijklmé".as_bytes(), b"temp1"));
    assert!(key_fits("abcdefghijklmé".as_bytes(), b"Core 0"));
    assert!(!key_fits(b"chip", "abcdefghijklmé".as_bytes()));
}

#[test]
fn layout_sums() {
    let l = Layout::new(XY { x: 80, y: 24 }, 1, 1);
    assert!(l.fits());
    let mut m = l;
    m.gpu.pos.y = u16::MAX;
    assert!(!m.fits());
}
