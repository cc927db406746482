use megamonic::uring::{Uring, UringError};
use megamonic::events::{Config, InputState};
use megamonic::network::{Network, Bandwidth};
use megamonic::sensors::Sensors;

#[test]
fn reset_ring_completes_on_empty_queue() {
    let mut u = Uring::new(8);
    u.add_to_queue(0, 7);
    u.submit_all(1).unwrap();
    assert!(matches!(u.spin_next(3, 3, 7), Ok(None)));
    u.reset();
    assert!(matches!(u.spin_next(3, 3, 7), Err(UringError::JobComplete)));
}

#[test]
fn every_submission_read_back_completes() {
    let mut u = Uring::new(8);
    let mut tail = 0u32;
    for _ in 0..5 {
        let (_, t) = u.add_to_queue(tail, 7);
        tail = t;
    }
    assert!(matches!(u.submit_all(5), Ok(5)));
    let mut head = 0u32;
    let mut seen = Vec::new();
    loop {
        match u.spin_next(head, tail, 7) {
            Ok(Some((slot, h))) => {
                seen.push(slot);
                head = h;
            },
            Ok(None) => panic!("the queue was drained"),
            Err(UringError::JobComplete) => break,
            Err(_) => panic!("unexpected error"),
        }
    }
    assert_eq!(seen, vec![0, 1, 2, 3, 4]);
}

fn config() -> Config {
    Config { smaps: true, topmode: false, all: true, frequency: 500, strftime_format: String::new() }
}

#[test]
fn toggle_key_twice_restores() {
    for key in [b't', b's', b'a'] {
        let mut s = InputState::new();
        let mut c = config();
        s.handle_key(key, &mut c);
        s.handle_key(key, &mut c);
        assert_eq!((c.smaps, c.topmode, c.all), (true, false, true));
        assert!(!s.search);
    }
}

#[test]
fn filter_round_trip_clears_text() {
    let mut s = InputState::new();
    let mut c = config();
    s.handle_key(b'f', &mut c);
    for k in b"tsa xyz" {
        s.handle_key(*k, &mut c);
    }
    assert_eq!(s.input.iter().collect::<String>(), "tsa xyz");
    s.handle_key(27, &mut c);
    assert!(!s.search && s.input.is_empty());
    assert_eq!((c.smaps, c.topmode, c.all), (true, false, true));
}

#[test]
fn lookup_after_set_gives_what_was_set() {
    let mut n = Network::new();
    n.update(b"h\nh\nb: 5 0 0 0 0 0 0 0 5\na: 1 0 0 0 0 0 0 0 1\nc: 2 0 0 0 0 0 0 0 2\n").unwrap();
    n.update(b"h\nh\na: 11 0 0 0 0 0 0 0 1\n").unwrap();
    let names: Vec<Vec<u8>> = n.stats.iter().map(|e| e.0.clone()).collect();
    assert_eq!(names, vec![b"a:".to_vec(), b"b:".to_vec(), b"c:".to_vec()]);
    assert_eq!(n.stats[0].1, Bandwidth { recv: 10, sent: 0, total_recv: 11, total_sent: 1 });
    assert_eq!(n.stats[1].1, Bandwidth { recv: 0, sent: 0, total_recv: 5, total_sent: 5 });
    let mut s = Sensors::new();
    s.record(b"chip", b"z", 1);
    s.record(b"chip", b"y", 2);
    s.record(b"chip", b"z", 3);
    assert_eq!(s.chips, vec![(b"y".to_vec(), 2), (b"z".to_vec(), 3)]);
}

fn stat_line(utime: u64) -> String {
    let mut fields: Vec<String> = (0..52).map(|i| format!("{}", i)).collect();
    fields[1] = "(sh)".to_string();
    fields[13] = utime.to_string();
    let mut s = fields.join(" ");
    s.push('\n');
    s
}

#[test]
fn same_stat_twice_shows_no_work() {
    let mut p = megamonic::process::Process::new(5, Vec::new(), Vec::new(), true, 3).unwrap();
    let line = stat_line(40);
    p.update_stat(line.as_bytes()).unwrap();
    let total = p.total;
    p.update_stat(line.as_bytes()).unwrap();
    assert_eq!(p.work, 0);
    assert_eq!(p.total, total);
    assert_eq!(total, 40 + 14 + 15 + 16);
}

#[test]
fn same_counters_twice_show_no_traffic() {
    let mut n = Network::new();
    let text = b"h\nh\nwlan0: 700 0 0 0 0 0 0 0 300\n";
    n.update(text).unwrap();
    n.update(text).unwrap();
    assert_eq!(n.stats[0].1, Bandwidth { recv: 0, sent: 0, total_recv: 700, total_sent: 300 });
}

fn unit_of(num: u64) -> usize {
    let mut v = Vec::new();
    megamonic::ui::convert_with_padding(&mut v, num);
    let text = String::from_utf8(v).unwrap();
    let unit = text.rsplit(' ').next().unwrap().to_string();
    ["b", "Kb", "Mb", "Gb", "Tb", "Pb", "Eb", "Zb", "Yb"].iter().position(|u| *u == unit).unwrap()
}

#[test]
fn larger_counts_never_get_smaller_units() {
    let counts: Vec<u64> = vec![
        0, 1, 1023, 1024, 1048575, 1048576, (1u64 << 30) - 1, 1u64 << 30, (1u64 << 50) - 4,
        (1u64 << 50) - 3, (1u64 << 50) - 1, 1u64 << 50, (1u64 << 60) - 6145, (1u64 << 60) - 6144,
        1u64 << 60, u64::MAX,
    ];
    let units: Vec<usize> = counts.iter().map(|&c| unit_of(c)).collect();
    assert_eq!(units, vec![0, 0, 0, 1, 1, 2, 2, 3, 4, 5, 5, 5, 6, 6, 6, 6]);
    for w in units.windows(2) {
        assert!(w[0] <= w[1]);
    }
}
