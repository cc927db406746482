use megamonic::uring::{Uring, UringError, QUEUE_DEPTH};
use megamonic::process::{Process, StatError, SmapsError, find_all};
use megamonic::processes::{Processes, Admission, Completion, CompletionError, dir_entries, pid_of, split_cmdline, stat_executable};
use megamonic::events::{Config, InputState, KeyAction, handle_signal, event_source, EventSource, unknown_event, main_action, MainAction, round_action};
use megamonic::layout::{Layout, Plan, flag_marker};
use megamonic::ui::XY;

#[test]
fn ring_bookkeeping() {
    let mut u = Uring::new(0);
    assert_eq!(u.entries(), QUEUE_DEPTH);
    assert_eq!(Uring::new(64).entries(), 64);
    assert_eq!(u.add_to_queue(7, 3), (3, 8));
    assert_eq!(u.add_to_queue(8, 3), (0, 9));
    assert_eq!(u.to_submit(), 2);
    assert!(matches!(u.submit_all(1), Err(UringError::SubmitToSqResult(1))));
    assert!(matches!(u.submit_all(-4), Err(UringError::SubmitToSqResult(-4))));
    assert!(matches!(u.submit_all(2), Ok(2)));
    assert_eq!(u.to_submit(), 0);
    assert_eq!(u.pending(), 2);
    assert!(matches!(u.spin_next(5, 5, 3), Ok(None)));
    assert!(matches!(u.spin_next(5, 7, 3), Ok(Some((1, 6)))));
    assert!(matches!(u.read_from_cq(6, 7, 3), Ok((2, 7))));
    assert!(matches!(u.read_from_cq(7, 7, 3), Err(UringError::ReadFromCqEmptyBuffer)));
    assert!(matches!(u.spin_next(7, 7, 3), Err(UringError::JobComplete)));
    assert!(matches!(u._wait_for_all(0), Ok(0)));
    u.reset();
    assert_eq!(u.pending(), 0);
    assert!(matches!(u.spin_next(0, 0, 3), Err(UringError::JobComplete)));
}

#[test]
fn ring_setup_checks() {
    assert!(matches!(Uring::check_setup(-22, 1), Err(UringError::SysIoUringSetup(-22))));
    assert!(matches!(Uring::check_setup(5, 2), Err(UringError::NotSupported)));
    assert!(matches!(Uring::check_setup(5, 3), Ok(())));
    assert_eq!(Uring::ring_size(100, 8, 50, 8), 178);
    assert_eq!(Uring::ring_size(1000, 8, 50, 8), 1032);
    assert_eq!(Uring::sqes_size(8), 512);
    assert!(matches!(Uring::check_mmap(4096, false), Ok(4096)));
    assert!(matches!(Uring::check_mmap(-12, false), Err(UringError::SysMmapSqPtr(-12))));
    assert!(matches!(Uring::check_mmap(-12, true), Err(UringError::SysMmapSqes(-12))));
}

fn stat_line(pid: u32, name: &str, utime: u64, stime: u64, cutime: u64, cstime: u64, rss: u64) -> String {
    let mut fields: Vec<String> = (0..52).map(|i| format!("{}", i)).collect();
    fields[0] = format!("{}", pid);
    fields[1] = format!("({})", name);
    fields[2] = "S".to_string();
    fields[13] = utime.to_string();
    fields[14] = stime.to_string();
    fields[15] = cutime.to_string();
    fields[16] = cstime.to_string();
    fields[23] = rss.to_string();
    let mut s = fields.join(" ");
    s.push('\n');
    s
}

#[test]
fn spaces_found_in_order() {
    let v = find_all(b"a b  c ");
    assert_eq!(v, vec![1, 3, 4, 6]);
    assert_eq!(find_all(b""), Vec::<usize>::new());
}

#[test]
fn stat_updates_times_and_work() {
    let mut p = Process::new(42, b"bash".to_vec(), b" -l".to_vec(), false, 3).unwrap();
    assert_eq!(p.pss, -1);
    assert_eq!(p.update_stat(stat_line(42, "bash", 100, 20, 5, 5, 300).as_bytes()), Ok(()));
    assert_eq!((p.utime, p.stime, p.cutime, p.cstime), (100, 20, 5, 5));
    assert_eq!(p.rss, 300 * 4096);
    assert_eq!(p.total, 130);
    assert_eq!(p.work, 0);
    assert_eq!(p.update_stat(stat_line(42, "my prog name", 150, 30, 5, 5, 10).as_bytes()), Ok(()));
    assert_eq!(p.total, 190);
    assert_eq!(p.work, 60);
    assert!(Process::new(1, Vec::new(), Vec::new(), true, -2).is_err());
}

#[test]
fn stat_errors() {
    let mut p = Process::new(7, Vec::new(), Vec::new(), true, 3).unwrap();
    assert_eq!(p.update_stat(b"7 (x) S 1 2 3"), Err(StatError::IndexTooSmall));
    let line = stat_line(7, "x", 1, 2, 3, 4, 5);
    let bad = |k: usize| -> String {
        let mut f: Vec<&str> = line.trim_end().split(' ').collect();
        f[k] = "x1";
        f.join(" ")
    };
    assert_eq!(p.update_stat(bad(13).as_bytes()), Err(StatError::Utime));
    assert_eq!(p.update_stat(bad(14).as_bytes()), Err(StatError::Stime));
    assert_eq!(p.update_stat(bad(15).as_bytes()), Err(StatError::Cutime));
    assert_eq!(p.update_stat(bad(16).as_bytes()), Err(StatError::Cstime));
    assert_eq!(p.update_stat(bad(23).as_bytes()), Err(StatError::Rss));
    assert_eq!(p.total, 0);
    // Field 13 (major faults of the children) is not read.
    assert_eq!(p.update_stat(bad(12).as_bytes()), Ok(()));
    assert_eq!((p.utime, p.stime, p.cutime, p.cstime, p.total), (1, 2, 3, 4, 10));
}

#[test]
fn smaps_descriptor_and_pss() {
    let mut p = Process::new(9, Vec::new(), Vec::new(), false, 3).unwrap();
    assert!(p.smaps_open_needed());
    assert_eq!(p.update_smaps(b"anything"), Ok(()));
    assert_eq!(p.pss, -1);
    assert_eq!(p.get_smaps_fd(11), 11);
    assert_eq!(p.get_smaps_fd(12), 11);
    let rollup = b"00400000-7ffd [rollup]\nRss:   2048 kB\nPss:   1024 kB\n";
    assert_eq!(p.update_smaps(rollup), Ok(()));
    assert_eq!(p.pss, 1024 * 1024);
    assert_eq!(p.update_smaps(b"a\nb\n"), Err(SmapsError::NoLine));
    assert_eq!(p.update_smaps(b"a\nb\nPss:\n"), Err(SmapsError::NoWord));
    assert_eq!(p.update_smaps(b"a\nb\nPss: -3 kB\n"), Err(SmapsError::NotNumber));
    assert_eq!(p.pss, 1024 * 1024);
    assert_eq!(p.disable_smaps(), Some(11));
    assert_eq!(p.disable_smaps(), None);
    assert!(p.smaps_open_needed());
}

fn dirent(name: &str) -> Vec<u8> {
    let mut v = Vec::new();
    let reclen = (19 + name.len() + 1 + 7) / 8 * 8;
    v.extend_from_slice(&0u64.to_le_bytes());
    v.extend_from_slice(&0u64.to_le_bytes());
    v.extend_from_slice(&(reclen as u16).to_le_bytes());
    v.push(4);
    v.extend_from_slice(name.as_bytes());
    while v.len() < reclen {
        v.push(0);
    }
    v
}

#[test]
fn directory_entries_and_pids() {
    let mut buf = Vec::new();
    for n in [".", "..", "1", "4242", "self", "123456"] {
        buf.extend_from_slice(&dirent(n));
    }
    let names: Vec<Vec<u8>> = dir_entries(&buf).iter().map(|&(a, b)| buf[a..b].to_vec()).collect();
    assert_eq!(names, vec![b".".to_vec(), b"..".to_vec(), b"1".to_vec(), b"4242".to_vec(), b"self".to_vec(), b"123456".to_vec()]);
    let pids: Vec<Option<u32>> = dir_entries(&buf).iter().map(|&(a, b)| pid_of(&buf, a, b)).collect();
    assert_eq!(pids, vec![None, None, Some(1), Some(4242), None, Some(123456)]);
    assert_eq!(pid_of(b"4294967296", 0, 10), None);
}

#[test]
fn command_lines() {
    let (e, a) = split_cmdline(b"/usr/bin/python3\0-m\0http.server\0");
    assert_eq!(e, b"python3".to_vec());
    assert_eq!(a, b"-m http.server ".to_vec());
    let (e, a) = split_cmdline(b"sshd: user@pts/0");
    assert_eq!(e, b"sshd:".to_vec());
    assert_eq!(a, b"user@pts/0".to_vec());
    assert_eq!(stat_executable(b"15 (kworker/0:1-events) I 2"), Ok(b"(kworker/0:1-events".to_vec()));
    assert_eq!(stat_executable(b"no parens"), Err(()));
}

#[test]
fn process_table_round() {
    let mut t = Processes::new(3).unwrap();
    assert!(Processes::new(-1).is_err());
    t.begin_update(false);
    assert!(t.wants(100));
    match t.classify(100, b"/bin/sleep\x0010\x00", false) {
        Admission::Program { executable, cmdline } => {
            assert_eq!(executable, b"sleep".to_vec());
            assert_eq!(cmdline, b"10 ".to_vec());
        },
        _ => panic!("a program was expected"),
    }
    assert!(matches!(t.classify(2, b"", false), Admission::Ignored));
    assert!(!t.wants(2));
    assert!(matches!(t.classify(1, b"/sbin/init", true), Admission::ReadStat));
    let p = Process::new(100, b"sleep".to_vec(), b" 10 ".to_vec(), false, 5).unwrap();
    t.insert_process(p);
    let q = Process::new(200, b"top".to_vec(), Vec::new(), false, 6).unwrap();
    t.insert_process(q);
    assert!(!t.wants(100));
    assert_eq!(t.len(), 2);
    t.note_pid_len(3);
    t.note_pid_len(2);
    assert_eq!(t.maxpidlen, 3);
    assert_eq!(t.ring_target(false), None);
    let line = stat_line(100, "sleep", 10, 0, 0, 0, 1);
    assert!(matches!(t.complete(100, 0, 0, line.as_bytes()), Ok(Completion::StatRead { work: 0, total: 10 })));
    let line = stat_line(100, "sleep", 30, 0, 0, 0, 1);
    assert!(matches!(t.complete(100, 0, 0, line.as_bytes()), Ok(Completion::StatRead { work: 20, total: 30 })));
    let line = stat_line(200, "top", 50, 0, 0, 0, 1);
    assert!(matches!(t.complete(200, 0, 0, line.as_bytes()), Ok(Completion::StatRead { work: 0, total: 50 })));
    assert!(matches!(t.complete(999, 0, 0, b""), Ok(Completion::Skipped)));
    assert!(matches!(t.complete(100, 1, -2, b""), Ok(Completion::Skipped)));
    assert!(matches!(t.complete(100, 1, 0, b""), Ok(Completion::SmapsRead)));
    assert_eq!(t.get(100).unwrap().pss, -1);
    let (len, order) = t.cpu_sort();
    assert_eq!(len, 3);
    assert_eq!(order.clone(), vec![100, 200]);
    assert_eq!(t.smaps_fd_for(200, 17), 17);
    assert_eq!(t.smaps_fd_for(999, 18), -1);
    assert!(matches!(t.complete(200, 1, 0, b"a\nb\n"), Err(CompletionError::Smaps(SmapsError::NoLine))));
    assert_eq!(t.disable_smaps_all(), vec![17]);
    assert!(matches!(t.complete(200, 0, 0, b"short"), Err(CompletionError::Stat(StatError::IndexTooSmall))));
    assert!(t.get(200).is_none());
    assert!(matches!(t.complete(100, 0, -9, b""), Ok(Completion::Removed)));
    assert_eq!(t.len(), 0);
    t.begin_update(true);
    assert!(t.wants(2));
}

#[test]
fn ring_grows_with_the_table() {
    let mut t = Processes::new(3).unwrap();
    t.begin_update(true);
    t.set_uring(Uring::new(2));
    for pid in 10..13u32 {
        t.insert_process(Process::new(pid, Vec::new(), Vec::new(), true, 4).unwrap());
    }
    assert_eq!(t.ring_target(false), Some(103));
    assert_eq!(t.ring_target(true), Some(106));
    let mut pids = t.pids();
    pids.sort();
    assert_eq!(pids, vec![10, 11, 12]);
}

fn config() -> Config {
    Config { smaps: false, topmode: false, all: false, frequency: 1000, strftime_format: "%H:%M:%S".to_string() }
}

#[test]
fn keys_and_toggles() {
    let mut s = InputState::new();
    let mut c = config();
    assert_eq!(s.handle_key(b't', &mut c), KeyAction { send: Some(10), stop: false });
    assert!(c.topmode);
    assert_eq!(s.handle_key(b't', &mut c), KeyAction { send: Some(10), stop: false });
    assert!(!c.topmode);
    assert_eq!(s.handle_key(b's', &mut c), KeyAction { send: Some(11), stop: false });
    assert!(c.smaps);
    assert_eq!(s.handle_key(b'a', &mut c), KeyAction { send: Some(12), stop: false });
    assert!(c.all);
    assert_eq!(s.handle_key(b' ', &mut c), KeyAction { send: Some(101), stop: false });
    assert_eq!(s.handle_key(b'r', &mut c), KeyAction { send: Some(106), stop: false });
    assert_eq!(s.handle_key(b'x', &mut c), KeyAction { send: None, stop: false });
    assert_eq!(s.handle_key(b'q', &mut c), KeyAction { send: Some(255), stop: true });
}

#[test]
fn filter_typing() {
    let mut s = InputState::new();
    let mut c = config();
    assert_eq!(s.handle_key(b'f', &mut c), KeyAction { send: Some(102), stop: false });
    assert!(s.search);
    for k in b"bashq" {
        assert_eq!(s.handle_key(*k, &mut c), KeyAction { send: Some(103), stop: false });
    }
    assert_eq!(s.handle_key(127, &mut c), KeyAction { send: Some(103), stop: false });
    assert_eq!(s.input.iter().collect::<String>(), "bash");
    assert!(!c.all);
    assert_eq!(s.handle_key(13, &mut c), KeyAction { send: Some(102), stop: false });
    assert!(!s.search);
    assert!(s.input.is_empty());
    assert_eq!(s.handle_key(b'f', &mut c).send, Some(102));
    assert_eq!(s.handle_key(127, &mut c).send, Some(103));
    assert_eq!(s.handle_key(27, &mut c).send, Some(102));
}

#[test]
fn signals_and_sources() {
    assert_eq!(handle_signal(28), KeyAction { send: Some(105), stop: false });
    assert_eq!(handle_signal(2), KeyAction { send: Some(255), stop: false });
    assert_eq!(handle_signal(10), KeyAction { send: None, stop: true });
    assert_eq!(handle_signal(15), KeyAction { send: None, stop: false });
    assert_eq!(event_source(0, 5), EventSource::Terminal);
    assert_eq!(event_source(5, 5), EventSource::Signal);
    assert_eq!(event_source(6, 5), EventSource::Unknown);
    assert_eq!(unknown_event(), KeyAction { send: Some(99), stop: true });
    assert_eq!(round_action(true, 7), KeyAction { send: Some(7), stop: false });
    assert_eq!(round_action(false, 7), KeyAction { send: Some(99), stop: true });
    assert_eq!(main_action(1), MainAction::Update(1));
    assert_eq!(main_action(13), MainAction::Update(13));
    assert_eq!(main_action(99), MainAction::Error);
    assert_eq!(main_action(101), MainAction::TogglePause);
    assert_eq!(main_action(105), MainAction::Resize);
    assert_eq!(main_action(106), MainAction::Rebuild);
    assert_eq!(main_action(255), MainAction::Exit);
    assert_eq!(main_action(0), MainAction::Exit);
    assert_eq!(main_action(102), MainAction::Filter);
    assert_eq!(main_action(103), MainAction::Filter);
    assert_eq!(main_action(104), MainAction::Exit);
}

#[test]
fn layout_plans() {
    let mut l = Layout::new(XY { x: 120, y: 40 }, 2, 3);
    assert_eq!(l.network.size.y, 6);
    assert_eq!(l.sensors.size.y, 5);
    l.rebuild(2, 3, 10, 14);
    assert_eq!(l.hostinfo.size.x, 33);
    assert_eq!(l.processes.size.y, 31);
    assert_eq!(l.sensors.pos.y, 12);
    assert_eq!(l.gpu.pos.y, 17);
    assert_eq!(l.time.pos.y, 40);
    assert_eq!(l.plan(2), Plan { first: true, second: false });
    assert_eq!(l.plan(3), Plan { first: true, second: true });
    assert_eq!(l.plan(4), Plan { first: true, second: true });
    assert_eq!(l.plan(8), Plan { first: true, second: false });
    assert_eq!(l.plan(5), Plan { first: false, second: false });
    assert!(l.hostinfo_fits());
    l.set_terminal_size(40, 8);
    assert_eq!(l.plan(4), Plan { first: true, second: false });
    assert_eq!(l.plan(8), Plan { first: false, second: false });
    l.toggle_pause();
    assert_eq!(l.plan(1), Plan { first: false, second: false });
    l.toggle_pause();
    assert_eq!(l.plan(1), Plan { first: true, second: false });
}

#[test]
fn flag_markers() {
    let mut b = Vec::new();
    flag_marker(&mut b, b'7', b't', true);
    assert_eq!(b, b"\x1b[6;37H\x1b[38;5;244mt\x1b[0m".to_vec());
    let mut b = Vec::new();
    flag_marker(&mut b, b'8', b's', false);
    assert_eq!(b, b"\x1b[6;38H ".to_vec());
}

#[test]
fn scan_files_admitted_processes() {
    let mut t = Processes::new(3).unwrap();
    t.begin_update(false);
    // A program: filed with its names, as an executable, and its name length kept.
    let adm = t.classify(4242, b"/usr/bin/vim\x00notes\x00", false);
    t.file_admitted(4242, adm, Vec::new(), 8, 4);
    let p = t.get(4242).unwrap();
    assert_eq!((p.executable.clone(), p.cmdline.clone()), (b"vim".to_vec(), b"notes ".to_vec()));
    assert!(!p.not_executable);
    assert_eq!((p.stat_fd, p.smaps_fd, p.pss, p.total), (8, 0, -1, 0));
    assert_eq!(t.maxpidlen, 4);
    // Its stat file could not be opened: nothing filed, the length still kept.
    let adm = t.classify(123456, b"/bin/true\x00", false);
    t.file_admitted(123456, adm, Vec::new(), -2, 6);
    assert!(t.get(123456).is_none());
    assert_eq!(t.maxpidlen, 6);
    // Without all processes a kernel thread is ignored and nothing changes.
    let adm = t.classify(2, b"", false);
    t.file_admitted(2, adm, b"kthreadd".to_vec(), 9, 1);
    assert!(t.get(2).is_none());
    assert_eq!(t.len(), 1);
    // With all processes it is filed under its stat name, without arguments.
    t.begin_update(true);
    assert_eq!(t.len(), 0);
    let adm = t.classify(2, b"", true);
    t.file_admitted(2, adm, b"kthreadd".to_vec(), 9, 1);
    let k = t.get(2).unwrap();
    assert!(k.not_executable);
    assert_eq!((k.executable.clone(), k.cmdline.len(), k.stat_fd), (b"kthreadd".to_vec(), 0, 9));
    assert_eq!(t.maxpidlen, 6);
}

#[test]
fn pid_names_and_lengths() {
    let names = b"4242 007 x1 4294967296";
    assert_eq!(pid_of(names, 0, 4), Some(4242));
    assert_eq!(pid_of(names, 5, 8), Some(7));
    assert_eq!(pid_of(names, 9, 11), None);
    assert_eq!(pid_of(names, 12, 22), None);
}

#[test]
fn ring_indices_wrap() {
    let mut u = Uring::new(8);
    assert_eq!(u.add_to_queue(u32::MAX, 7), (7, 0));
    assert_eq!(u.add_to_queue(0, 7), (0, 1));
    assert!(matches!(u.submit_all(2), Ok(2)));
    assert!(matches!(u.spin_next(u32::MAX, 1, 7), Ok(Some((7, 0)))));
    assert!(matches!(u.spin_next(0, 1, 7), Ok(Some((0, 1)))));
    assert!(matches!(u.spin_next(1, 1, 7), Err(UringError::JobComplete)));
}
