use megamonic::ui::XY;
use megamonic::ui::loadavg::Loadavg as LoadWidget;
use megamonic::ui::memory::Memory as MemoryWidget;
use megamonic::ui::swap::Swap as SwapWidget;
use megamonic::ui::sensors::Sensors as SensorsWidget;
use megamonic::ui::network::Network as NetworkWidget;
use megamonic::ui::processes::Processes as ProcessesWidget;
use megamonic::ui::hostinfo::Hostinfo as HostWidget;
use megamonic::ui::overview::Overview;
use megamonic::ui::gpu::Gpu;
use megamonic::ui::time::Time;
use megamonic::loadavg::Loadavg;
use megamonic::memory::Memory;
use megamonic::sensors::Sensors;
use megamonic::network::Network;
use megamonic::hostinfo::Hostinfo;
use megamonic::process::Process;
use megamonic::processes::Processes;

fn text(v: &[u8]) -> String {
    String::from_utf8(v.to_vec()).unwrap()
}

#[test]
fn load_widget_aligns_values() {
    let mut w = LoadWidget::new(XY { x: 58, y: 1 });
    w.rebuild_cache();
    assert!(text(&w.cache.0).starts_with("\x1b[1;58H\x1b[95mLoad\x1b[0m\x1b[2;58H"));
    let mut l = Loadavg::new();
    l.update(b"0.52 10.58 0.59 1/389 1").unwrap();
    let mut b = Vec::new();
    w.draw(&mut b, &l);
    let s = text(&b);
    assert!(s.contains(" 0.52\x1b[91m ]"));
    assert!(s.contains("10.58\x1b[91m ]"));
    assert_eq!(w.size.x, 17);
    let mut l2 = Loadavg::new();
    l2.update(b"1.00 2.00 3.00").unwrap();
    let mut b2 = Vec::new();
    w.draw(&mut b2, &l2);
    assert!(text(&b2).contains("[ \x1b[92m1.00\x1b[91m ]"));
    assert_eq!(w.size.x, 16);
}

#[test]
fn memory_widget_draws_three_sizes() {
    let mut w = MemoryWidget::new(XY { x: 18, y: 1 });
    w.rebuild_cache();
    assert_eq!(text(&w.cache.0), "\x1b[2;19H\x1b[95mMemory\x1b[0m\x1b[3;19H                    \x1b[3;19H\x1b[37mTotal: \x1b[38;5;244m[ \x1b[37m");
    let mut m = Memory::new();
    m.mem_total = 1u64 << 30;
    m.mem_used = 1u64 << 20;
    m.mem_free = 0;
    let mut b = Vec::new();
    w.draw(&mut b, &m);
    let want = format!("{}1.00 Gb{}   1 Mb{}    0 b\x1b[38;5;244m ]\x1b[0m", text(&w.cache.0), text(&w.cache.1), text(&w.cache.2));
    assert_eq!(text(&b), want);
}

#[test]
fn swap_widget_converts_only_on_change() {
    let mut w = SwapWidget::new(XY { x: 38, y: 1 });
    w.rebuild_cache();
    assert!(text(&w.cache.0).contains("\x1b[95mSwap\x1b[0m"));
    let mut m = Memory::new();
    m.swap_total = 2048;
    m.swap_free = 1024;
    m.swap_used = 1024;
    let mut b = Vec::new();
    w.draw(&mut b, &m);
    assert_eq!(text(&w.buffer.0), "   2 Kb");
    assert_eq!(text(&w.buffer.1), "   1 Kb");
    assert_eq!(text(&w.buffer.2), "   1 Kb");
    assert_eq!((w.total, w.free), (2048, 1024));
    m.swap_used = 0;
    let mut b2 = Vec::new();
    w.draw(&mut b2, &m);
    assert_eq!(text(&w.buffer.1), "   1 Kb");
    assert_eq!(b, b2);
    let none = Memory::new();
    let mut w0 = SwapWidget::new(XY { x: 38, y: 1 });
    let mut b3 = Vec::new();
    w0.draw(&mut b3, &none);
    assert!(w0.buffer.0.is_empty());
}

#[test]
fn sensors_widget_redraws_changes_only() {
    let mut info = Sensors::new();
    info.record(b"acpitz", b"temp1", 40);
    info.record(b"nvme", b"Composite", 35);
    let mut w = SensorsWidget::new(XY { x: 1, y: 12 }, &info);
    assert_eq!(w.size.y, 4);
    assert!(w.draw(&mut Vec::new(), &info));
    w.rebuild_cache(&info);
    assert_eq!(text(&w.cache[1]), "\x1b[15;25H\x1b[1K\x1b[15;2H\x1b[37macpitz\x1b[15;17H\x1b[91m[ \x1b[92m");
    let mut b = Vec::new();
    assert!(!w.draw(&mut b, &info));
    assert_eq!(text(&b), format!("{}35 C\x1b[91m ]\x1b[0m{}40 C\x1b[91m ]\x1b[0m", text(&w.cache[0]), text(&w.cache[1])));
    let mut b2 = Vec::new();
    assert!(!w.draw(&mut b2, &info));
    assert!(b2.is_empty());
    info.record(b"acpitz", b"temp1", 41);
    let mut b3 = Vec::new();
    assert!(!w.draw(&mut b3, &info));
    assert_eq!(text(&b3), format!("{}41 C\x1b[91m ]\x1b[0m", text(&w.cache[1])));
    let mut title = Vec::new();
    w.draw_static(&mut title);
    assert_eq!(text(&title), "\x1b[13;2H\x1b[95mSensors\x1b[0m");
}

#[test]
fn network_widget_lines() {
    let mut info = Network::new();
    info.update(b"h\nh\neth0: 100 0 0 0 0 0 0 0 0 0\n").unwrap();
    info.update(b"h\nh\neth0: 300 0 0 0 0 0 0 0 0 0\n").unwrap();
    let mut w = NetworkWidget::new(XY { x: 1, y: 6 }, 0);
    let speeds = vec![(b"200 b/s".to_vec(), b"0 b/s".to_vec())];
    assert!(w.draw(&mut Vec::new(), &info, &speeds));
    w.rebuild_cache(&info);
    assert_eq!(w.size.y, 4);
    let mut b = Vec::new();
    assert!(!w.draw(&mut b, &info, &speeds));
    let want = format!("{}200 b/s\x1b[37m Rx\x1b[0m{}0 b/s\x1b[37m Tx\x1b[0m", text(&w.cache[0].0), text(&w.cache[0].3));
    assert_eq!(text(&b), want);
    assert!(text(&w.cache[0].0).contains("eth0:   "));
    let mut t = Vec::new();
    w.draw_static(&mut t);
    assert_eq!(text(&t), "\x1b[7;2H\x1b[95mNetwork\x1b[0m");
}

#[test]
fn process_widget_rows_and_name_cache() {
    let mut table = Processes::new(3).unwrap();
    table.begin_update(false);
    let mut p = Process::new(42, b"bash".to_vec(), b"-l".to_vec(), false, 5).unwrap();
    p.rss = 2048;
    table.insert_process(p);
    let mut w = ProcessesWidget::new(XY { x: 27, y: 6 });
    w.rebuild_cache(XY { x: 100, y: 12 });
    assert_eq!(w.size.y, 3);
    assert_eq!(text(&w.cache1[0]), "\x1b[8;28H\x1b[0K\x1b[8;28H");
    let list = vec![42u32];
    let cpu = vec![b"  1.5%".to_vec()];
    let mut b = Vec::new();
    w.draw(&mut b, &table, &list, 2, false, XY { x: 100, y: 12 }, &cpu);
    let want = "\x1b[8;28H\x1b[0K\x1b[8;28H  1.5%\x1b[92m   2 Kb\x1b[91m ] \x1b[37m42 \x1b[0m\x1b[92mbash\x1b[38;5;244m-l\x1b[0m";
    assert_eq!(text(&b), want);
    let mut b2 = Vec::new();
    w.draw(&mut b2, &table, &list, 2, false, XY { x: 100, y: 12 }, &cpu);
    assert_eq!(b, b2);
    let mut title = Vec::new();
    w.draw_static(&mut title);
    assert_eq!(text(&title), "\x1b[7;28H\x1b[95mProcesses\x1b[0m");
}

#[test]
fn host_widget_right_aligned() {
    let info = Hostinfo::from_texts(Some(b"NAME=\"Arch Linux\"\nANSI_COLOR=\"0;36\"\n"), Some(b"6.6.1\n"));
    let mut w = HostWidget::new(XY { x: 0, y: 0 });
    w.rebuild_cache(&info, XY { x: 80, y: 24 });
    assert_eq!(w.size.x, 24);
    let mut b = Vec::new();
    w.draw(&mut b);
    assert_eq!(text(&b), "\x1b[25;57H\x1b[0K\x1b[25;57H\x1b[91m[ \x1b[0;36mArch Linux\x1b[91m ] [ \x1b[0m6.6.1\x1b[91m ]\x1b[0m");
    w.rebuild_cache(&info, XY { x: 10, y: 24 });
    assert!(text(&w.cache).starts_with("\x1b[25;1H"));
}

#[test]
fn overview_and_gpu_caches() {
    let mut o = Overview::new(XY { x: 1, y: 1 });
    o.rebuild_cache();
    assert_eq!(text(&o.cache.0), "\x1b[1;1H\x1b[95mOverview\x1b[0m\x1b[2;17H\x1b[1K\x1b[2;1H\x1b[37mCPU:  \x1b[91m[ \x1b[92m");
    assert_eq!(text(&o.cache.2), "\x1b[4;17H\x1b[1K\x1b[4;1H\x1b[37mSwap: \x1b[91m[ \x1b[92m");
    let mut g = Gpu::new(XY { x: 1, y: 22 });
    g.rebuild_cache();
    assert!(text(&g.cache1).starts_with("\x1b[22;1H\x1b[95mGpu\x1b[0m\x1b[23;25H\x1b[1K"));
    assert_eq!(text(&g.cache2), " C\x1b[91m ]\x1b[0m\x1b[24;1H\x1b[37mGpu load:     \x1b[91m[ \x1b[92m");
    assert_eq!(text(&g.cache4), "%\x1b[91m ]\x1b[0m\x1b[26;1H\x1b[37mMem use:      \x1b[91m[ \x1b[92m");
}

#[test]
fn clock_fits_its_text() {
    let mut t = Time { pos: XY { x: 1, y: 30 }, size: XY { x: 0, y: 1 }, cache: Vec::new() };
    let mut b = Vec::new();
    t.draw_text(&mut b, &b"12:00:00".to_vec());
    assert_eq!(t.size.x, 8);
    assert_eq!(text(&t.cache), "\x1b[30;8H\x1b[1K\x1b[30;1H\x1b[0m");
    assert_eq!(text(&b), "\x1b[30;8H\x1b[1K\x1b[30;1H\x1b[0m12:00:00");
    t.cache = b"kept".to_vec();
    let mut b2 = Vec::new();
    t.draw_text(&mut b2, &b"12:00:01".to_vec());
    assert_eq!(text(&b2), "kept12:00:01");
}

#[test]
fn clock_formats_epoch() {
    let mut t = Time::new(XY { x: 1, y: 30 });
    let s = t.gettime("%Y", 0);
    assert!(s.len() <= 300);
    assert_eq!(t.size.x as usize, s.len());
    let mut b = Vec::new();
    t.draw(&mut b, "literal", 0);
    assert!(text(&b).ends_with("literal"));
    assert_eq!(t.size.x, 7);
}
