use drishti::action::Action;
use drishti::collector::{compute_derived, merge_snapshots_at, push_bounded};
use drishti::console::{parse_command, ConsoleCommand, LineEditor};
use drishti::keymap::{handle_key, Command, Key, Screen};
use drishti::logview::{parse_log_line, window_offset, LogBook, LogLevel};
use drishti::mbeans::MBeanBrowser;
use drishti::model::{DeadlockInfo, GcAlgorithm, GcCollectorStats, JvmSnapshot};
use drishti::profiler::{ProfileEvent, ProfileStatus, ProfilerPanel};
use drishti::tabs::Tab;

fn screen(tab: Tab) -> Screen {
    Screen { active_tab: tab, show_help: false, console_input: false }
}

#[test]
fn keys_quit_help_and_tabs() {
    let s = screen(Tab::Overview);
    assert_eq!(handle_key(s, Key::Char('q')).1, Action::Quit);
    let (h, a, _) = handle_key(s, Key::Char('?'));
    assert!(h.show_help);
    assert_eq!(a, Action::Render);
    // Help swallows everything but ? and Esc.
    let (h2, _, c) = handle_key(h, Key::Tab);
    assert_eq!(h2.active_tab, Tab::Overview);
    assert_eq!(c, Command::Nothing);
    assert!(!handle_key(h, Key::Esc).0.show_help);
    assert_eq!(handle_key(s, Key::Tab).0.active_tab, Tab::Memory);
    assert_eq!(handle_key(s, Key::BackTab).0.active_tab, Tab::Recommendations);
    assert_eq!(handle_key(s, Key::Char('3')).0.active_tab, Tab::Threads);
    assert_eq!(handle_key(s, Key::Char('0')).0.active_tab, Tab::Recommendations);
    assert_eq!(handle_key(s, Key::Char('x')).1, Action::Noop);
}

#[test]
fn keys_reach_the_active_tab() {
    assert_eq!(handle_key(screen(Tab::Threads), Key::Down).2, Command::ThreadsScrollDown);
    assert_eq!(handle_key(screen(Tab::MBeans), Key::Char('k')).2, Command::MBeansSelectPrev);
    assert_eq!(handle_key(screen(Tab::Logs), Key::Char('L')).2, Command::LogsCycleLevel);
    assert_eq!(handle_key(screen(Tab::Memory), Key::Char('L')).1, Action::Noop);
    assert_eq!(handle_key(screen(Tab::Profiler), Key::Char('=')).2, Command::ProfilerLonger);
    assert_eq!(handle_key(screen(Tab::Profiler), Key::Enter).2, Command::ProfilerStart);
    let (c, _, _) = handle_key(screen(Tab::Console), Key::Enter);
    assert!(c.console_input);
    assert_eq!(handle_key(c, Key::Char('q')).2, Command::ConsoleInsert('q'));
    assert_eq!(handle_key(c, Key::Char('q')).1, Action::Render);
    assert!(!handle_key(c, Key::Esc).0.console_input);
}

#[test]
fn console_editing_and_history() {
    let mut e = LineEditor::new();
    for c in "hep".chars() {
        e.insert_char(c);
    }
    e.cursor_left();
    e.insert_char('l');
    assert_eq!(e.input, "help");
    e.backspace();
    assert_eq!(e.input, "hep");
    e.insert_char('l');
    e.cursor_right();
    assert_eq!(e.take_command().as_deref(), Some("help"));
    assert_eq!(e.input, "");
    for c in "  gc ".chars() {
        e.insert_char(c);
    }
    assert_eq!(e.take_command().as_deref(), Some("gc"));
    e.history_up();
    assert_eq!(e.input, "gc");
    e.history_up();
    assert_eq!(e.input, "help");
    e.history_up();
    assert_eq!(e.input, "help");
    e.history_down();
    assert_eq!(e.input, "gc");
    e.history_down();
    assert_eq!(e.input, "");
    assert_eq!(e.history_index, None);
    e.insert_char(' ');
    assert_eq!(e.take_command(), None);
    assert_eq!(e.input, " ");
}

#[test]
fn console_commands() {
    assert_eq!(parse_command("help"), Some(ConsoleCommand::Help));
    assert_eq!(parse_command("?"), Some(ConsoleCommand::Help));
    assert_eq!(parse_command("dash"), Some(ConsoleCommand::Dashboard));
    assert_eq!(parse_command("threads 42"), Some(ConsoleCommand::Threads(Some("42".to_string()))));
    assert_eq!(parse_command("thread"), Some(ConsoleCommand::Threads(None)));
    assert_eq!(parse_command("mem"), Some(ConsoleCommand::Memory));
    assert_eq!(parse_command("cls"), Some(ConsoleCommand::Clear));
    assert_eq!(parse_command("frobnicate now"), Some(ConsoleCommand::Unknown("frobnicate".to_string())));
    assert_eq!(parse_command("   "), None);
}

#[test]
fn log_lines_levels_and_times() {
    let e = parse_log_line("2024-01-15T10:30:00.123  WARN 12345 --- [main] c.e.App : careful");
    assert_eq!(e.level, LogLevel::Warn);
    assert_eq!(e.timestamp, "2024-01-15T10:30:00.123");
    let short = parse_log_line("oops ERROR here");
    assert_eq!(short.level, LogLevel::Error);
    assert_eq!(short.timestamp, "");
    assert_eq!(parse_log_line("plain text").level, LogLevel::Info);
    // Byte 23 inside a two-byte character: no time.
    let odd = parse_log_line("aaaaaaaaaaaaaaaaaaaaaaé and more");
    assert_eq!(odd.timestamp, "");
}

#[test]
fn log_book_counts_and_filters() {
    let mut b = LogBook::new();
    b.add_log(parse_log_line("x ERROR y"));
    b.add_log(parse_log_line("x DEBUG y"));
    b.add_log(parse_log_line("x WARN y"));
    assert_eq!(b.total_count, 3);
    assert_eq!(b.error_count, 1);
    assert_eq!(b.warn_count, 1);
    assert_eq!(b.visible().len(), 2);
    b.cycle_min_level();
    assert_eq!(b.min_level, LogLevel::Warn);
    b.cycle_min_level();
    b.cycle_min_level();
    assert_eq!(b.min_level, LogLevel::Trace);
    assert_eq!(b.visible().len(), 3);
    for _ in 0..2100 {
        b.add_log(parse_log_line("x INFO y"));
    }
    assert_eq!(b.entries.len(), 2000);
    assert_eq!(LogLevel::Info.label(), " INFO");
}

#[test]
fn log_book_scrolling() {
    let mut b = LogBook::new();
    assert!(b.auto_scroll);
    assert_eq!(b.scroll_offset, 0);
    b.scroll_up();
    assert!(!b.auto_scroll);
    assert_eq!(b.scroll_offset, 0);
    b.scroll_down();
    b.scroll_down();
    assert_eq!(b.scroll_offset, 2);
    assert!(!b.auto_scroll);
    b.scroll_up();
    assert_eq!(b.scroll_offset, 1);
    b.scroll_bottom();
    assert!(b.auto_scroll);
    assert_eq!(b.scroll_offset, 0);
}

#[test]
fn log_window() {
    assert_eq!(window_offset(true, 0, 100, 10), 90);
    assert_eq!(window_offset(false, 5, 100, 10), 5);
    assert_eq!(window_offset(false, 95, 100, 10), 90);
    assert_eq!(window_offset(true, 3, 4, 10), 0);
}

#[test]
fn mbean_tree_groups_and_sorts() {
    let names: Vec<String> = vec![
        "java.lang:type=Memory".to_string(),
        "com.zaxxer.hikari:type=Pool (main),name=x".to_string(),
        "java.lang:type=GarbageCollector,name=G1 Young Generation".to_string(),
        "java.lang:name=G1 Old Gen,type=MemoryPool".to_string(),
        "JMImplementation:type=MBeanServerDelegate".to_string(),
    ];
    let mut b = MBeanBrowser::new();
    b.load_mbeans(&names);
    let domains: Vec<&str> = b.tree.iter().map(|n| n.name.as_str()).collect();
    assert_eq!(domains, vec!["JMImplementation", "com.zaxxer.hikari", "java.lang"]);
    let jl = &b.tree[2];
    assert_eq!(jl.children.len(), 3);
    assert_eq!(jl.children[0].name, "type=Memory");
    assert_eq!(jl.children[1].full_path, "java.lang:type=GarbageCollector,name=G1 Young Generation");
    assert_eq!(jl.children[2].name, "name=G1 Old Gen");
    assert_eq!(b.flat_view.len(), 3);
    b.selected_index = 2;
    b.toggle_selected();
    assert_eq!(b.flat_view.len(), 6);
    assert_eq!(b.flat_view[3].depth, 1);
    b.select_next();
    assert_eq!(b.selected_index, 3);
    b.toggle_selected();
    assert_eq!(b.flat_view.len(), 6);
    b.selected_index = 2;
    b.toggle_selected();
    assert_eq!(b.flat_view.len(), 3);
    b.select_prev();
    assert_eq!(b.selected_index, 1);
}

#[test]
fn profiler_panel_settings() {
    let mut p = ProfilerPanel::new("/tmp");
    p.cycle_event();
    assert_eq!(p.manager.config.event, ProfileEvent::Alloc);
    for _ in 0..3 {
        p.cycle_event();
    }
    assert_eq!(p.manager.config.event, ProfileEvent::Cpu);
    for _ in 0..40 {
        p.increase_duration();
    }
    assert_eq!(p.duration_secs, 300);
    for _ in 0..40 {
        p.decrease_duration();
    }
    assert_eq!(p.duration_secs, 5);
    assert_eq!(p.manager.config.duration_secs, 5);
    assert_eq!(p.begin_recording(true), None);
    assert!(matches!(p.manager.status, ProfileStatus::Error(ref m) if m == "readonly mode — profiling disabled"));
    assert_eq!(p.begin_recording(false), None);
    assert!(matches!(p.manager.status, ProfileStatus::Error(ref m) if m == "async-profiler not available on target JVM"));
    p.manager.config.target_pid = Some(7);
    assert_eq!(p.begin_recording(false), Some(7));
}

fn collector(name: &str, time: i64) -> GcCollectorStats {
    GcCollectorStats { name: name.to_string(), collection_count: 1, collection_time_ms: time }
}

#[test]
fn derived_rates() {
    let mut a = JvmSnapshot::default();
    a.timestamp = 1_000;
    a.heap.used = 1_000;
    a.gc_collectors = vec![collector("G1 Young Generation", 100)];
    a.http.total_requests = 10;
    a.http.total_errors = 1;
    let mut b = JvmSnapshot::default();
    b.timestamp = 3_000;
    b.heap.used = 5_000;
    b.gc_collectors = vec![collector("G1 Young Generation", 300)];
    b.http.total_requests = 30;
    b.http.total_errors = 6;
    let d = compute_derived(&a, &b);
    // 4000 bytes in 2 s; 200 ms of GC in 2000 ms; 20 requests in 2 s, 5 failed.
    assert_eq!(d.allocation_rate_bytes_per_sec, 2_000_000_000);
    assert_eq!(d.gc_overhead, 100_000);
    assert_eq!(d.gc_throughput, 900_000);
    assert_eq!(d.http_requests_per_sec, 10_000_000);
    assert_eq!(d.http_error_rate, 250_000);
    let same = compute_derived(&b, &b);
    assert_eq!(same.gc_throughput, 1_000_000);
    assert_eq!(same.http_error_rate, 0);
}

#[test]
fn merge_keeps_actuator_and_takes_jolokia_identity() {
    let mut act = JvmSnapshot::default();
    act.thread_summary.live = 48;
    act.jvm_info.vm_name = "old".to_string();
    let mut jol = JvmSnapshot::default();
    jol.jvm_info.vm_name = "OpenJDK".to_string();
    jol.jvm_info.uptime_ms = 5;
    jol.jvm_info.gc_algorithm = GcAlgorithm::G1;
    jol.deadlocks = vec![DeadlockInfo { thread_ids: vec![1, 2], threads: vec![], detected_at: 0 }];
    let m = merge_snapshots_at(act, jol, 77);
    assert_eq!(m.timestamp, 77);
    assert_eq!(m.thread_summary.live, 48);
    assert_eq!(m.jvm_info.vm_name, "OpenJDK");
    assert_eq!(m.jvm_info.uptime_ms, 5);
    assert_eq!(m.jvm_info.gc_algorithm, GcAlgorithm::G1);
    assert_eq!(m.deadlocks.len(), 1);
}

#[test]
fn bounded_push_drops_oldest() {
    let mut v: Vec<i32> = vec![1, 2, 3];
    push_bounded(&mut v, 4, 3);
    assert_eq!(v, vec![2, 3, 4]);
    push_bounded(&mut v, 5, 5);
    assert_eq!(v, vec![2, 3, 4, 5]);
    push_bounded(&mut v, 6, 0);
    assert!(v.is_empty());
}
