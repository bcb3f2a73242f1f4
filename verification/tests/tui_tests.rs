use drishti::action::Action;
use drishti::config::{PollingConfig, TargetConfig, UiConfig};
use drishti::jolokia::{JolokiaRequest, Json};
use drishti::profiler::{
    collapsed_to_tree, OutputFormat, ProfileConfig, ProfileEvent, ProfileManager, ProfileStatus,
    ProfilerError,
};
use drishti::tabs::Tab;

#[test]
fn parse_collapsed_stacks() {
    let collapsed = "main;process;HashMap.get 42\nmain;process;HashMap.put 18\nmain;init 5\n";
    let tree = collapsed_to_tree(collapsed);
    assert_eq!(tree.len(), 1);
    assert_eq!(tree[0].total_samples, 65);
    assert_eq!(tree[0].children.len(), 1);
    assert_eq!(tree[0].children[0].name, "main");
    assert_eq!(tree[0].children[0].total_samples, 65);
}

#[test]
fn collapsed_tree_orders_children_by_samples() {
    let tree = collapsed_to_tree("A;B;C 100\nA;B;D 50\nA;E 30\n");
    let root = &tree[0];
    assert_eq!(root.name, "(all)");
    assert_eq!(root.total_samples, 180);
    let a = &root.children[0];
    assert_eq!(a.name, "A");
    assert_eq!(a.self_samples, 0);
    assert_eq!(a.children.len(), 2);
    assert_eq!(a.children[0].name, "B");
    assert_eq!(a.children[0].total_samples, 150);
    assert_eq!(a.children[1].name, "E");
    assert_eq!(a.children[1].self_samples, 30);
    let b = &a.children[0];
    assert_eq!(b.children[0].name, "C");
    assert_eq!(b.children[1].name, "D");
}

#[test]
fn collapsed_tree_ties_keep_first_seen_order() {
    let tree = collapsed_to_tree("x;q 5\ny 10\nx;r 5\nz 10\n");
    let names: Vec<&str> = tree[0].children.iter().map(|c| c.name.as_str()).collect();
    assert_eq!(names, vec!["x", "y", "z"]);
}

#[test]
fn collapsed_tree_skips_bad_lines() {
    let tree = collapsed_to_tree("\n  \nnospace\na;b notanumber\n  a;b 7  \r\na 3\n");
    let root = &tree[0];
    assert_eq!(root.total_samples, 10);
    assert_eq!(root.children.len(), 1);
    assert_eq!(root.children[0].self_samples, 3);
    assert_eq!(root.children[0].children[0].name, "b");
    assert_eq!(root.children[0].children[0].self_samples, 7);
}

#[test]
fn collapsed_tree_of_nothing() {
    let tree = collapsed_to_tree("");
    assert_eq!(tree.len(), 1);
    assert_eq!(tree[0].total_samples, 0);
    assert!(tree[0].children.is_empty());
}

#[test]
fn profile_config_defaults() {
    let cfg = ProfileConfig::default_in("/tmp");
    assert_eq!(cfg.event, ProfileEvent::Cpu);
    assert_eq!(cfg.duration_secs, 30);
    assert_eq!(cfg.output_format, OutputFormat::Html);
    assert_eq!(cfg.output_dir, "/tmp/drishti-profiles");
    assert!(cfg.target_pid.is_none());
}

#[test]
fn build_asprof_command() {
    let mut mgr = ProfileManager::new("/tmp");
    mgr.config.target_pid = Some(12345);
    let cmd = mgr.build_asprof_command(12345);
    assert_eq!(cmd[0], "asprof");
    assert!(cmd.contains(&"cpu".to_string()));
    assert!(cmd.contains(&"12345".to_string()));
}

#[test]
fn asprof_command_with_fixed_time() {
    let mgr = ProfileManager::new("/tmp/");
    let cmd = mgr.build_asprof_command_at(7, "20240115_103000");
    assert_eq!(
        cmd,
        vec!["asprof", "-d", "30", "-e", "cpu", "-f", "/tmp/drishti-profiles/drishti_cpu_20240115_103000.html", "7"]
    );
}

#[test]
fn start_and_stop_commands() {
    let mut mgr = ProfileManager::new("");
    mgr.config.event = ProfileEvent::Alloc;
    mgr.config.output_format = OutputFormat::Jfr;
    assert_eq!(
        mgr.build_start_command_at("S"),
        "start,event=alloc,file=drishti-profiles/drishti_alloc_S.jfr,flamegraph"
    );
    assert_eq!(mgr.build_stop_command_at("S"), "stop,file=drishti-profiles/drishti_alloc_S.jfr");
    assert!(mgr.build_start_command().starts_with("start,event=alloc,file=drishti-profiles/drishti_alloc_"));
}

#[test]
fn flatten_tree() {
    let collapsed = "A;B;C 100\nA;B;D 50\nA;E 30\n";
    let tree = collapsed_to_tree(collapsed);
    let lines = tree[0].flatten(0, 180);
    assert!(lines.len() >= 5); // root, A, B, C, D, E
    // 100 %, in millionths of a percent.
    assert_eq!(lines[0].total_pct, 100_000_000);
}

#[test]
fn flatten_layout_and_shares() {
    let tree = collapsed_to_tree("A;B;C 100\nA;B;D 50\nA;E 30\nA 20\n");
    let lines = tree[0].flatten(0, 200);
    let rows: Vec<(usize, &str, u64, u64)> =
        lines.iter().map(|l| (l.depth, l.name.as_str(), l.total_samples, l.self_samples)).collect();
    assert_eq!(
        rows,
        vec![(0, "(all)", 200, 0), (1, "A", 200, 20), (2, "B", 150, 0), (3, "C", 100, 100), (3, "D", 50, 50), (2, "E", 30, 30)]
    );
    assert_eq!(lines[1].self_pct, 10_000_000);
    assert_eq!(lines[2].total_pct, 75_000_000);
    // 30 of 200 samples: 15 %; an empty total gives no share.
    assert_eq!(lines[5].total_pct, 15_000_000);
    assert_eq!(tree[0].flatten(3, 0)[0].total_pct, 0);
    assert_eq!(tree[0].flatten(3, 0)[1].depth, 4);
}

#[test]
fn remote_profiler_requests() {
    let mut mgr = ProfileManager::new("");
    mgr.config.event = ProfileEvent::Alloc;
    mgr.config.output_format = OutputFormat::Jfr;
    match mgr.jolokia_start_request_at("S") {
        JolokiaRequest::Exec { mbean, operation, arguments } => {
            assert_eq!(mbean, "one.profiler:type=AsyncProfiler");
            assert_eq!(operation, "execute");
            let args = arguments.expect("arguments");
            assert_eq!(args.len(), 1);
            assert!(matches!(&args[0],
                Json::Str(c) if c == "start,event=alloc,file=drishti-profiles/drishti_alloc_S.jfr,flamegraph"));
        }
        _ => panic!("expected an exec request"),
    }
    match mgr.jolokia_stop_request() {
        JolokiaRequest::Exec { arguments: Some(args), .. } => {
            assert!(matches!(&args[0],
                Json::Str(c) if c.starts_with("stop,file=drishti-profiles/drishti_alloc_")));
        }
        _ => panic!("expected an exec request"),
    }
}

#[test]
fn event_and_format_names() {
    assert_eq!(ProfileEvent::Wall.as_str(), "wall");
    assert_eq!(ProfileEvent::Lock.as_str(), "lock");
    assert_eq!(OutputFormat::Collapsed.extension(), "collapsed");
}

#[test]
fn local_start_checks() {
    let mut mgr = ProfileManager::new("/tmp");
    assert!(matches!(mgr.check_local_start(), Err(ProfilerError::NotAvailable)));
    mgr.config.target_pid = Some(99);
    assert!(matches!(mgr.check_local_start(), Ok(99)));
    mgr.mark_started("/tmp/x.html".to_string());
    assert!(mgr.is_recording());
    assert_eq!(
        mgr.status,
        ProfileStatus::Recording { event: ProfileEvent::Cpu, elapsed_secs: 0, total_secs: 30 }
    );
    assert_eq!(mgr.last_output.as_deref(), Some("/tmp/x.html"));
    assert!(matches!(mgr.check_local_start(), Err(ProfilerError::AlreadyRunning)));
}

#[test]
fn tab_navigation_wraps() {
    assert_eq!(Tab::Overview.next(), Tab::Memory);
    assert_eq!(Tab::Recommendations.next(), Tab::Overview);
    assert_eq!(Tab::Overview.prev(), Tab::Recommendations);
    assert_eq!(Tab::from_index(3), Tab::Http);
    assert_eq!(Tab::from_index(42), Tab::Overview);
    assert_eq!(Tab::MBeans.index(), 6);
    assert_eq!(Tab::Db.title(), "DB/Pool");
    assert_eq!(Tab::all().len(), 10);
    let mut t = Tab::Logs;
    for _ in 0..10 {
        t = t.next();
    }
    assert_eq!(t, Tab::Logs);
}

#[test]
fn default_config_is_valid() {
    let polling = PollingConfig::default();
    assert_eq!(polling.metrics_interval_secs, 2);
    let target = TargetConfig::default();
    assert_eq!(target.mode, "both");
    let ui = UiConfig::default();
    assert_eq!(ui.theme, "dark");
    assert_eq!(ui.render_rate_hz, 30);
}

#[test]
fn cli_overrides_replace_only_what_is_given() {
    let t = TargetConfig::default().with_cli_overrides(Some("http://a/actuator"), None, Some("/var/gc.log"));
    assert_eq!(t.actuator_url, "http://a/actuator");
    assert_eq!(t.jolokia_url, "http://localhost:8778/jolokia");
    assert_eq!(t.gc_log_path.as_deref(), Some("/var/gc.log"));
    assert!(t.app_log_path.is_none());
}

#[test]
fn actions_compare() {
    assert_eq!(Action::TabSelect(3), Action::TabSelect(3));
    assert_ne!(Action::Filter("a".to_string()), Action::Filter("b".to_string()));
    assert_eq!(Action::Noop, Action::Noop.clone());
}
