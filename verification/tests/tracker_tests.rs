use sys_collector::collector::SizeGuard;
use sys_collector::enums::{AppMode, LogLev, SimpleDataCollectionMode};
use sys_collector::model::{
    parse_process_search_entries, parse_process_search_entry, CustomProcessData, FindingStruct,
    ProcessCache, Settings,
};
use sys_collector::tracker::{
    all_tracked_processes_alive, check_for_new_and_old_process_data, check_which_process_to_track,
    find_best_match, remove_tracking_of_removed_processes, update_new_processes_stats,
    update_usage_of_tracked_process, RefreshPlan,
};

const OWN_PID: usize = 1;

fn proc(pid: usize, cmd: &str, cpu: u64, mem: u64) -> CustomProcessData {
    CustomProcessData {
        pid,
        name: cmd.split(' ').next().unwrap().to_string(),
        cmd_string: cmd.to_string(),
        memory_usage: mem,
        cpu_usage: cpu,
    }
}

fn spec(name: &str, search: &str) -> FindingStruct {
    FindingStruct {
        graph_name: name.to_string(),
        search_text: search.to_string(),
    }
}

fn settings_with(specs: Vec<FindingStruct>) -> Settings {
    Settings {
        check_interval: 100,
        data_path: "data.csv".to_string(),
        plot_path: "plot.html".to_string(),
        app_mode: AppMode::COLLECT,
        collection_mode: vec![SimpleDataCollectionMode::MEMORY_USED],
        plot_width: 1700,
        plot_height: 800,
        white_plot_mode: false,
        log_level: LogLev::Info,
        open_plot_file: false,
        disable_instant_flushing: false,
        use_web_gl: true,
        backup_number: 5,
        maximum_data_file_size_bytes: 1 << 20,
        need_to_refresh_processes: !specs.is_empty(),
        process_cmd_to_search: specs,
        start_time: 0,
        app_version: "0.1".to_string(),
    }
}

#[test]
fn a_fresh_cache_is_unbound() {
    let cache = ProcessCache::new_with_size(2, &vec![10, 11], OWN_PID);
    assert_eq!(cache.process_used.len(), 2);
    assert!(cache.process_used.iter().all(|s| s.is_none()));
}

#[test]
fn new_pids_are_the_ones_not_yet_refreshed() {
    let cache = ProcessCache::new_with_size(0, &vec![10, 11], OWN_PID);
    let fresh = cache.get_differences_in_usage_processes(&vec![10, 11, 12, 13]);
    assert_eq!(fresh, vec![12, 13]);
}

#[test]
fn refresh_plan_depends_on_how_many_are_new() {
    let mut cache = ProcessCache::new_with_size(0, &vec![], OWN_PID);
    match update_new_processes_stats(&mut cache, &vec![], OWN_PID) {
        RefreshPlan::NoNewProcesses => {}
        _ => panic!("nothing is new"),
    }
    let mut cache = ProcessCache::new_with_size(0, &vec![], OWN_PID);
    let pids: Vec<usize> = (10..20).collect();
    match update_new_processes_stats(&mut cache, &pids, OWN_PID) {
        RefreshPlan::RefreshEach(v) => assert_eq!(v, pids),
        _ => panic!("a few new processes are refreshed one by one"),
    }
    let mut cache = ProcessCache::new_with_size(0, &vec![], OWN_PID);
    let forty: Vec<usize> = (10..50).collect();
    match update_new_processes_stats(&mut cache, &forty, OWN_PID) {
        RefreshPlan::RefreshEach(v) => assert_eq!(v.len(), 40),
        _ => panic!("exactly 40 new processes are still refreshed one by one"),
    }
    let mut cache = ProcessCache::new_with_size(0, &vec![], OWN_PID);
    let many: Vec<usize> = (10..51).collect();
    match update_new_processes_stats(&mut cache, &many, OWN_PID) {
        RefreshPlan::RefreshAll => {}
        _ => panic!("more than 40 new processes are refreshed in bulk"),
    }
}

#[test]
fn the_shorter_matching_command_line_wins() {
    let cache = ProcessCache::new_with_size(1, &vec![], OWN_PID);
    let procs = vec![
        proc(10, "firefox --profile /tmp/x --headless", 0, 0),
        proc(11, "firefox", 0, 0),
        proc(12, "chrome", 0, 0),
    ];
    let r = find_best_match(
        &procs,
        "firefox",
        &cache.processes_checked_to_be_used,
        &vec![10, 11, 12],
    );
    assert_eq!(r, Some(1));
}

#[test]
fn binding_prefers_the_most_specific_match() {
    let s = settings_with(vec![spec("Firefox", "firefox")]);
    let mut cache = ProcessCache::new_with_size(1, &vec![], OWN_PID);
    let procs = vec![
        proc(10, "firefox --profile /tmp/x", 0, 0),
        proc(11, "firefox", 0, 0),
    ];
    check_which_process_to_track(&mut cache, &s, &procs, &vec![10, 11]);
    let bound = cache.process_used[0].as_ref().unwrap();
    assert_eq!(bound.pid, 11);
    assert_eq!(bound.cmd_string, "firefox");
}

#[test]
fn an_evaluated_pid_is_not_bound_twice() {
    let s = settings_with(vec![spec("A", "sh"), spec("B", "sh")]);
    let mut cache = ProcessCache::new_with_size(2, &vec![], OWN_PID);
    let procs = vec![proc(10, "bash", 0, 0), proc(11, "zsh --login", 0, 0)];
    check_which_process_to_track(&mut cache, &s, &procs, &vec![10, 11]);
    assert_eq!(cache.process_used[0].as_ref().unwrap().pid, 10);
    assert_eq!(cache.process_used[1].as_ref().unwrap().pid, 11);
}

#[test]
fn dead_processes_are_unbound() {
    let mut cache = ProcessCache::new_with_size(2, &vec![], OWN_PID);
    cache.process_used[0] = Some(proc(10, "bash", 0, 0));
    cache.process_used[1] = Some(proc(11, "zsh", 0, 0));
    remove_tracking_of_removed_processes(&mut cache, &vec![11]);
    assert!(cache.process_used[0].is_none());
    assert_eq!(cache.process_used[1].as_ref().unwrap().pid, 11);
}

#[test]
fn usage_is_refreshed_from_the_snapshot() {
    let mut cache = ProcessCache::new_with_size(1, &vec![], OWN_PID);
    cache.process_used[0] = Some(proc(10, "bash", 100, 200));
    update_usage_of_tracked_process(&mut cache, &vec![proc(10, "bash", 300, 400)]);
    let p = cache.process_used[0].as_ref().unwrap();
    assert_eq!(p.cpu_usage, 300);
    assert_eq!(p.memory_usage, 400);
    // a process missing from the snapshot keeps its stale data
    update_usage_of_tracked_process(&mut cache, &vec![]);
    let p = cache.process_used[0].as_ref().unwrap();
    assert_eq!(p.cpu_usage, 300);
}

#[test]
fn the_fast_path_needs_every_spec_bound_and_alive() {
    let mut cache = ProcessCache::new_with_size(1, &vec![], OWN_PID);
    assert!(!all_tracked_processes_alive(&cache, &vec![10]));
    cache.process_used[0] = Some(proc(10, "bash", 0, 0));
    assert!(all_tracked_processes_alive(&cache, &vec![10]));
    assert!(!all_tracked_processes_alive(&cache, &vec![11]));
}

#[test]
fn a_spec_stays_bound_while_its_pid_lives_and_unbinds_when_it_leaves() {
    let s = settings_with(vec![spec("Shell", "bash")]);
    let mut cache = ProcessCache::new_with_size(1, &vec![], OWN_PID);
    let procs = vec![proc(10, "bash --login", 500, 600)];
    check_for_new_and_old_process_data(&mut cache, &s, &vec![10], &procs, OWN_PID);
    assert_eq!(cache.process_used[0].as_ref().unwrap().pid, 10);

    // still alive: the binding survives the next tick
    check_for_new_and_old_process_data(&mut cache, &s, &vec![10], &procs, OWN_PID);
    assert_eq!(cache.process_used[0].as_ref().unwrap().pid, 10);

    // the PID left the system PID set: unbound exactly one cycle later
    check_for_new_and_old_process_data(&mut cache, &s, &vec![], &vec![], OWN_PID);
    assert!(cache.process_used[0].is_none());
}

#[test]
fn search_entries_parse_and_validate() {
    let f = parse_process_search_entry("Firefox|firefox").unwrap();
    assert_eq!(f.graph_name, "Firefox");
    assert_eq!(f.search_text, "firefox");
    assert!(parse_process_search_entry("a=b|c").is_err());
    assert!(parse_process_search_entry("a,b|c").is_err());
    assert!(parse_process_search_entry("nosplit").is_err());
    assert!(parse_process_search_entry("a|b|c").is_err());
    let specs =
        parse_process_search_entries(&vec!["A|a".to_string(), "B|b".to_string()]).unwrap();
    assert_eq!(specs.len(), 2);
    assert_eq!(specs[1].search_text, "b");
}

#[test]
fn size_guard_is_reusable_across_ticks() {
    let mut g = SizeGuard::new(100);
    assert!(g.record(60));
    assert!(!g.record(40));
}

#[test]
fn one_process_is_never_bound_to_two_specs() {
    let s = settings_with(vec![spec("A", "sh"), spec("B", "sh")]);
    let mut cache = ProcessCache::new_with_size(2, &vec![], OWN_PID);
    let procs = vec![proc(10, "bash", 0, 0)];
    check_which_process_to_track(&mut cache, &s, &procs, &vec![10]);
    assert_eq!(cache.process_used[0].as_ref().unwrap().pid, 10);
    assert!(cache.process_used[1].is_none());
}

#[test]
fn the_fast_path_refreshes_bound_usage_from_the_snapshot() {
    let s = settings_with(vec![spec("Shell", "bash")]);
    let mut cache = ProcessCache::new_with_size(1, &vec![], OWN_PID);
    check_for_new_and_old_process_data(
        &mut cache,
        &s,
        &vec![10],
        &vec![proc(10, "bash --login", 500, 600)],
        OWN_PID,
    );
    assert_eq!(cache.process_used[0].as_ref().unwrap().cpu_usage, 500);

    // every slot bound and alive: only the usage numbers move
    check_for_new_and_old_process_data(
        &mut cache,
        &s,
        &vec![10],
        &vec![proc(10, "bash --login", 700, 800)],
        OWN_PID,
    );
    let p = cache.process_used[0].as_ref().unwrap();
    assert_eq!(p.cpu_usage, 700);
    assert_eq!(p.memory_usage, 800);
    assert_eq!(p.cmd_string, "bash --login");
}
