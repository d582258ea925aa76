use sys_collector::collector::{
    build_header_lines, collect_and_save_data, CollectError, SizeGuard, SystemSnapshot,
    average_core_usage, rounded_div,
};
use sys_collector::enums::{AppMode, LogLev, SimpleDataCollectionMode};
use sys_collector::model::{CustomProcessData, FindingStruct, ProcessCache, Settings};

const MIB: u64 = 1048576;

fn settings(modes: Vec<SimpleDataCollectionMode>, specs: Vec<FindingStruct>) -> Settings {
    let track = !specs.is_empty();
    Settings {
        check_interval: 100,
        data_path: "system_data.csv".to_string(),
        plot_path: "system_data_plot.html".to_string(),
        app_mode: AppMode::COLLECT,
        collection_mode: modes,
        plot_width: 1700,
        plot_height: 800,
        white_plot_mode: false,
        log_level: LogLev::Info,
        open_plot_file: false,
        disable_instant_flushing: false,
        use_web_gl: true,
        backup_number: 5,
        maximum_data_file_size_bytes: 100 * 1024 * 1024,
        process_cmd_to_search: specs,
        need_to_refresh_processes: track,
        start_time: 169999999900,
        app_version: "0.1".to_string(),
    }
}

fn snapshot(per_core: Vec<u64>) -> SystemSnapshot {
    SystemSnapshot {
        used_memory: 4096 * MIB,
        free_memory: 1024 * MIB,
        available_memory: 2048 * MIB,
        used_swap: 512 * MIB,
        free_swap: 256 * MIB,
        per_core_cpu: per_core,
    }
}

#[test]
fn size_guard_blocks_at_the_cap() {
    let mut g = SizeGuard::new(10);
    assert!(g.record(5));
    assert_eq!(g.collected_bytes, 5);
    assert!(!g.record(5));
    assert_eq!(g.collected_bytes, 10);
    // once the cap is reached, every further attempt fails
    assert!(!g.record(0));
    assert!(!g.record(1));
}

#[test]
fn rounding_helpers() {
    assert_eq!(rounded_div(10, 4), 3); // 2.5 rounds half up
    assert_eq!(rounded_div(9, 4), 2);
    assert_eq!(rounded_div(7, 1), 7);
    assert_eq!(average_core_usage(&vec![1000, 2000]), 1500);
    assert_eq!(average_core_usage(&vec![1000, 2000, 2001]), 1667);
}

#[test]
fn a_row_renders_in_declared_order() {
    let s = settings(
        vec![
            SimpleDataCollectionMode::CPU_USAGE_TOTAL,
            SimpleDataCollectionMode::MEMORY_USED,
        ],
        vec![],
    );
    let cache = ProcessCache::new_with_size(0, &vec![], 1);
    let mut guard = SizeGuard::new(1000);
    let row = collect_and_save_data(&mut guard, 169999999900, &snapshot(vec![1000, 2000]), &s, &cache)
        .unwrap();
    assert_eq!(row, "1699999999.00,15.00,4096.00");
    assert_eq!(guard.collected_bytes, row.len());
}

#[test]
fn per_core_field_uses_semicolons() {
    let s = settings(vec![SimpleDataCollectionMode::CPU_USAGE_PER_CORE], vec![]);
    let cache = ProcessCache::new_with_size(0, &vec![], 1);
    let mut guard = SizeGuard::new(1000);
    let row =
        collect_and_save_data(&mut guard, 100, &snapshot(vec![1000, 2000]), &s, &cache).unwrap();
    assert_eq!(row, "1.00,10.00;20.00");
}

#[test]
fn unbound_slots_render_minus_one() {
    let s = settings(
        vec![SimpleDataCollectionMode::MEMORY_USED],
        vec![FindingStruct {
            graph_name: "Firefox".to_string(),
            search_text: "firefox".to_string(),
        }],
    );
    let mut cache = ProcessCache::new_with_size(1, &vec![], 1);
    let mut guard = SizeGuard::new(1000);
    let row = collect_and_save_data(&mut guard, 100, &snapshot(vec![1000]), &s, &cache).unwrap();
    assert_eq!(row, "1.00,4096.00,-1,-1");

    cache.process_used[0] = Some(CustomProcessData {
        pid: 42,
        name: "firefox".to_string(),
        cmd_string: "firefox --headless".to_string(),
        memory_usage: 512 * MIB,
        cpu_usage: 3000,
    });
    let mut guard = SizeGuard::new(1000);
    let row = collect_and_save_data(&mut guard, 100, &snapshot(vec![1000, 1000]), &s, &cache)
        .unwrap();
    // process CPU is divided over the two cores; memory in megabytes
    assert_eq!(row, "1.00,4096.00,15.00,512.00");
}

#[test]
fn the_cap_withholds_the_row() {
    let mut s = settings(vec![SimpleDataCollectionMode::MEMORY_USED], vec![]);
    s.maximum_data_file_size_bytes = 12;
    let cache = ProcessCache::new_with_size(0, &vec![], 1);
    let mut guard = SizeGuard::new(s.maximum_data_file_size_bytes);
    // "1.00,4096.00" is 12 bytes: meets the cap, so the write fails
    let r = collect_and_save_data(&mut guard, 100, &snapshot(vec![1000]), &s, &cache);
    assert_eq!(r, Err(CollectError::SizeExceeded));
    // and every later attempt fails too
    let r = collect_and_save_data(&mut guard, 100, &snapshot(vec![1000]), &s, &cache);
    assert_eq!(r, Err(CollectError::SizeExceeded));
}

#[test]
fn header_lines_declare_the_run() {
    let s = settings(
        vec![
            SimpleDataCollectionMode::CPU_USAGE_TOTAL,
            SimpleDataCollectionMode::MEMORY_USED,
        ],
        vec![],
    );
    let (line1, line2) = build_header_lines(&s, 4, 16000 * MIB, 2000 * MIB);
    assert_eq!(
        line1,
        "INTERVAL_SECONDS=1,CPU_CORE_COUNT=4,MEMORY_TOTAL=16000.00,SWAP_TOTAL=2000.00,APP_VERSION=0.1"
    );
    assert_eq!(line2, "UNIX_TIMESTAMP,CPU_USAGE_TOTAL,MEMORY_USED");
}

#[test]
fn header_lines_declare_tracked_processes() {
    let s = settings(
        vec![SimpleDataCollectionMode::MEMORY_USED],
        vec![
            FindingStruct {
                graph_name: "Firefox".to_string(),
                search_text: "firefox".to_string(),
            },
            FindingStruct {
                graph_name: "Shell".to_string(),
                search_text: "bash".to_string(),
            },
        ],
    );
    let (line1, line2) = build_header_lines(&s, 2, 16000 * MIB, 0);
    assert_eq!(
        line1,
        "INTERVAL_SECONDS=1,CPU_CORE_COUNT=2,MEMORY_TOTAL=16000.00,SWAP_TOTAL=0.00,APP_VERSION=0.1,CUSTOM_0=Firefox,CUSTOM_1=Shell"
    );
    assert_eq!(
        line2,
        "UNIX_TIMESTAMP,MEMORY_USED,CUSTOM_0_CPU,CUSTOM_0_MEMORY,CUSTOM_1_CPU,CUSTOM_1_MEMORY"
    );
}
