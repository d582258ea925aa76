use sys_collector::csv_file_loader::load_csv_results;
use sys_collector::collector::{build_header_lines, collect_and_save_data, SizeGuard, SystemSnapshot};
use sys_collector::enums::{
    parse_fixed_data_type, DataType, HeaderValues, SimpleDataCollectionMode,
};
use sys_collector::model::{FindingStruct, ProcessCache};

#[test]
fn mode_tokens_render_and_parse() {
    assert_eq!(SimpleDataCollectionMode::CPU_USAGE_TOTAL.as_str(), "CPU_USAGE_TOTAL");
    assert_eq!(SimpleDataCollectionMode::MEMORY_AVAILABLE.as_str(), "MEMORY_AVAILABLE");
    assert_eq!(
        parse_fixed_data_type("CPU_USAGE_TOTAL"),
        Some(DataType::CPU_USAGE_TOTAL)
    );
    assert_eq!(parse_fixed_data_type("UNIX_TIMESTAMP"), Some(DataType::UNIX_TIMESTAMP));
    assert_eq!(parse_fixed_data_type("SWAP_USED"), Some(DataType::SWAP_USED));
    assert_eq!(parse_fixed_data_type("CUSTOM_0_CPU"), None);
    assert_eq!(parse_fixed_data_type("NOT_A_COLUMN"), None);
}

#[test]
fn header_keys_render() {
    assert_eq!(HeaderValues::MEMORY_TOTAL.as_str(), "MEMORY_TOTAL");
    assert_eq!(HeaderValues::INTERVAL_SECONDS.as_str(), "INTERVAL_SECONDS");
    assert_eq!(HeaderValues::APP_VERSION.as_str(), "APP_VERSION");
}

#[test]
fn group_membership() {
    assert!(DataType::MEMORY_USED.is_memory());
    assert!(DataType::CUSTOM_MEMORY(0, "x".to_string()).is_memory());
    assert!(!DataType::SWAP_FREE.is_memory());
    assert!(DataType::SWAP_FREE.is_swap());
    assert!(!DataType::CPU_USAGE_TOTAL.is_swap());
    assert!(DataType::CPU_USAGE_PER_CORE.is_cpu());
    assert!(DataType::CUSTOM_CPU(1, "x".to_string()).is_cpu());
    assert!(!DataType::MEMORY_FREE.is_cpu());
}

#[test]
fn pretty_print_labels() {
    assert_eq!(DataType::UNIX_TIMESTAMP.pretty_print(), "Unix timestamp");
    assert_eq!(DataType::MEMORY_USED.pretty_print(), "Memory used");
    assert_eq!(
        DataType::CUSTOM_CPU(0, "Firefox".to_string()).pretty_print(),
        "CPU usage for Firefox"
    );
    assert_eq!(
        DataType::CUSTOM_MEMORY(0, "Firefox".to_string()).pretty_print(),
        "Memory usage for Firefox"
    );
}

#[test]
fn allowed_values_list_the_tokens() {
    let s = DataType::get_allowed_values();
    assert!(s.starts_with("UNIX_TIMESTAMP, "));
    assert!(s.ends_with("CUSTOM_CPU, CUSTOM_MEMORY"));
}

#[test]
fn a_written_record_loads_back_unchanged() {
    let mib: u64 = 1048576;
    let specs = vec![FindingStruct {
        graph_name: "Firefox".to_string(),
        search_text: "firefox".to_string(),
    }];
    let settings = sys_collector::model::Settings {
        check_interval: 150,
        data_path: "data.csv".to_string(),
        plot_path: "plot.html".to_string(),
        app_mode: sys_collector::enums::AppMode::COLLECT,
        collection_mode: vec![
            SimpleDataCollectionMode::CPU_USAGE_TOTAL,
            SimpleDataCollectionMode::CPU_USAGE_PER_CORE,
            SimpleDataCollectionMode::MEMORY_USED,
        ],
        plot_width: 1700,
        plot_height: 800,
        white_plot_mode: false,
        log_level: sys_collector::enums::LogLev::Info,
        open_plot_file: false,
        disable_instant_flushing: false,
        use_web_gl: true,
        backup_number: 5,
        maximum_data_file_size_bytes: 1 << 20,
        process_cmd_to_search: specs,
        need_to_refresh_processes: true,
        start_time: 0,
        app_version: "0.1".to_string(),
    };
    let (line1, line2) = build_header_lines(&settings, 2, 8192 * mib, 1024 * mib);
    let snap = SystemSnapshot {
        used_memory: 4096 * mib,
        free_memory: 0,
        available_memory: 0,
        used_swap: 0,
        free_swap: 0,
        per_core_cpu: vec![1000, 3000],
    };
    let cache = ProcessCache::new_with_size(1, &vec![], 1);
    let mut guard = SizeGuard::new(1 << 20);
    let row1 = collect_and_save_data(&mut guard, 100, &snap, &settings, &cache).unwrap();
    let row2 = collect_and_save_data(&mut guard, 250, &snap, &settings, &cache).unwrap();

    let m = load_csv_results(&vec![line1, line2, row1, row2]).unwrap();
    assert_eq!(
        m.collected_data_names,
        vec![
            DataType::UNIX_TIMESTAMP,
            DataType::CPU_USAGE_TOTAL,
            DataType::CPU_USAGE_PER_CORE,
            DataType::MEMORY_USED,
            DataType::CUSTOM_CPU(0, "Firefox".to_string()),
            DataType::CUSTOM_MEMORY(0, "Firefox".to_string()),
        ]
    );
    assert_eq!(m.check_interval, 150);
    assert_eq!(m.cpu_core_count, 2);
    assert_eq!(m.memory_total, 819200);
    assert_eq!(m.swap_total, 102400);
    assert_eq!(m.collected_data[0], vec!["1.00", "2.50"]);
    assert_eq!(m.collected_data[1], vec!["20.00", "20.00"]);
    // the per-core column comes back transposed: one entry per core
    assert_eq!(m.collected_data[2], vec!["10.00;10.00", "30.00;30.00"]);
    assert_eq!(m.collected_data[3], vec!["4096.00", "4096.00"]);
    assert_eq!(m.collected_data[4], vec!["-1", "-1"]);
    assert_eq!(m.collected_data[5], vec!["-1", "-1"]);
}
