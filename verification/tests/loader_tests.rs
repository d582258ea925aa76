use sys_collector::csv_file_loader::{load_csv_results, parse_file_values_data, LoadError};
use sys_collector::enums::{DataType, GeneralInfoGroup};

fn lines(v: &[&str]) -> Vec<String> {
    v.iter().map(|s| s.to_string()).collect()
}

#[test]
fn a_small_record_decodes_into_columns() {
    let m = load_csv_results(&lines(&[
        "INTERVAL_SECONDS=1,CPU_CORE_COUNT=4,MEMORY_TOTAL=16000,SWAP_TOTAL=2000,APP_VERSION=0.1",
        "UNIX_TIMESTAMP,CPU_USAGE_TOTAL,MEMORY_USED",
        "1699999999.00,12.50,4096.00",
    ]))
    .unwrap();
    assert_eq!(m.check_interval, 100);
    assert_eq!(m.cpu_core_count, 4);
    assert_eq!(m.memory_total, 1600000);
    assert_eq!(m.swap_total, 200000);
    assert_eq!(
        m.collected_data_names,
        vec![
            DataType::UNIX_TIMESTAMP,
            DataType::CPU_USAGE_TOTAL,
            DataType::MEMORY_USED
        ]
    );
    assert_eq!(
        m.collected_groups,
        vec![GeneralInfoGroup::CPU, GeneralInfoGroup::MEMORY]
    );
    assert_eq!(m.collected_data[0], vec!["1699999999.00"]);
    assert_eq!(m.collected_data[1], vec!["12.50"]);
    assert_eq!(m.collected_data[2], vec!["4096.00"]);
}

#[test]
fn a_short_row_is_skipped_and_the_rest_kept_in_order() {
    let m = load_csv_results(&lines(&[
        "INTERVAL_SECONDS=1,CPU_CORE_COUNT=1,MEMORY_TOTAL=16000,SWAP_TOTAL=0,APP_VERSION=0.1",
        "UNIX_TIMESTAMP,MEMORY_USED",
        "1.00,10.00",
        "2.00,20.00",
        "3.00,30.00",
        "4.00,40.00",
        "5.00", // the fifth data row lacks a field and is skipped
        "6.00,60.00",
        "7.00,70.00",
    ]))
    .unwrap();
    assert_eq!(
        m.collected_data[0],
        vec!["1.00", "2.00", "3.00", "4.00", "6.00", "7.00"]
    );
    assert_eq!(
        m.collected_data[1],
        vec!["10.00", "20.00", "30.00", "40.00", "60.00", "70.00"]
    );
}

#[test]
fn the_per_core_column_is_redistributed_by_core() {
    let m = load_csv_results(&lines(&[
        "INTERVAL_SECONDS=1,CPU_CORE_COUNT=2,MEMORY_TOTAL=16000,SWAP_TOTAL=0,APP_VERSION=0.1",
        "UNIX_TIMESTAMP,CPU_USAGE_PER_CORE",
        "1.00,1.00;2.00",
        "2.00,3.00;4.00",
    ]))
    .unwrap();
    assert_eq!(m.collected_data[1], vec!["1.00;3.00", "2.00;4.00"]);
}

#[test]
fn a_per_core_shape_mismatch_is_fatal() {
    let r = load_csv_results(&lines(&[
        "INTERVAL_SECONDS=1,CPU_CORE_COUNT=2,MEMORY_TOTAL=16000,SWAP_TOTAL=0,APP_VERSION=0.1",
        "UNIX_TIMESTAMP,CPU_USAGE_PER_CORE",
        "1.00,1.00;2.00;3.00",
    ]));
    assert_eq!(
        r,
        Err(LoadError::PerCoreShapeMismatch(
            "1.00;2.00;3.00".to_string(),
            3,
            2
        ))
    );
}

#[test]
fn tracked_process_columns_resolve_their_names() {
    let m = load_csv_results(&lines(&[
        "INTERVAL_SECONDS=1,CPU_CORE_COUNT=1,MEMORY_TOTAL=16000,SWAP_TOTAL=0,APP_VERSION=0.1,CUSTOM_0=Firefox",
        "UNIX_TIMESTAMP,MEMORY_USED,CUSTOM_0_CPU,CUSTOM_0_MEMORY",
        "1.00,10.00,5.00,100.00",
    ]))
    .unwrap();
    assert_eq!(
        m.collected_data_names[2],
        DataType::CUSTOM_CPU(0, "Firefox".to_string())
    );
    assert_eq!(
        m.collected_data_names[3],
        DataType::CUSTOM_MEMORY(0, "Firefox".to_string())
    );
    assert_eq!(m.collected_data[2], vec!["5.00"]);
}

#[test]
fn missing_required_keys_are_fatal() {
    let r = load_csv_results(&lines(&[
        "INTERVAL_SECONDS=1,CPU_CORE_COUNT=4,MEMORY_TOTAL=16000,APP_VERSION=0.1",
        "UNIX_TIMESTAMP,MEMORY_USED",
    ]));
    assert_eq!(r, Err(LoadError::MissingHeaderKey("SWAP_TOTAL".to_string())));
}

#[test]
fn unparsable_values_are_fatal() {
    let r = load_csv_results(&lines(&[
        "INTERVAL_SECONDS=1,CPU_CORE_COUNT=four,MEMORY_TOTAL=16000,SWAP_TOTAL=0,APP_VERSION=0.1",
        "UNIX_TIMESTAMP,MEMORY_USED",
    ]));
    assert_eq!(
        r,
        Err(LoadError::UnparsableHeaderValue(
            "CPU_CORE_COUNT".to_string(),
            "four".to_string()
        ))
    );
}

#[test]
fn a_pair_without_a_value_is_fatal() {
    let r = load_csv_results(&lines(&[
        "INTERVAL_SECONDS=1,JUNK,MEMORY_TOTAL=16000,SWAP_TOTAL=0,APP_VERSION=0.1",
        "UNIX_TIMESTAMP,MEMORY_USED",
    ]));
    assert_eq!(r, Err(LoadError::MissingPairValue("JUNK".to_string())));
}

#[test]
fn an_unknown_column_token_is_fatal() {
    let r = load_csv_results(&lines(&[
        "INTERVAL_SECONDS=1,CPU_CORE_COUNT=1,MEMORY_TOTAL=16000,SWAP_TOTAL=0,APP_VERSION=0.1",
        "UNIX_TIMESTAMP,GPU_USAGE",
    ]));
    assert_eq!(r, Err(LoadError::BadColumnToken("GPU_USAGE".to_string())));
}

#[test]
fn a_custom_column_without_a_name_is_fatal() {
    let r = load_csv_results(&lines(&[
        "INTERVAL_SECONDS=1,CPU_CORE_COUNT=1,MEMORY_TOTAL=16000,SWAP_TOTAL=0,APP_VERSION=0.1",
        "UNIX_TIMESTAMP,CUSTOM_2_CPU",
    ]));
    assert_eq!(r, Err(LoadError::MissingCustomName("CUSTOM_2".to_string())));
}

#[test]
fn a_single_column_is_no_data() {
    let r = load_csv_results(&lines(&[
        "INTERVAL_SECONDS=1,CPU_CORE_COUNT=1,MEMORY_TOTAL=16000,SWAP_TOTAL=0,APP_VERSION=0.1",
        "UNIX_TIMESTAMP",
    ]));
    assert_eq!(r, Err(LoadError::NoData));
}

#[test]
fn the_first_column_must_be_the_timestamp() {
    let r = load_csv_results(&lines(&[
        "INTERVAL_SECONDS=1,CPU_CORE_COUNT=1,MEMORY_TOTAL=16000,SWAP_TOTAL=0,APP_VERSION=0.1",
        "MEMORY_USED,UNIX_TIMESTAMP",
    ]));
    assert_eq!(r, Err(LoadError::FirstColumnNotTimestamp));
}

#[test]
fn missing_header_lines_are_fatal() {
    assert_eq!(
        load_csv_results(&lines(&[])),
        Err(LoadError::MissingHeaderLine(1))
    );
    assert_eq!(
        load_csv_results(&lines(&[
            "INTERVAL_SECONDS=1,CPU_CORE_COUNT=1,MEMORY_TOTAL=16000,SWAP_TOTAL=0,APP_VERSION=0.1"
        ])),
        Err(LoadError::MissingHeaderLine(2))
    );
}

#[test]
fn a_repeated_key_keeps_its_last_value() {
    let m = load_csv_results(&lines(&[
        "INTERVAL_SECONDS=1,CPU_CORE_COUNT=1,CPU_CORE_COUNT=2,MEMORY_TOTAL=16000,SWAP_TOTAL=0,APP_VERSION=0.1",
        "UNIX_TIMESTAMP,MEMORY_USED",
    ]))
    .unwrap();
    assert_eq!(m.cpu_core_count, 2);
}

#[test]
fn a_padded_custom_index_resolves_canonically() {
    // CUSTOM_007_CPU parses index 7 and resolves the name under CUSTOM_7
    let m = load_csv_results(&lines(&[
        "INTERVAL_SECONDS=1.5,CPU_CORE_COUNT=1,MEMORY_TOTAL=16000,SWAP_TOTAL=0,APP_VERSION=0.1,CUSTOM_7=Editor",
        "UNIX_TIMESTAMP,MEMORY_USED,CUSTOM_007_CPU",
        "1.00,10.00,5.00",
    ]))
    .unwrap();
    assert_eq!(m.check_interval, 150);
    assert_eq!(
        m.collected_data_names[2],
        DataType::CUSTOM_CPU(7, "Editor".to_string())
    );
}

#[test]
fn a_value_stops_at_the_second_equals_sign() {
    let m = load_csv_results(&lines(&[
        "INTERVAL_SECONDS=1,CPU_CORE_COUNT=1,MEMORY_TOTAL=16000,SWAP_TOTAL=1=2,APP_VERSION=0.1",
        "UNIX_TIMESTAMP,MEMORY_USED",
    ]))
    .unwrap();
    assert_eq!(m.swap_total, 100);
}

#[test]
fn the_required_keys_are_consumed_and_the_leftovers_kept() {
    let (swap, memory, cores, interval, leftover) = parse_file_values_data(
        "INTERVAL_SECONDS=1,CPU_CORE_COUNT=4,MEMORY_TOTAL=16000,SWAP_TOTAL=2000,APP_VERSION=0.1,CUSTOM_0=Firefox",
    )
    .unwrap();
    assert_eq!(swap, 200000);
    assert_eq!(memory, 1600000);
    assert_eq!(cores, 4);
    assert_eq!(interval, 100);
    assert_eq!(
        leftover,
        vec![
            ("APP_VERSION".to_string(), "0.1".to_string()),
            ("CUSTOM_0".to_string(), "Firefox".to_string()),
        ]
    );
}
