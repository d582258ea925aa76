use std::collections::HashMap;

use sys_collector::rotation::{backup_rotation_ops, FileOp};

fn apply_ops(files: &mut HashMap<String, u32>, ops: &[FileOp]) {
    for op in ops {
        match op {
            FileOp::RemoveFile { path } => {
                files.remove(path);
            }
            FileOp::RenameFile { from, to } => {
                if let Some(v) = files.remove(from) {
                    files.insert(to.clone(), v);
                }
            }
        }
    }
}

fn existence(files: &HashMap<String, u32>, n: u32) -> Vec<bool> {
    (1..=n)
        .map(|i| files.contains_key(&format!("data__{i}.csv")))
        .collect()
}

#[test]
fn plan_for_partial_ring() {
    let ops = backup_rotation_ops("data.csv", 3, &vec![true, false, true], true);
    assert_eq!(ops.len(), 3);
    match &ops[0] {
        FileOp::RemoveFile { path } => assert_eq!(path, "data__3.csv"),
        _ => panic!("expected a removal first"),
    }
    match &ops[1] {
        FileOp::RenameFile { from, to } => {
            assert_eq!(from, "data__1.csv");
            assert_eq!(to, "data__2.csv");
        }
        _ => panic!("expected the shift of generation 1"),
    }
    match &ops[2] {
        FileOp::RenameFile { from, to } => {
            assert_eq!(from, "data.csv");
            assert_eq!(to, "data__1.csv");
        }
        _ => panic!("expected the live file to become generation 1"),
    }
}

#[test]
fn zero_backups_disable_rotation() {
    let ops = backup_rotation_ops("data.csv", 0, &vec![], true);
    assert!(ops.is_empty());
}

#[test]
fn missing_generations_are_skipped() {
    let ops = backup_rotation_ops("data.csv", 2, &vec![false, false], false);
    assert!(ops.is_empty());
}

#[test]
fn n_plus_one_rotations_drop_the_oldest_generation() {
    let n: u32 = 3;
    let mut files: HashMap<String, u32> = HashMap::new();
    files.insert("data.csv".to_string(), 0);
    for run in 1..=(n + 1) {
        let gens = existence(&files, n);
        let live = files.contains_key("data.csv");
        let ops = backup_rotation_ops("data.csv", n, &gens, live);
        apply_ops(&mut files, &ops);
        assert!(!files.contains_key("data.csv"));
        files.insert("data.csv".to_string(), run);
        let backups = (1..=n)
            .filter(|i| files.contains_key(&format!("data__{i}.csv")))
            .count() as u32;
        assert_eq!(backups, run.min(n));
    }
    // after n + 1 rotations the file written by run 0 is gone
    assert!(files.values().all(|&v| v != 0));
    // and the surviving generations are the most recent runs in order
    assert_eq!(files.get("data__1.csv"), Some(&3));
    assert_eq!(files.get("data__2.csv"), Some(&2));
    assert_eq!(files.get("data__3.csv"), Some(&1));
}

#[test]
fn a_single_slot_ring_replaces_its_backup() {
    let ops = backup_rotation_ops("data.csv", 1, &vec![true], true);
    assert_eq!(ops.len(), 2);
    match &ops[0] {
        FileOp::RemoveFile { path } => assert_eq!(path, "data__1.csv"),
        _ => panic!("expected the single backup to be removed"),
    }
    match &ops[1] {
        FileOp::RenameFile { from, to } => {
            assert_eq!(from, "data.csv");
            assert_eq!(to, "data__1.csv");
        }
        _ => panic!("expected the live file to become the backup"),
    }
}
