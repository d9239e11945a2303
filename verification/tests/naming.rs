use std::collections::HashSet;
use taskbench::error::UnitError;
use taskbench::naming::{content_seed, file_name, file_names, task_id, text_file_content, FileKind};

#[test]
fn task_ids_carry_the_index() {
    assert_eq!(task_id(0), "task0");
    assert_eq!(task_id(12), "task12");
}

#[test]
fn file_names_carry_task_and_index() {
    assert_eq!(file_name("task3", 7, FileKind::Text), "temp_task3_7.txt");
    assert_eq!(file_name("task3", 7, FileKind::Record), "temp_task3_7.dat");
    assert_eq!(file_name(&task_id(10), 49, FileKind::Text), "temp_task10_49.txt");
}

#[test]
fn file_names_lists_the_files_of_a_unit_in_order() {
    let names = file_names("task1", 3, FileKind::Record);
    assert_eq!(names, vec!["temp_task1_0.dat", "temp_task1_1.dat", "temp_task1_2.dat"]);
    assert!(file_names("task1", 0, FileKind::Text).is_empty());
}

#[test]
fn no_two_files_of_a_run_share_a_name() {
    let mut seen = HashSet::new();
    for unit in 0..30 {
        for name in file_names(&task_id(unit), 50, FileKind::Text) {
            assert!(seen.insert(name));
        }
    }
    assert_eq!(seen.len(), 1500);
    assert_ne!(file_name(&task_id(1), 11, FileKind::Text), file_name(&task_id(11), 1, FileKind::Text));
}

#[test]
fn seeds_and_text_content() {
    assert_eq!(content_seed("task2", 5), "task2_5");
    assert_eq!(
        text_file_content(4, "0.25"),
        format!("Test file {} content with some data: {}", 4, 0.25f64)
    );
}

#[test]
fn every_failure_has_its_reason() {
    let detail = "No such file or directory (os error 2)".to_string();
    assert_eq!(UnitError::FileSystem { detail: detail.clone() }.message(), detail);
    assert_eq!(UnitError::Malformed { detail: "expected value".to_string() }.message(), "expected value");
    assert_eq!(UnitError::Aborted { detail: "task panicked".to_string() }.message(), "task panicked");
    assert_eq!(UnitError::HashMismatch.message(), "Hash mismatch");
    assert_eq!(UnitError::Encoding.message(), "Invalid hexadecimal payload");
    assert_eq!(UnitError::Compression.message(), "Corrupt compressed payload");
}
