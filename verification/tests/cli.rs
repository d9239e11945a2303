use taskbench::cli::{parse_args, Config, Mode, DEFAULT_TASK_COUNT};

fn args(tokens: &[&str]) -> Vec<String> {
    tokens.iter().map(|t| t.to_string()).collect()
}

#[test]
fn no_arguments_give_the_defaults() {
    let config = parse_args(&args(&["bench"]));
    assert_eq!(config, Config { task_count: 10, is_io_mode: false, is_heavy_mode: false });
    assert_eq!(config.mode(), Mode::Cpu);
    assert_eq!(DEFAULT_TASK_COUNT, 10);
}

#[test]
fn an_empty_argument_list_gives_the_defaults() {
    let config = parse_args(&Vec::new());
    assert_eq!(config, Config { task_count: 10, is_io_mode: false, is_heavy_mode: false });
}

#[test]
fn io_selects_the_io_benchmark() {
    let config = parse_args(&args(&["bench", "io"]));
    assert!(config.is_io_mode);
    assert!(!config.is_heavy_mode);
    assert_eq!(config.mode(), Mode::Io);
    assert_eq!(config.task_count, 10);
}

#[test]
fn io_with_heavy_selects_the_heavy_variant() {
    let config = parse_args(&args(&["bench", "io", "heavy", "2"]));
    assert_eq!(config.mode(), Mode::IoHeavy);
    assert_eq!(config.task_count, 2);
    let config = parse_args(&args(&["bench", "heavy", "7", "io"]));
    assert_eq!(config.mode(), Mode::IoHeavy);
    assert_eq!(config.task_count, 7);
}

#[test]
fn heavy_alone_does_not_select_an_io_benchmark() {
    let config = parse_args(&args(&["bench", "heavy"]));
    assert!(config.is_heavy_mode);
    assert!(!config.is_io_mode);
    assert_eq!(config.mode(), Mode::Cpu);
}

#[test]
fn a_count_sets_the_task_count() {
    assert_eq!(parse_args(&args(&["bench", "3"])).task_count, 3);
    assert_eq!(parse_args(&args(&["bench", "0"])).task_count, 0);
    assert_eq!(parse_args(&args(&["bench", "+4"])).task_count, 4);
}

#[test]
fn the_last_count_wins() {
    assert_eq!(parse_args(&args(&["bench", "3", "io", "5"])).task_count, 5);
    assert_eq!(parse_args(&args(&["bench", "3", "x", "-5"])).task_count, 3);
}

#[test]
fn other_tokens_are_passed_over() {
    let config = parse_args(&args(&["bench", "--fast", "IO", "Heavy", "12x", "-3", ""]));
    assert_eq!(config, Config { task_count: 10, is_io_mode: false, is_heavy_mode: false });
}

#[test]
fn the_name_of_the_program_is_no_token() {
    assert_eq!(parse_args(&args(&["io"])).mode(), Mode::Cpu);
    assert_eq!(parse_args(&args(&["25"])).task_count, 10);
    assert_eq!(parse_args(&args(&["heavy", "io"])).mode(), Mode::Io);
}
