use zfilter::codec::clamp_level;
use zfilter::config::{pool_threads, resolve_config, CliOverrides, Config, FileConfig};
use zfilter::filter::LineFilter;
use zfilter::naming::generate_output_filename;

fn base_config() -> Config {
    let cli = CliOverrides {
        input: None,
        output: None,
        zstd: false,
        compression_level: None,
        suffix: None,
        file_extension: None,
        pattern: None,
        threads: None,
        buffer: None,
        no_write: false,
        quiet: false,
        window_log_max: None,
    };
    resolve_config(cli, None, -7, 22)
}

fn name_for(path: &str, config: &Config) -> String {
    String::from_utf8(generate_output_filename(&path.as_bytes().to_vec(), config)).unwrap()
}

#[test]
fn output_name_strips_the_container_extension() {
    let mut config = base_config();
    config.output = b"/out/".to_vec();
    assert_eq!(
        name_for("/in/13030000000-13040000000.jsonl.zst", &config),
        "/out/13030000000-13040000000_filtered.jsonl"
    );
}

#[test]
fn output_name_appends_container_extension_when_reencoding() {
    let mut config = base_config();
    config.output = b"/out/".to_vec();
    config.zstd = true;
    assert_eq!(name_for("/in/data.jsonl.zst", &config), "/out/data_filtered.jsonl.zst");
}

#[test]
fn configured_file_extension_replaces_the_original() {
    let mut config = base_config();
    config.output = b"/out/".to_vec();
    config.file_extension = b"txt".to_vec();
    assert_eq!(name_for("/in/data.jsonl.zst", &config), "/out/data_filtered.txt");
}

#[test]
fn name_without_inner_extension_keeps_a_bare_dot() {
    let mut config = base_config();
    config.output = b"./".to_vec();
    assert_eq!(name_for("data.zst", &config), "./data_filtered.");
}

#[test]
fn fallbacks_apply_when_nothing_is_given() {
    let config = base_config();
    assert_eq!(config.input, b"./".to_vec());
    assert_eq!(config.output, b"./".to_vec());
    assert!(!config.zstd);
    assert_eq!(config.compression_level, 0);
    assert_eq!(config.suffix, b"_filtered".to_vec());
    assert_eq!(config.file_extension, b"".to_vec());
    assert_eq!(config.pattern, "^");
    assert_eq!(config.threads, 0);
    assert_eq!(config.buffer, 4096);
    assert!(!config.no_write);
    assert!(!config.quiet);
    assert_eq!(config.window_log_max, 27);
}

#[test]
fn command_line_beats_file_beats_fallback() {
    let cli = CliOverrides {
        input: Some(b"/cli/in".to_vec()),
        output: None,
        zstd: false,
        compression_level: Some(5),
        suffix: None,
        file_extension: None,
        pattern: Some("cli".to_string()),
        threads: None,
        buffer: None,
        no_write: false,
        quiet: true,
        window_log_max: None,
    };
    let file = FileConfig {
        input: b"/file/in".to_vec(),
        output: b"/file/out".to_vec(),
        zstd: true,
        compression_level: 9,
        suffix: b"_f".to_vec(),
        file_extension: b"log".to_vec(),
        pattern: "file".to_string(),
        threads: 3,
        buffer: 128,
        no_write: false,
        quiet: false,
        window_log_max: 30,
    };
    let c = resolve_config(cli, Some(file), -7, 22);
    assert_eq!(c.input, b"/cli/in".to_vec());
    assert_eq!(c.output, b"/file/out/".to_vec());
    assert!(c.zstd);
    assert_eq!(c.compression_level, 5);
    assert_eq!(c.suffix, b"_f".to_vec());
    assert_eq!(c.file_extension, b"log".to_vec());
    assert_eq!(c.pattern, "cli");
    assert_eq!(c.threads, 3);
    assert_eq!(c.buffer, 128);
    assert!(!c.no_write);
    assert!(c.quiet);
    assert_eq!(c.window_log_max, 30);
}

#[test]
fn output_directory_gains_a_trailing_slash_once() {
    let mut cli = CliOverrides {
        input: None,
        output: Some(b"/out".to_vec()),
        zstd: false,
        compression_level: None,
        suffix: None,
        file_extension: None,
        pattern: None,
        threads: None,
        buffer: None,
        no_write: false,
        quiet: false,
        window_log_max: None,
    };
    let c = resolve_config(cli, None, -7, 22);
    assert_eq!(c.output, b"/out/".to_vec());

    cli = CliOverrides {
        input: None,
        output: Some(b"/out/".to_vec()),
        zstd: false,
        compression_level: None,
        suffix: None,
        file_extension: None,
        pattern: None,
        threads: None,
        buffer: None,
        no_write: false,
        quiet: false,
        window_log_max: None,
    };
    let c = resolve_config(cli, None, -7, 22);
    assert_eq!(c.output, b"/out/".to_vec());
}

#[test]
fn out_of_range_level_falls_back_to_the_default() {
    assert_eq!(clamp_level(5, 1, 22), 5);
    assert_eq!(clamp_level(50, 1, 22), 0);
    assert_eq!(clamp_level(-3, 1, 22), 0);
    let range = zstd::compression_level_range();
    assert!(range.contains(&0));
    assert!(range.contains(&3));
}

#[test]
fn pool_reserves_one_thread_for_the_progress_loop() {
    assert_eq!(pool_threads(0), 0);
    assert_eq!(pool_threads(4), 5);
}

#[test]
fn invalid_pattern_is_rejected_at_startup() {
    assert!(LineFilter::new("(").is_err());
    assert!(LineFilter::new("^foo(bar)?x").is_ok());
}
