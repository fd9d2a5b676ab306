//! Configuration resolution.
//!
//! The collaborators parse the command line and the optional configuration
//! file; this module merges them with the built-in fallbacks, field by
//! field, with command-line values taking precedence over file values and
//! file values over fallbacks.  Boolean switches combine by or.  The output
//! directory is normalised to end with a slash, and the compression level
//! is clamped to the supported range (0 selects the library default).

use vstd::prelude::*;
use crate::codec;

verus! {

/// The fully resolved settings a processing run works from.
pub struct Config {
    pub input: Vec<u8>,
    pub output: Vec<u8>,
    pub zstd: bool,
    pub compression_level: i32,
    pub suffix: Vec<u8>,
    pub file_extension: Vec<u8>,
    pub pattern: String,
    pub threads: usize,
    pub buffer: usize,
    pub no_write: bool,
    pub quiet: bool,
    pub window_log_max: u32,
}

/// What the command line supplied, where it did.
pub struct CliOverrides {
    pub input: Option<Vec<u8>>,
    pub output: Option<Vec<u8>>,
    pub zstd: bool,
    pub compression_level: Option<i32>,
    pub suffix: Option<Vec<u8>>,
    pub file_extension: Option<Vec<u8>>,
    pub pattern: Option<String>,
    pub threads: Option<usize>,
    pub buffer: Option<usize>,
    pub no_write: bool,
    pub quiet: bool,
    pub window_log_max: Option<u32>,
}

/// What the configuration file supplied, if one was read.
pub struct FileConfig {
    pub input: Vec<u8>,
    pub output: Vec<u8>,
    pub zstd: bool,
    pub compression_level: i32,
    pub suffix: Vec<u8>,
    pub file_extension: Vec<u8>,
    pub pattern: String,
    pub threads: usize,
    pub buffer: usize,
    pub no_write: bool,
    pub quiet: bool,
    pub window_log_max: u32,
}

/// Directory searched for archives when nothing else is given.
pub open spec fn fallback_input() -> Seq<u8> {
    seq![46u8, 47u8]
}

/// Directory written to when nothing else is given.
pub open spec fn fallback_output() -> Seq<u8> {
    seq![46u8, 47u8]
}

/// Suffix appended to output file names when nothing else is given.
pub open spec fn fallback_suffix() -> Seq<u8> {
    seq![95u8, 102u8, 105u8, 108u8, 116u8, 101u8, 114u8, 101u8, 100u8]
}

/// A pattern that matches every line, used when nothing else is given.
pub open spec fn fallback_pattern() -> Seq<char> {
    seq!['^']
}

/// Compression level 0: the library's default level.
pub const FALLBACK_COMPRESSION_LEVEL: i32 = 0;

/// Thread count 0: no limit imposed on the pool.
pub const FALLBACK_THREADS: usize = 0;

/// Bytes buffered before a write, when nothing else is given.
pub const FALLBACK_BUFFER: usize = 4096;

/// Decoder window-log ceiling when nothing else is given.
pub const FALLBACK_WINDOW_LOG_MAX: u32 = 27;

/// First the command line, then the file, then the fallback.
pub open spec fn pick_spec<T>(primary: Option<T>, secondary: Option<T>, fallback: T) -> T {
    match primary {
        Option::Some(p) => p,
        Option::None => match secondary {
            Option::Some(s) => s,
            Option::None => fallback,
        },
    }
}

fn pick<T>(primary: Option<T>, secondary: Option<T>, fallback: T) -> (r: T)
    ensures
        r == pick_spec(primary, secondary, fallback),
{
    match primary {
        Some(p) => p,
        None => match secondary {
            Some(s) => s,
            None => fallback,
        },
    }
}

/// A switch is on when the command line or the file turned it on.
pub open spec fn pick_flag_spec(primary: bool, secondary: Option<bool>, fallback: bool) -> bool {
    primary || (match secondary {
        Option::Some(s) => s,
        Option::None => fallback,
    })
}

fn pick_flag(primary: bool, secondary: Option<bool>, fallback: bool) -> (r: bool)
    ensures
        r == pick_flag_spec(primary, secondary, fallback),
{
    primary || (match secondary {
        Some(s) => s,
        None => fallback,
    })
}

/// A directory path, guaranteed to end with a slash.
pub open spec fn with_trailing_slash(path: Seq<u8>) -> Seq<u8> {
    if path.len() > 0 && path.last() == 47u8 {
        path
    } else {
        path.push(47u8)
    }
}

fn ensure_trailing_slash(path: Vec<u8>) -> (r: Vec<u8>)
    ensures
        r@ == with_trailing_slash(path@),
{
    let mut path = path;
    let n = path.len();
    if n > 0 {
        if path[n - 1] == 47 {
            return path;
        }
    }
    path.push(47);
    path
}

fn fallback_input_bytes() -> (r: Vec<u8>)
    ensures
        r@ == fallback_input(),
{
    let mut v: Vec<u8> = Vec::new();
    v.push(46);
    v.push(47);
    proof {
        assert(v@ =~= fallback_input());
    }
    v
}

fn fallback_output_bytes() -> (r: Vec<u8>)
    ensures
        r@ == fallback_output(),
{
    let mut v: Vec<u8> = Vec::new();
    v.push(46);
    v.push(47);
    proof {
        assert(v@ =~= fallback_output());
    }
    v
}

fn fallback_suffix_bytes() -> (r: Vec<u8>)
    ensures
        r@ == fallback_suffix(),
{
    let mut v: Vec<u8> = Vec::new();
    v.push(95);
    v.push(102);
    v.push(105);
    v.push(108);
    v.push(116);
    v.push(101);
    v.push(114);
    v.push(101);
    v.push(100);
    proof {
        assert(v@ =~= fallback_suffix());
    }
    v
}

fn fallback_pattern_string() -> (r: String)
    ensures
        r@ == fallback_pattern(),
{
    let r = "^".to_owned();
    proof {
        reveal_strlit("^");
        assert(r@ =~= fallback_pattern());
    }
    r
}

/// Merge the command line, the file and the fallbacks into the settings of
/// a run.  `level_min ..= level_max` is the supported compression range;
/// a merged level outside it falls back to 0, the library default.
pub fn resolve_config(cli: CliOverrides, file: Option<FileConfig>, level_min: i32, level_max: i32)
    -> (c: Config)
    ensures
        c.input@ == (match cli.input {
            Option::Some(v) => v@,
            Option::None => match file {
                Option::Some(f) => f.input@,
                Option::None => fallback_input(),
            },
        }),
        c.output@ == with_trailing_slash(
            match cli.output {
                Option::Some(v) => v@,
                Option::None => match file {
                    Option::Some(f) => f.output@,
                    Option::None => fallback_output(),
                },
            },
        ),
        c.zstd == (cli.zstd || (match file {
            Option::Some(f) => f.zstd,
            Option::None => false,
        })),
        ({
            let merged = (match cli.compression_level {
                Option::Some(v) => v,
                Option::None => match file {
                    Option::Some(f) => f.compression_level,
                    Option::None => FALLBACK_COMPRESSION_LEVEL,
                },
            });
            c.compression_level == (if level_min <= merged <= level_max {
                merged as int
            } else {
                0int
            })
        }),
        c.suffix@ == (match cli.suffix {
            Option::Some(v) => v@,
            Option::None => match file {
                Option::Some(f) => f.suffix@,
                Option::None => fallback_suffix(),
            },
        }),
        c.file_extension@ == (match cli.file_extension {
            Option::Some(v) => v@,
            Option::None => match file {
                Option::Some(f) => f.file_extension@,
                Option::None => Seq::<u8>::empty(),
            },
        }),
        c.pattern@ == (match cli.pattern {
            Option::Some(v) => v@,
            Option::None => match file {
                Option::Some(f) => f.pattern@,
                Option::None => fallback_pattern(),
            },
        }),
        c.threads == (match cli.threads {
            Option::Some(v) => v,
            Option::None => match file {
                Option::Some(f) => f.threads,
                Option::None => FALLBACK_THREADS,
            },
        }),
        c.buffer == (match cli.buffer {
            Option::Some(v) => v,
            Option::None => match file {
                Option::Some(f) => f.buffer,
                Option::None => FALLBACK_BUFFER,
            },
        }),
        c.no_write == (cli.no_write || (match file {
            Option::Some(f) => f.no_write,
            Option::None => false,
        })),
        c.quiet == (cli.quiet || (match file {
            Option::Some(f) => f.quiet,
            Option::None => false,
        })),
        c.window_log_max == (match cli.window_log_max {
            Option::Some(v) => v,
            Option::None => match file {
                Option::Some(f) => f.window_log_max,
                Option::None => FALLBACK_WINDOW_LOG_MAX,
            },
        }),
{
    let mut f_input: Option<Vec<u8>> = None;
    let mut f_output: Option<Vec<u8>> = None;
    let mut f_zstd: Option<bool> = None;
    let mut f_level: Option<i32> = None;
    let mut f_suffix: Option<Vec<u8>> = None;
    let mut f_file_extension: Option<Vec<u8>> = None;
    let mut f_pattern: Option<String> = None;
    let mut f_threads: Option<usize> = None;
    let mut f_buffer: Option<usize> = None;
    let mut f_no_write: Option<bool> = None;
    let mut f_quiet: Option<bool> = None;
    let mut f_window_log_max: Option<u32> = None;
    match file {
        Some(f) => {
            let FileConfig {
                input,
                output,
                zstd,
                compression_level,
                suffix,
                file_extension,
                pattern,
                threads,
                buffer,
                no_write,
                quiet,
                window_log_max,
            } = f;
            f_input = Some(input);
            f_output = Some(output);
            f_zstd = Some(zstd);
            f_level = Some(compression_level);
            f_suffix = Some(suffix);
            f_file_extension = Some(file_extension);
            f_pattern = Some(pattern);
            f_threads = Some(threads);
            f_buffer = Some(buffer);
            f_no_write = Some(no_write);
            f_quiet = Some(quiet);
            f_window_log_max = Some(window_log_max);
        },
        None => {},
    }
    let input = pick(cli.input, f_input, fallback_input_bytes());
    let output = ensure_trailing_slash(pick(cli.output, f_output, fallback_output_bytes()));
    let zstd = pick_flag(cli.zstd, f_zstd, false);
    let merged_level = pick(cli.compression_level, f_level, FALLBACK_COMPRESSION_LEVEL);
    let compression_level = codec::clamp_level(merged_level, level_min, level_max);
    let suffix = pick(cli.suffix, f_suffix, fallback_suffix_bytes());
    let file_extension = pick(cli.file_extension, f_file_extension, Vec::new());
    let pattern = pick(cli.pattern, f_pattern, fallback_pattern_string());
    let threads = pick(cli.threads, f_threads, FALLBACK_THREADS);
    let buffer = pick(cli.buffer, f_buffer, FALLBACK_BUFFER);
    let no_write = pick_flag(cli.no_write, f_no_write, false);
    let quiet = pick_flag(cli.quiet, f_quiet, false);
    let window_log_max = pick(cli.window_log_max, f_window_log_max, FALLBACK_WINDOW_LOG_MAX);
    Config {
        input,
        output,
        zstd,
        compression_level,
        suffix,
        file_extension,
        pattern,
        threads,
        buffer,
        no_write,
        quiet,
        window_log_max,
    }
}

/// One worker is reserved for the progress loop beside the processing
/// threads; an unlimited pool stays unlimited.
pub fn pool_threads(threads: usize) -> (r: usize)
    requires
        threads < usize::MAX,
    ensures
        r == (if threads == 0 {
            0int
        } else {
            threads + 1
        }),
{
    if threads == 0 {
        0
    } else {
        threads + 1
    }
}

} // verus!
