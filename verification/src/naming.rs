//! Deterministic output naming.
//!
//! An input file name is taken apart twice: first the container extension
//! is stripped, then the payload's own stem and extension are separated.
//! The destination is the output directory, the payload stem, the
//! configured suffix, then the payload extension (or the configured
//! replacement), and a container extension again when re-encoding.
//! A name whose only dot is its first byte is a bare hidden file: it keeps
//! its name whole and has no extension.

use vstd::prelude::*;
use crate::config::Config;

verus! {

/// The position of the last `b` in `s`, or -1 when there is none.
pub open spec fn last_index_of(s: Seq<u8>, b: u8) -> int
    decreases s.len(),
{
    if s.len() == 0 {
        -1
    } else if s.last() == b {
        s.len() - 1
    } else {
        last_index_of(s.drop_last(), b)
    }
}

proof fn lemma_last_index_of_bounds(s: Seq<u8>, b: u8)
    ensures
        -1 <= last_index_of(s, b) < s.len(),
    decreases s.len(),
{
    if s.len() > 0 {
        lemma_last_index_of_bounds(s.drop_last(), b);
    }
}

/// The part of a path after its last slash.
pub open spec fn file_name_of(path: Seq<u8>) -> Seq<u8> {
    path.skip(last_index_of(path, 47u8) + 1)
}

/// A file name with its extension stripped: everything before the last
/// dot, except that a leading dot never starts an extension.
pub open spec fn stem_of(name: Seq<u8>) -> Seq<u8> {
    let i = last_index_of(name, 46u8);
    if i <= 0 {
        name
    } else {
        name.take(i)
    }
}

/// The extension of a file name: everything after the last dot, empty
/// when there is none and when the only dot leads the name.
pub open spec fn extension_of(name: Seq<u8>) -> Seq<u8> {
    let i = last_index_of(name, 46u8);
    if i <= 0 {
        Seq::empty()
    } else {
        name.skip(i + 1)
    }
}

/// The container extension appended to re-encoded outputs.
pub open spec fn container_extension() -> Seq<u8> {
    seq![46u8, 122u8, 115u8, 116u8]
}

/// The destination path for one input: output directory, payload stem,
/// suffix, a dot plus the payload extension (or its configured
/// replacement), and the container extension when re-encoding.
pub open spec fn output_name_spec(
    input_path: Seq<u8>,
    out_dir: Seq<u8>,
    suffix: Seq<u8>,
    file_ext: Seq<u8>,
    zstd: bool,
) -> Seq<u8> {
    let inner = stem_of(file_name_of(input_path));
    let stem = stem_of(inner);
    let ext = if file_ext.len() == 0 {
        extension_of(inner)
    } else {
        file_ext
    };
    let base = out_dir + stem + suffix + seq![46u8] + ext;
    if zstd {
        base + container_extension()
    } else {
        base
    }
}

/// The position of the last `b` in `v`, searched from the end.
fn rfind_byte(v: &Vec<u8>, b: u8) -> (r: Option<usize>)
    ensures
        (match r {
            Option::Some(i) => i == last_index_of(v@, b),
            Option::None => last_index_of(v@, b) == -1,
        }),
{
    let mut i = v.len();
    proof {
        assert(v@.take(v@.len() as int) =~= v@);
    }
    while i > 0
        invariant
            i <= v@.len(),
            last_index_of(v@, b) == last_index_of(v@.take(i as int), b),
        decreases i,
    {
        i = i - 1;
        if v[i] == b {
            proof {
                assert(v@.take(i + 1).last() == v@[i as int]);
            }
            return Some(i);
        }
        proof {
            assert(v@.take(i + 1).last() == v@[i as int]);
            assert(v@.take(i + 1).drop_last() =~= v@.take(i as int));
        }
    }
    proof {
        assert(v@.take(0) =~= Seq::<u8>::empty());
    }
    None
}

/// A verified copy of `v[from..to]`.
fn copy_range(v: &Vec<u8>, from: usize, to: usize) -> (r: Vec<u8>)
    requires
        from <= to <= v@.len(),
    ensures
        r@ == v@.subrange(from as int, to as int),
{
    let mut r: Vec<u8> = Vec::new();
    let mut i = from;
    proof {
        assert(r@ =~= v@.subrange(from as int, from as int));
    }
    while i < to
        invariant
            from <= i <= to <= v@.len(),
            r@ == v@.subrange(from as int, i as int),
        decreases to - i,
    {
        r.push(v[i]);
        i = i + 1;
        proof {
            assert(r@ =~= v@.subrange(from as int, i as int));
        }
    }
    r
}

/// Append a copy of `src` to `dst`.
fn append_bytes(dst: &mut Vec<u8>, src: &Vec<u8>)
    ensures
        final(dst)@ == old(dst)@ + src@,
{
    let mut tmp = crate::codec::copy_bytes(src);
    dst.append(&mut tmp);
}

/// The stem of a file name held in a vector, by the leading-dot rule.
fn stem_vec(name: &Vec<u8>) -> (r: Vec<u8>)
    ensures
        r@ == stem_of(name@),
{
    proof {
        lemma_last_index_of_bounds(name@, 46u8);
    }
    match rfind_byte(name, 46) {
        Some(i) => {
            if i == 0 {
                crate::codec::copy_bytes(name)
            } else {
                let r = copy_range(name, 0, i);
                proof {
                    assert(name@.subrange(0, i as int) =~= name@.take(i as int));
                }
                r
            }
        },
        None => crate::codec::copy_bytes(name),
    }
}

/// The extension of a file name held in a vector, by the leading-dot rule.
fn extension_vec(name: &Vec<u8>) -> (r: Vec<u8>)
    ensures
        r@ == extension_of(name@),
{
    proof {
        lemma_last_index_of_bounds(name@, 46u8);
    }
    match rfind_byte(name, 46) {
        Some(i) => {
            if i == 0 {
                Vec::new()
            } else {
                let n = name.len();
                let r = copy_range(name, i + 1, n);
                proof {
                    assert(name@.subrange(i + 1, name@.len() as int) =~= name@.skip(i + 1));
                }
                r
            }
        },
        None => Vec::new(),
    }
}

/// Build the destination path for one input under the given settings.
pub fn generate_output_filename(input_file_path: &Vec<u8>, config: &Config) -> (r: Vec<u8>)
    ensures
        r@ == output_name_spec(
            input_file_path@,
            config.output@,
            config.suffix@,
            config.file_extension@,
            config.zstd,
        ),
{
    proof {
        lemma_last_index_of_bounds(input_file_path@, 47u8);
    }
    let fname = match rfind_byte(input_file_path, 47) {
        Some(i) => {
            let n = input_file_path.len();
            let r = copy_range(input_file_path, i + 1, n);
            proof {
                assert(input_file_path@.subrange(i + 1, input_file_path@.len() as int)
                    =~= file_name_of(input_file_path@));
            }
            r
        },
        None => {
            let r = crate::codec::copy_bytes(input_file_path);
            proof {
                assert(input_file_path@.skip(0) =~= input_file_path@);
            }
            r
        },
    };
    let inner = stem_vec(&fname);
    let stem = stem_vec(&inner);
    let ext = if config.file_extension.len() == 0 {
        extension_vec(&inner)
    } else {
        crate::codec::copy_bytes(&config.file_extension)
    };
    let mut out = crate::codec::copy_bytes(&config.output);
    append_bytes(&mut out, &stem);
    append_bytes(&mut out, &config.suffix);
    out.push(46);
    append_bytes(&mut out, &ext);
    if config.zstd {
        out.push(46);
        out.push(122);
        out.push(115);
        out.push(116);
    }
    proof {
        assert(out@ =~= output_name_spec(
            input_file_path@,
            config.output@,
            config.suffix@,
            config.file_extension@,
            config.zstd,
        ));
    }
    out
}

} // verus!
