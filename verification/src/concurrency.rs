//! How many inferences may run at once, sized from the machine's memory.

use vstd::prelude::*;
use crate::decimal::{parse_unsigned, parse_unsigned_chars};
use crate::text::{has_prefix, non_empty_pieces, split_pieces, starts_with_chars, str_to_chars, trim, trim_chars, pieces, words};

verus! {

/// One GiB in KiB.
pub const KIB_PER_GIB: u64 = 1048576;

/// One GiB in bytes.
pub const BYTES_PER_GIB: u64 = 1073741824;

/// `n` held between 1 and 4.
pub open spec fn clamp_1_4(n: int) -> usize {
    if n < 1 {
        1
    } else if n > 4 {
        4
    } else {
        n as usize
    }
}

/// From available RAM: one inference per 2 GiB, at least one, at most four.
pub open spec fn concurrency_for_ram(available_kb: u64) -> usize {
    clamp_1_4(available_kb as int / (2 * KIB_PER_GIB) as int)
}

/// From total VRAM: one inference per 8 GiB, at least one, at most four
/// (an 8 GiB card runs one at a time).
pub open spec fn concurrency_for_vram(total_bytes: u64) -> usize {
    clamp_1_4(total_bytes as int / (8 * BYTES_PER_GIB) as int)
}

/// Concurrency from available RAM, in KiB.
pub fn max_concurrent_ram(available_kb: u64) -> (n: usize)
    ensures
        n == concurrency_for_ram(available_kb),
        1 <= n <= 4,
{
    let q = available_kb / (2 * KIB_PER_GIB);
    if q < 1 {
        1
    } else if q > 4 {
        4
    } else {
        q as usize
    }
}

/// Concurrency from total VRAM, in bytes.
pub fn max_concurrent_for(total_bytes: u64) -> (n: usize)
    ensures
        n == concurrency_for_vram(total_bytes),
        1 <= n <= 4,
{
    let q = total_bytes / (8 * BYTES_PER_GIB);
    if q < 1 {
        1
    } else if q > 4 {
        4
    } else {
        q as usize
    }
}

/// The concurrency the machine allows, from what could be read of it, in
/// this order of preference: an explicit override, the VRAM total from
/// sysfs, the VRAM total the NVIDIA driver reports (MiB), the available
/// RAM (KiB); two when nothing could be read.
pub open spec fn concurrency_from(
    env_override: Option<usize>,
    vram_total_bytes: Option<u64>,
    nvidia_vram_mb: Option<u64>,
    ram_available_kb: Option<u64>,
) -> usize {
    match env_override {
        Some(n) => n,
        None => match vram_total_bytes {
            Some(b) => concurrency_for_vram(b),
            None => match nvidia_vram_mb {
                Some(mb) => if mb * 1048576 <= u64::MAX {
                    concurrency_for_vram((mb * 1048576) as u64)
                } else {
                    4
                },
                None => match ram_available_kb {
                    Some(kb) => concurrency_for_ram(kb),
                    None => 2,
                },
            },
        },
    }
}

/// Maximum number of concurrent inferences, as `concurrency_from` says.
pub fn detect_max_concurrent_inferences(
    env_override: Option<usize>,
    vram_total_bytes: Option<u64>,
    nvidia_vram_mb: Option<u64>,
    ram_available_kb: Option<u64>,
) -> (n: usize)
    ensures
        n == concurrency_from(env_override, vram_total_bytes, nvidia_vram_mb, ram_available_kb),
{
    if let Some(n) = env_override {
        return n;
    }
    if let Some(b) = vram_total_bytes {
        return max_concurrent_for(b);
    }
    if let Some(mb) = nvidia_vram_mb {
        if mb <= u64::MAX / 1048576 {
            return max_concurrent_for(mb * 1048576);
        } else {
            return 4;
        }
    }
    if let Some(kb) = ram_available_kb {
        return max_concurrent_ram(kb);
    }
    2
}

/// The override the environment asks for: the value, trimmed, read as an
/// unsigned decimal, and kept only when at least 1.
pub open spec fn concurrency_override(value: Seq<char>) -> Option<usize> {
    match crate::decimal::parse_unsigned(trim(value), usize::MAX as nat) {
        Some(n) => if n >= 1 {
            Some(n as usize)
        } else {
            None
        },
        None => None,
    }
}

/// Reads a concurrency override, as `concurrency_override` says.
pub fn parse_concurrency_override(value: &str) -> (r: Option<usize>)
    ensures
        r == concurrency_override(value@),
{
    let chars = str_to_chars(value);
    let trimmed = trim_chars(&chars);
    match parse_unsigned_chars(&trimmed, usize::MAX as u64) {
        Some(n) => if n >= 1 {
            Some(n as usize)
        } else {
            None
        },
        None => None,
    }
}

/// The MiB figure of one line of an NVIDIA driver information file: a line
/// that starts with `Total Available Memory:` and whose fourth word reads
/// as a `u64`.
pub open spec fn nvidia_line_mb(line: Seq<char>) -> Option<u64> {
    if has_prefix(line, "Total Available Memory:"@) && words(line).len() >= 4 {
        match parse_unsigned(words(line)[3], u64::MAX as nat) {
            Some(v) => Some(v as u64),
            None => None,
        }
    } else {
        None
    }
}

/// The first line that gives a figure.
pub open spec fn first_figure(lines: Seq<Seq<char>>) -> Option<u64>
    decreases lines.len(),
{
    if lines.len() == 0 {
        None
    } else {
        match nvidia_line_mb(lines[0]) {
            Some(v) => Some(v),
            None => first_figure(lines.drop_first()),
        }
    }
}

/// The total memory an NVIDIA driver information file reports, in MiB.
/// Lines are split at newlines; the carriage return that `str::lines`
/// would also drop is white space, so it changes no word.
pub open spec fn nvidia_total_mb(info: Seq<char>) -> Option<u64> {
    first_figure(pieces(info, true))
}

fn line_figure(line: &Vec<char>) -> (r: Option<u64>)
    ensures
        r == nvidia_line_mb(line@),
{
    let prefix = str_to_chars("Total Available Memory:");
    if !starts_with_chars(line, &prefix) {
        return None;
    }
    let ws = non_empty_pieces(&split_pieces(line, false));
    if ws.len() < 4 {
        return None;
    }
    assert(ws@.map_values(|x: Vec<char>| x@)[3] == ws@[3]@);
    parse_unsigned_chars(&ws[3], u64::MAX)
}

/// The total memory an NVIDIA driver information file reports, in MiB, as
/// `nvidia_total_mb` says.
pub fn nvidia_total_memory_mb(info: &str) -> (r: Option<u64>)
    ensures
        r == nvidia_total_mb(info@),
{
    let lines = split_pieces(&str_to_chars(info), true);
    let ghost all = lines@.map_values(|x: Vec<char>| x@);
    let mut i: usize = 0;
    assert(all.skip(0) =~= all);
    while i < lines.len()
        invariant
            i <= lines@.len(),
            all == lines@.map_values(|x: Vec<char>| x@),
            all == pieces(info@, true),
            first_figure(all) == first_figure(all.skip(i as int)),
        decreases lines.len() - i,
    {
        let r = line_figure(&lines[i]);
        assert(all.skip(i as int)[0] == lines@[i as int]@);
        assert(all.skip(i as int).drop_first() =~= all.skip(i + 1));
        if r.is_some() {
            assert(all.skip(i as int).len() > 0);
            assert(first_figure(all.skip(i as int)) == r);
            return r;
        }
        i += 1;
    }
    None
}

} // verus!
