//! The host's physical memory as Linux reports it in `/proc/meminfo`.

use vstd::prelude::*;
use crate::text::{parse_bounded_spec, parse_unsigned, split_lines, split_words, starts_with, text_lines, views, words};

verus! {

pub open spec fn has_key(line: Seq<char>) -> bool {
    "MemTotal:"@.len() <= line.len() && line.take("MemTotal:"@.len() as int) == "MemTotal:"@
}

/// The total from the first `MemTotal:` line among `lines`: its first
/// word, in KiB, converted to bytes when that fits.
pub open spec fn mem_total_spec(lines: Seq<Seq<char>>) -> Option<u64>
    decreases lines.len(),
{
    if lines.len() == 0 {
        None
    } else if has_key(lines[0]) {
        let w = words(lines[0].skip("MemTotal:"@.len() as int));
        if w.len() == 0 {
            None
        } else {
            match parse_bounded_spec(w[0], u64::MAX as nat) {
                Some(kib) => if kib * 1024 <= u64::MAX { Some((kib * 1024) as u64) } else { None },
                None => None,
            }
        }
    } else {
        mem_total_spec(lines.drop_first())
    }
}

/// Reads the total physical memory, in bytes, from `/proc/meminfo` text.
pub fn mem_total_from_meminfo(content: &str) -> (r: Option<u64>)
    ensures
        r == mem_total_spec(text_lines(content@)),
{
    let lines = split_lines(content);
    let ghost ls = views(lines@);
    let mut i: usize = 0;
    proof {
        reveal_strlit("MemTotal:");
        assert(ls.skip(0) =~= ls);
    }
    while i < lines.len()
        invariant
            i <= lines@.len(),
            ls == views(lines@),
            ls == text_lines(content@),
            mem_total_spec(ls) == mem_total_spec(ls.skip(i as int)),
            "MemTotal:"@.len() == 9,
        decreases lines@.len() - i,
    {
        let line = lines[i].as_str();
        assert(ls.skip(i as int)[0] == line@);
        assert(ls.skip(i as int).drop_first() =~= ls.skip(i + 1));
        if starts_with(line, "MemTotal:") {
            let n = line.unicode_len();
            let rest = line.substring_char(9, n);
            assert(rest@ =~= line@.skip(9));
            let w = split_words(rest);
            if w.len() == 0 {
                return None;
            }
            assert(views(w@)[0] == w@[0]@);
            return match parse_unsigned(w[0].as_str(), 0xffff_ffff_ffff_ffff) {
                Some(kib) => {
                    let kib = kib as u64;
                    kib.checked_mul(1024)
                },
                None => None,
            };
        }
        i = i + 1;
    }
    None
}

} // verus!
