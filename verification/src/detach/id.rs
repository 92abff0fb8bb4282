//! Run ids: `<YYYYMMDD-HHMMSS>-<4 lowercase hex>`.

use vstd::prelude::*;
use crate::text::{hex4, hex4_text, is_digit, starts_with, str_eq};

verus! {

pub open spec fn is_lower_hex(c: char) -> bool {
    is_digit(c) || ('a' <= c && c <= 'f')
}

/// The shape of a run id: 8 digits, `-`, 6 digits, `-`, 4 lowercase hex
/// digits.
pub open spec fn is_run_id(s: Seq<char>) -> bool {
    &&& s.len() == 20
    &&& s[8] == '-'
    &&& s[15] == '-'
    &&& forall|i: int| 0 <= i < 8 ==> is_digit(#[trigger] s[i])
    &&& forall|i: int| 9 <= i < 15 ==> is_digit(#[trigger] s[i])
    &&& forall|i: int| 16 <= i < 20 ==> is_lower_hex(#[trigger] s[i])
}

/// An identifier of a detached run.
#[derive(Debug, Clone, PartialEq, Eq, Hash)]
pub struct RunId(String);

impl View for RunId {
    type V = Seq<char>;

    closed spec fn view(&self) -> Seq<char> {
        self.0@
    }
}

/// `id` begins with `needle`.
pub open spec fn has_prefix(id: Seq<char>, needle: Seq<char>) -> bool {
    needle.len() <= id.len() && id.take(needle.len() as int) == needle
}

pub open spec fn exact_exists(all: Seq<RunId>, needle: Seq<char>) -> bool {
    exists|i: int| 0 <= i < all.len() && #[trigger] all[i]@ == needle
}

/// Index `i` is the only one whose id begins with `needle`.
pub open spec fn sole_prefix_match(all: Seq<RunId>, needle: Seq<char>, i: int) -> bool {
    &&& 0 <= i < all.len()
    &&& has_prefix(all[i]@, needle)
    &&& forall|j: int| 0 <= j < all.len() && j != i ==> !has_prefix(#[trigger] all[j]@, needle)
}

impl RunId {
    /// Accepts exactly the strings of run-id shape.
    pub fn parse(s: &str) -> (r: Option<RunId>)
        ensures
            r is Some <==> is_run_id(s@),
            r matches Some(id) ==> id@ == s@,
    {
        if s.unicode_len() != 20 {
            return None;
        }
        if s.get_char(8) != '-' || s.get_char(15) != '-' {
            return None;
        }
        let mut i: usize = 0;
        while i < 20
            invariant
                i <= 20,
                s@.len() == 20,
                forall|k: int| 0 <= k < i && k < 8 ==> is_digit(#[trigger] s@[k]),
                forall|k: int| 9 <= k < i && k < 15 ==> is_digit(#[trigger] s@[k]),
                forall|k: int| 16 <= k < i ==> is_lower_hex(#[trigger] s@[k]),
            decreases 20 - i,
        {
            let c = s.get_char(i);
            if i < 8 || (9 <= i && i < 15) {
                if !('0' <= c && c <= '9') {
                    return None;
                }
            } else if i >= 16 {
                if !(('0' <= c && c <= '9') || ('a' <= c && c <= 'f')) {
                    return None;
                }
            }
            i = i + 1;
        }
        Some(RunId(s.to_owned()))
    }

    pub fn as_str(&self) -> (r: &str)
        ensures
            r@ == self@,
    {
        self.0.as_str()
    }

    /// Resolves `needle` among `all`: an exact match wins; otherwise the
    /// one id that begins with `needle`, if exactly one does.
    pub fn find_by_prefix<'a>(needle: &str, all: &'a Vec<RunId>) -> (r: Option<&'a RunId>)
        ensures
            exact_exists(all@, needle@) ==> (r matches Some(id) && id@ == needle@
                && exists|i: int| 0 <= i < all@.len() && all@[i] == *id),
            !exact_exists(all@, needle@) ==> match r {
                Some(id) => exists|i: int| sole_prefix_match(all@, needle@, i) && all@[i] == *id,
                None => !exists|i: int| sole_prefix_match(all@, needle@, i),
            },
    {
        let mut i: usize = 0;
        while i < all.len()
            invariant
                i <= all@.len(),
                forall|k: int| 0 <= k < i ==> #[trigger] all@[k]@ != needle@,
            decreases all@.len() - i,
        {
            if str_eq(all[i].as_str(), needle) {
                return Some(&all[i]);
            }
            i = i + 1;
        }
        let mut found: Option<usize> = None;
        let mut j: usize = 0;
        while j < all.len()
            invariant
                j <= all@.len(),
                !exact_exists(all@, needle@),
                match found {
                    Some(f) => f < j && has_prefix(all@[f as int]@, needle@)
                        && forall|k: int| 0 <= k < j && k != f ==> !has_prefix(#[trigger] all@[k]@, needle@),
                    None => forall|k: int| 0 <= k < j ==> !has_prefix(#[trigger] all@[k]@, needle@),
                },
            decreases all@.len() - j,
        {
            if starts_with(all[j].as_str(), needle) {
                match found {
                    Some(f) => {
                        assert(!sole_prefix_match(all@, needle@, f as int) && !sole_prefix_match(all@, needle@, j as int));
                        assert forall|m: int| !sole_prefix_match(all@, needle@, m) by {
                            if m != f as int && m != j as int && 0 <= m < all@.len() && has_prefix(all@[m]@, needle@) {
                                assert(has_prefix(all@[f as int]@, needle@));
                            }
                        }
                        return None;
                    },
                    None => {
                        found = Some(j);
                    },
                }
            }
            j = j + 1;
        }
        match found {
            Some(f) => {
                assert(sole_prefix_match(all@, needle@, f as int));
                Some(&all[f])
            },
            None => {
                assert forall|m: int| !sole_prefix_match(all@, needle@, m) by {
                    if 0 <= m < all@.len() {
                        assert(!has_prefix(all@[m]@, needle@));
                    }
                }
                None
            },
        }
    }

    /// The id made of a `YYYYMMDD-HHMMSS` stamp and a four-digit hex tag.
    pub fn from_parts(stamp: &str, tag: &str) -> (r: RunId)
        ensures
            r@ == stamp@ + "-"@ + tag@,
    {
        let mut s = stamp.to_owned();
        s.append("-");
        s.append(tag);
        RunId(s)
    }
}

/// The bits mixed into a run id's tag: wall-clock nanoseconds, the
/// process id and a per-process counter.
pub open spec fn mix_spec(nanos: u32, pid: u32, seq: u32) -> u32 {
    let x0 = (((nanos as int * 0x9E37_79B9) % 0x1_0000_0000) as u32) ^ pid ^ (((seq as int * 0x85EB_CA77) % 0x1_0000_0000) as u32);
    let x1 = x0 ^ (x0 >> 16u32);
    let x2 = ((x1 as int * 0x7FEB_352D) % 0x1_0000_0000) as u32;
    x2 ^ (x2 >> 15u32)
}

/// The four-hex-digit tag of a run id: sixteen bits of the mixed value.
/// Not cryptographic; it keeps ids distinct within one second.
pub fn random_hex4(nanos: u32, pid: u32, seq: u32) -> (r: String)
    ensures
        r@ == hex4((mix_spec(nanos, pid, seq) & 0xFFFF) as nat),
{
    let mut x: u32 = nanos.wrapping_mul(0x9E37_79B9) ^ pid ^ seq.wrapping_mul(0x85EB_CA77);
    x = x ^ (x >> 16u32);
    x = x.wrapping_mul(0x7FEB_352D);
    x = x ^ (x >> 15u32);
    let low = x & 0xFFFF;
    assert(low < 65536) by (bit_vector)
        requires low == x & 0xFFFF;
    hex4_text(low)
}


/// An id made from a `YYYYMMDD-HHMMSS` stamp and the tag of
/// [`random_hex4`] always has run-id shape, so `RunId::parse` accepts it
/// and it can be found again in the state directory.
pub proof fn lemma_generated_id_parses(stamp: Seq<char>, x: nat)
    requires
        stamp.len() == 15,
        stamp[8] == '-',
        forall|i: int| 0 <= i < 8 ==> is_digit(#[trigger] stamp[i]),
        forall|i: int| 9 <= i < 15 ==> is_digit(#[trigger] stamp[i]),
        x < 65536,
    ensures
        is_run_id(stamp + "-"@ + hex4(x)),
{
    reveal_strlit("-");
    let s = stamp + "-"@ + hex4(x);
    assert(s.len() == 20);
    assert forall|i: int| 16 <= i < 20 implies is_lower_hex(#[trigger] s[i]) by {
        let d: nat = if i == 16 { x / 4096 } else if i == 17 { (x / 256) % 16 } else if i == 18 { (x / 16) % 16 } else { x % 16 };
        assert(d < 16);
        assert(s[i] == crate::text::hex_char(d));
    }
    assert forall|i: int| 0 <= i < 8 implies is_digit(#[trigger] s[i]) by {
        assert(s[i] == stamp[i]);
    }
    assert forall|i: int| 9 <= i < 15 implies is_digit(#[trigger] s[i]) by {
        assert(s[i] == stamp[i]);
    }
}

} // verus!
