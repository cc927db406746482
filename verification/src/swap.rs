use vstd::prelude::*;
use crate::text::{spec_lines, words_from, spec_parse_i64, split_lines, split_words, parse_i64, ranges, lemma_words_bounds};
use crate::process::lemma_lines_bounds;

verus! {

/// Why `/proc/swaps` could not be read.
#[derive(PartialEq, Eq, Structural, Debug, Clone, Copy)]
pub enum SwapError {
    /// A line has no size or no used amount.
    Missing,
    /// A size or used amount is not a number.
    NotNumber,
}

/// The running totals after the lines from the `k`-th on, starting from
/// `total` and `used` bytes: each line adds its third word (the size in
/// kilobytes) times 1024 to the total, then its fourth (the kilobytes
/// used) times 1024 to what is used. A line that cannot be read stops with
/// its error, what it added so far kept.
pub open spec fn swap_apply(s: Seq<u8>, k: int, total: int, used: int) -> (int, int, Option<SwapError>)
    decreases spec_lines(s).len() - k,
{
    let lines = spec_lines(s);
    if k < 0 || k >= lines.len() {
        (total, used, None)
    } else {
        let w = words_from(s, lines[k].0, lines[k].1);
        if w.len() < 3 {
            (total, used, Some(SwapError::Missing))
        } else {
            match spec_parse_i64(s.subrange(w[2].0, w[2].1)) {
                None => (total, used, Some(SwapError::NotNumber)),
                Some(size) => {
                    let t = total + size * 1024;
                    if w.len() < 4 {
                        (t, used, Some(SwapError::Missing))
                    } else {
                        match spec_parse_i64(s.subrange(w[3].0, w[3].1)) {
                            None => (t, used, Some(SwapError::NotNumber)),
                            Some(u) => swap_apply(s, k + 1, t, used + u * 1024),
                        }
                    }
                },
            }
        }
    }
}

/// The sums of the lines from the `k`-th on stay in the range of `i64`.
pub open spec fn swap_safe(s: Seq<u8>, k: int, total: int, used: int) -> bool
    decreases spec_lines(s).len() - k,
{
    let lines = spec_lines(s);
    if k < 0 || k >= lines.len() {
        i64::MIN <= total - used <= i64::MAX
    } else {
        let w = words_from(s, lines[k].0, lines[k].1);
        if w.len() < 3 {
            true
        } else {
            match spec_parse_i64(s.subrange(w[2].0, w[2].1)) {
                None => true,
                Some(size) => {
                    let t = total + size * 1024;
                    &&& i64::MIN <= size * 1024 <= i64::MAX
                    &&& i64::MIN <= t <= i64::MAX
                    &&& (w.len() < 4 || match spec_parse_i64(s.subrange(w[3].0, w[3].1)) {
                        None => true,
                        Some(u) => {
                            &&& i64::MIN <= u * 1024 <= i64::MAX
                            &&& i64::MIN <= used + u * 1024 <= i64::MAX
                            &&& swap_safe(s, k + 1, t, used + u * 1024)
                        },
                    })
                },
            }
        }
    }
}

/// Swap sizes in bytes, as `/proc/swaps` gives them.
pub struct Swap {
    pub total: i64,
    pub used: i64,
    pub free: i64,
}

impl Swap {
    /// Nothing read yet.
    pub fn new() -> (r: Self)
        ensures
            r.total == 0 && r.used == 0 && r.free == 0,
    {
        Swap { total: 0, used: 0, free: 0 }
    }

    /// Reads the text of `/proc/swaps`: the lines after the header are
    /// summed (see `swap_apply`) from zero, and what is free is the total
    /// less what is used. A line that cannot be read stops with an error;
    /// the sums then hold what was added before it and what is free is
    /// left as it was.
    pub fn update(&mut self, text: &[u8]) -> (r: Result<(), SwapError>)
        requires
            swap_safe(text@, 1, 0, 0),
        ensures
            ({
                let (total, used, err) = swap_apply(text@, 1, 0, 0);
                &&& final(self).total == total
                &&& final(self).used == used
                &&& r == match err {
                    Some(e) => Err(e),
                    None => Ok(()),
                }
                &&& final(self).free == match err {
                    Some(e) => old(self).free as int,
                    None => total - used,
                }
            }),
    {
        let lines = split_lines(text);
        proof {
            lemma_lines_bounds(text@);
        }
        self.total = 0;
        self.used = 0;
        let mut k: usize = 1;
        while k < lines.len()
            invariant
                ranges(lines@) == spec_lines(text@),
                forall|j: int| 0 <= j < spec_lines(text@).len() ==>
                    0 <= (#[trigger] spec_lines(text@)[j]).0 <= spec_lines(text@)[j].1 <= text@.len(),
                1 <= k,
                swap_safe(text@, k as int, self.total as int, self.used as int),
                swap_apply(text@, k as int, self.total as int, self.used as int) == swap_apply(text@, 1, 0, 0),
                self.free == old(self).free,
            decreases lines@.len() - k,
        {
            let (a, b) = lines[k];
            proof {
                assert(ranges(lines@)[k as int] == (a as int, b as int));
                assert(spec_lines(text@)[k as int] == (a as int, b as int));
            }
            let w = split_words(text, a, b);
            proof {
                lemma_words_bounds(text@, a as int, b as int);
            }
            if w.len() < 3 {
                return Err(SwapError::Missing);
            }
            let (p, q) = w[2];
            proof {
                assert(ranges(w@)[2] == (p as int, q as int));
            }
            let size = match parse_i64(text, p, q) {
                None => {
                    return Err(SwapError::NotNumber);
                },
                Some(v) => v,
            };
            self.total = self.total + size * 1024;
            if w.len() < 4 {
                return Err(SwapError::Missing);
            }
            let (p, q) = w[3];
            proof {
                assert(ranges(w@)[3] == (p as int, q as int));
            }
            let u = match parse_i64(text, p, q) {
                None => {
                    return Err(SwapError::NotNumber);
                },
                Some(v) => v,
            };
            self.used = self.used + u * 1024;
            k = k + 1;
        }
        self.free = self.total - self.used;
        Ok(())
    }
}

} // verus!
