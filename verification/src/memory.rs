use vstd::prelude::*;
use crate::text::{spec_lines, tokens_from, spec_parse_u64, split_lines, split_tokens, parse_u64, ranges};
use crate::process::{lemma_lines_bounds, lemma_tokens_bounds};

verus! {

/// Memory and swap sizes in bytes, as `/proc/meminfo` gives them.
pub struct Memory {
    pub mem_total: u64,
    pub mem_free: u64,
    pub mem_used: u64,
    pub swap_total: u64,
    pub swap_free: u64,
    pub swap_used: u64,
}

/// Why `/proc/meminfo` could not be read.
#[derive(PartialEq, Eq, Structural, Debug, Clone, Copy)]
pub enum MemError {
    /// A line is missing.
    NoLine,
    /// A line has fewer than two words.
    NoWord,
    /// A line's second word is not a number.
    NotNumber,
}

/// The number of kilobytes on line `k`: its second word.
pub open spec fn mem_field(s: Seq<u8>, k: int) -> Result<u64, MemError> {
    let lines = spec_lines(s);
    if k >= lines.len() {
        Err(MemError::NoLine)
    } else {
        let t = tokens_from(s, lines[k].0, lines[k].1);
        if t.len() < 2 {
            Err(MemError::NoWord)
        } else {
            match spec_parse_u64(s.subrange(t[1].0, t[1].1)) {
                Some(v) => Ok(v),
                None => Err(MemError::NotNumber),
            }
        }
    }
}

fn read_field(text: &[u8], lines: &Vec<(usize, usize)>, k: usize) -> (r: Result<u64, MemError>)
    requires
        ranges(lines@) == spec_lines(text@),
    ensures
        r == mem_field(text@, k as int),
{
    proof {
        lemma_lines_bounds(text@);
    }
    if k >= lines.len() {
        return Err(MemError::NoLine);
    }
    let (a, b) = lines[k];
    proof {
        assert(ranges(lines@)[k as int] == (a as int, b as int));
    }
    let toks = split_tokens(text, a, b);
    proof {
        lemma_tokens_bounds(text@, a as int, b as int);
    }
    if toks.len() < 2 {
        return Err(MemError::NoWord);
    }
    let (c, d) = toks[1];
    proof {
        assert(ranges(toks@)[1] == (c as int, d as int));
    }
    match parse_u64(text, c, d) {
        Some(v) => Ok(v),
        None => Err(MemError::NotNumber),
    }
}

impl Memory {
    /// All sizes zero.
    pub fn new() -> (r: Self)
        ensures
            r.mem_total == 0 && r.mem_free == 0 && r.mem_used == 0,
            r.swap_total == 0 && r.swap_free == 0 && r.swap_used == 0,
    {
        Memory { mem_total: 0, mem_free: 0, mem_used: 0, swap_total: 0, swap_free: 0, swap_used: 0 }
    }

    /// Reads `/proc/meminfo`: the total memory from line 1, the free memory
    /// from line 3, the swap total and free from lines 15 and 16 (kilobytes
    /// in the second word, kept in bytes), then what is used of each. A
    /// field that cannot be read stops with an error, the fields before it
    /// already set.
    pub fn update(&mut self, text: &[u8]) -> (r: Result<(), MemError>)
        requires
            mem_update_ok(text@),
        ensures
            match (mem_field(text@, 0), mem_field(text@, 2), mem_field(text@, 14), mem_field(text@, 15)) {
                (Err(e), _, _, _) => r == Err::<(), MemError>(e) && *final(self) == *old(self),
                (Ok(t), Err(e), _, _) => r == Err::<(), MemError>(e)
                    && *final(self) == (Memory { mem_total: (t * 1024) as u64, ..*old(self) }),
                (Ok(t), Ok(f), Err(e), _) => r == Err::<(), MemError>(e)
                    && *final(self) == (Memory { mem_total: (t * 1024) as u64, mem_free: (f * 1024) as u64, ..*old(self) }),
                (Ok(t), Ok(f), Ok(st), Err(e)) => r == Err::<(), MemError>(e)
                    && *final(self) == (Memory { mem_total: (t * 1024) as u64, mem_free: (f * 1024) as u64,
                        swap_total: (st * 1024) as u64, ..*old(self) }),
                (Ok(t), Ok(f), Ok(st), Ok(sf)) => r is Ok && *final(self) == (Memory {
                    mem_total: (t * 1024) as u64,
                    mem_free: (f * 1024) as u64,
                    mem_used: (t * 1024 - f * 1024) as u64,
                    swap_total: (st * 1024) as u64,
                    swap_free: (sf * 1024) as u64,
                    swap_used: (st * 1024 - sf * 1024) as u64,
                }),
            },
    {
        let lines = split_lines(text);
        let t = read_field(text, &lines, 0)?;
        self.mem_total = t * 1024;
        let f = read_field(text, &lines, 2)?;
        self.mem_free = f * 1024;
        let st = read_field(text, &lines, 14)?;
        self.swap_total = st * 1024;
        let sf = read_field(text, &lines, 15)?;
        self.swap_free = sf * 1024;
        self.mem_used = self.mem_total - self.mem_free;
        self.swap_used = self.swap_total - self.swap_free;
        Ok(())
    }
}

/// `/proc/meminfo` can be taken in: the sizes read fit in 64 bits once in
/// bytes, the swap's free line is there once its total was read, and
/// neither what is free exceeds what there is.
pub open spec fn mem_update_ok(text: Seq<u8>) -> bool {
    &&& mem_field(text, 0) matches Ok(v) ==> v * 1024 <= u64::MAX
    &&& mem_field(text, 0) is Ok ==> (mem_field(text, 2) matches Ok(v) ==> v * 1024 <= u64::MAX)
    &&& mem_field(text, 0) is Ok && mem_field(text, 2) is Ok ==> (mem_field(text, 14) matches Ok(v)
        ==> v * 1024 <= u64::MAX && spec_lines(text).len() > 15)
    &&& (mem_field(text, 0), mem_field(text, 2), mem_field(text, 14), mem_field(text, 15))
        matches (Ok(t), Ok(f), Ok(st), Ok(sf)) ==> sf * 1024 <= u64::MAX && t >= f && st >= sf
}

/// Whether `Memory::update` can take in `text` (see `mem_update_ok`).
pub fn update_fits(text: &[u8]) -> (r: bool)
    ensures
        r == mem_update_ok(text@),
{
    let lines = split_lines(text);
    let t = read_field(text, &lines, 0);
    let f = read_field(text, &lines, 2);
    let st = read_field(text, &lines, 14);
    let sf = read_field(text, &lines, 15);
    let max_kb: u64 = 0x003f_ffff_ffff_ffff;
    match t {
        Err(_) => true,
        Ok(t) => {
            if t > max_kb {
                return false;
            }
            match f {
                Err(_) => true,
                Ok(f) => {
                    if f > max_kb {
                        return false;
                    }
                    match st {
                        Err(_) => true,
                        Ok(st) => {
                            if st > max_kb || lines.len() <= 15 {
                                return false;
                            }
                            match sf {
                                Err(_) => true,
                                Ok(sf) => sf <= max_kb && t >= f && st >= sf,
                            }
                        },
                    }
                },
            }
        },
    }
}

} // verus!
