use vstd::prelude::*;
use crate::text::{tokens_from, split_tokens, ranges};
use crate::process::lemma_tokens_bounds;
use crate::keyed::copy_bytes;

verus! {

/// The load averages as `/proc/loadavg` writes them.
pub struct Loadavg {
    pub min1: Vec<u8>,
    pub min5: Vec<u8>,
    pub min15: Vec<u8>,
}

/// `/proc/loadavg` had fewer than this many words (1, 2 or 3).
#[derive(PartialEq, Eq, Structural, Debug, Clone, Copy)]
pub struct LoadavgError(pub usize);

/// The `k`-th word of `s`, or nothing when there are not that many.
pub open spec fn word(s: Seq<u8>, k: int) -> Seq<u8> {
    let t = tokens_from(s, 0, s.len() as int);
    if k < t.len() { s.subrange(t[k].0, t[k].1) } else { Seq::empty() }
}

impl Loadavg {
    /// Nothing read yet.
    pub fn new() -> (r: Self)
        ensures
            r.min1@.len() == 0 && r.min5@.len() == 0 && r.min15@.len() == 0,
    {
        Loadavg { min1: Vec::new(), min5: Vec::new(), min15: Vec::new() }
    }

    /// Takes the first three words of `/proc/loadavg`; with fewer, an error
    /// names the first missing one, and it and those after it are empty.
    pub fn update(&mut self, text: &[u8]) -> (r: Result<(), LoadavgError>)
        ensures
            ({
                let n = tokens_from(text@, 0, text@.len() as int).len();
                &&& n < 1 ==> r == Err::<(), LoadavgError>(LoadavgError(1))
                &&& n == 1 ==> r == Err::<(), LoadavgError>(LoadavgError(2))
                &&& n == 2 ==> r == Err::<(), LoadavgError>(LoadavgError(3))
                &&& n >= 3 ==> r is Ok
            }),
            final(self).min1@ == word(text@, 0),
            final(self).min5@ == word(text@, 1),
            final(self).min15@ == word(text@, 2),
    {
        let n = text.len();
        let toks = split_tokens(text, 0, n);
        proof {
            lemma_tokens_bounds(text@, 0, n as int);
        }
        let ghost t = ranges(toks@);
        self.min1.clear();
        self.min5.clear();
        self.min15.clear();
        if toks.len() < 1 {
            return Err(LoadavgError(1));
        }
        let (a, b) = toks[0];
        proof { assert(t[0] == (a as int, b as int)); }
        self.min1 = copy_bytes(text, a, b);
        if toks.len() < 2 {
            return Err(LoadavgError(2));
        }
        let (a, b) = toks[1];
        proof { assert(t[1] == (a as int, b as int)); }
        self.min5 = copy_bytes(text, a, b);
        if toks.len() < 3 {
            return Err(LoadavgError(3));
        }
        let (a, b) = toks[2];
        proof { assert(t[2] == (a as int, b as int)); }
        self.min15 = copy_bytes(text, a, b);
        Ok(())
    }
}

} // verus!
