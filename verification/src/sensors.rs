use vstd::prelude::*;
use crate::keyed::{lex_lt, keys_sorted, upsert, compare_bytes, copy_bytes, lemma_upsert_at};
use crate::ui::{char_boundary, truncated};

verus! {

/// The label that a feature carries when it has no name of its own.
pub open spec fn unnamed_label() -> Seq<u8> {
    seq![116u8, 101u8, 109u8, 112u8, 49u8]
}

/// The name a temperature is shown under: the feature's label, or the
/// chip's name when the label is `temp1`; cut to 14 bytes.
pub open spec fn sensor_key(chip: Seq<u8>, label: Seq<u8>) -> Seq<u8> {
    if label == unnamed_label() {
        truncated(chip, 14)
    } else {
        truncated(label, 14)
    }
}

/// The name can be cut to 14 bytes without splitting a character.
pub open spec fn key_ok(chip: Seq<u8>, label: Seq<u8>) -> bool {
    if label == unnamed_label() {
        char_boundary(chip, 14)
    } else {
        char_boundary(label, 14)
    }
}

/// Temperatures in degrees Celsius by sensor name, in name order.
pub struct Sensors {
    pub chips: Vec<(Vec<u8>, u8)>,
}

fn is_unnamed(label: &[u8]) -> (r: bool)
    ensures
        r == (label@ == unnamed_label()),
{
    let t: [u8; 5] = [116u8, 101u8, 109u8, 112u8, 49u8];
    if label.len() != 5 {
        return false;
    }
    let mut i: usize = 0;
    while i < 5
        invariant
            label@.len() == 5,
            i <= 5,
            t@ == unnamed_label(),
            forall|j: int| 0 <= j < i ==> label@[j] == t@[j],
        decreases 5 - i,
    {
        if label[i] != t[i] {
            return false;
        }
        i = i + 1;
    }
    proof {
        assert(label@ == unnamed_label());
    }
    true
}

/// Whether the name of a reading can be cut to 14 bytes (see `key_ok`).
pub fn key_fits(chip: &[u8], label: &[u8]) -> (r: bool)
    ensures
        r == key_ok(chip@, label@),
{
    let src: &[u8] = if is_unnamed(label) { chip } else { label };
    14 >= src.len() || !(128 <= src[14] && src[14] <= 191)
}

impl Sensors {
    /// The table as names and temperatures.
    pub open spec fn table(&self) -> Seq<(Seq<u8>, u8)> {
        self.chips@.map_values(|e: (Vec<u8>, u8)| (e.0@, e.1))
    }

    /// No sensor yet.
    pub fn new() -> (r: Self)
        ensures
            r.table().len() == 0,
    {
        Sensors { chips: Vec::new() }
    }

    /// Takes in one reading: the temperature `value` of the feature `label`
    /// of chip `chip` is stored under `sensor_key(chip, label)`, replacing
    /// what was there.
    pub fn record(&mut self, chip: &[u8], label: &[u8], value: u8)
        requires
            keys_sorted(old(self).table()),
            key_ok(chip@, label@),
        ensures
            final(self).table() == upsert(old(self).table(), sensor_key(chip@, label@), value),
            keys_sorted(final(self).table()),
    {
        let src: &[u8] = if is_unnamed(label) { chip } else { label };
        let end: usize = if src.len() > 14 { 14 } else { src.len() };
        let name = copy_bytes(src, 0, end);
        proof {
            assert(name@ == sensor_key(chip@, label@));
        }
        let n = self.chips.len();
        let ghost m = self.table();
        let mut i: usize = 0;
        while i < n && compare_bytes(&self.chips[i].0, &name) < 0
            invariant
                n == self.chips@.len(),
                m == self.table(),
                i <= n,
                forall|j: int| 0 <= j < i ==> lex_lt(#[trigger] m[j].0, name@),
            decreases n - i,
        {
            proof {
                assert(m[i as int] == (self.chips@[i as int].0@, self.chips@[i as int].1));
            }
            i = i + 1;
        }
        let found = i < n && compare_bytes(&self.chips[i].0, &name) == 0;
        proof {
            if i < n {
                assert(m[i as int] == (self.chips@[i as int].0@, self.chips@[i as int].1));
            }
            lemma_upsert_at(m, name@, value, i as int);
        }
        let ghost nv = name@;
        if found {
            self.chips.set(i, (name, value));
            proof {
                assert(self.table() == m.update(i as int, (nv, value)));
            }
        } else {
            self.chips.insert(i, (name, value));
            proof {
                assert(self.table() == m.insert(i as int, (nv, value)));
            }
        }
    }

    /// How many sensors there are.
    pub fn len(&self) -> (r: usize)
        ensures
            r == self.table().len(),
    {
        self.chips.len()
    }
}

} // verus!
