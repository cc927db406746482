use vstd::prelude::*;

verus! {

/// `a` comes before `b` in byte order (a proper prefix comes first).
pub open spec fn lex_lt(a: Seq<u8>, b: Seq<u8>) -> bool
    decreases a.len(),
{
    if a.len() == 0 {
        b.len() > 0
    } else if b.len() == 0 {
        false
    } else if a[0] < b[0] {
        true
    } else if a[0] > b[0] {
        false
    } else {
        lex_lt(a.drop_first(), b.drop_first())
    }
}

pub proof fn lemma_lex_irreflexive(a: Seq<u8>)
    ensures
        !lex_lt(a, a),
    decreases a.len(),
{
    if a.len() > 0 {
        lemma_lex_irreflexive(a.drop_first());
    }
}

pub proof fn lemma_lex_total(a: Seq<u8>, b: Seq<u8>)
    ensures
        a == b || lex_lt(a, b) || lex_lt(b, a),
        !(lex_lt(a, b) && lex_lt(b, a)),
    decreases a.len(),
{
    if a.len() > 0 && b.len() > 0 && a[0] == b[0] {
        lemma_lex_total(a.drop_first(), b.drop_first());
        if a.drop_first() == b.drop_first() {
            assert(a == seq![a[0]] + a.drop_first());
            assert(b == seq![b[0]] + b.drop_first());
        }
    }
    if a.len() == 0 && b.len() == 0 {
        assert(a == b);
    }
}

pub proof fn lemma_lex_trans(a: Seq<u8>, b: Seq<u8>, c: Seq<u8>)
    requires
        lex_lt(a, b),
        lex_lt(b, c),
    ensures
        lex_lt(a, c),
    decreases a.len(),
{
    if a.len() > 0 && b.len() > 0 && c.len() > 0 && a[0] == b[0] && b[0] == c[0] {
        lemma_lex_trans(a.drop_first(), b.drop_first(), c.drop_first());
    }
}

/// The keys of `m` are in strictly increasing byte order.
pub open spec fn keys_sorted<V>(m: Seq<(Seq<u8>, V)>) -> bool {
    forall|i: int, j: int| 0 <= i < j < m.len() ==> lex_lt(#[trigger] m[i].0, #[trigger] m[j].0)
}

/// The entry for `name`, if any.
pub open spec fn lookup<V>(m: Seq<(Seq<u8>, V)>, name: Seq<u8>) -> Option<V>
    decreases m.len(),
{
    if m.len() == 0 {
        None
    } else if m[0].0 == name {
        Some(m[0].1)
    } else {
        lookup(m.drop_first(), name)
    }
}

/// `m` with `name` set to `bw`, kept in key order: the entry is replaced if
/// there is one, else inserted before the first greater key.
pub open spec fn upsert<V>(m: Seq<(Seq<u8>, V)>, name: Seq<u8>, bw: V) -> Seq<(Seq<u8>, V)>
    decreases m.len(),
{
    if m.len() == 0 {
        seq![(name, bw)]
    } else if lex_lt(m[0].0, name) {
        seq![m[0]] + upsert(m.drop_first(), name, bw)
    } else if m[0].0 == name {
        seq![(name, bw)] + m.drop_first()
    } else {
        seq![(name, bw)] + m
    }
}

proof fn lemma_lex_skip(a: Seq<u8>, b: Seq<u8>, i: int)
    requires
        0 <= i <= a.len(),
        i <= b.len(),
        a.take(i) == b.take(i),
    ensures
        lex_lt(a, b) == lex_lt(a.skip(i), b.skip(i)),
    decreases i,
{
    if i > 0 {
        assert(a[0] == a.take(i)[0]);
        assert(b[0] == b.take(i)[0]);
        assert(a.drop_first().take(i - 1) == a.take(i).drop_first());
        assert(b.drop_first().take(i - 1) == b.take(i).drop_first());
        lemma_lex_skip(a.drop_first(), b.drop_first(), i - 1);
        assert(a.drop_first().skip(i - 1) == a.skip(i));
        assert(b.drop_first().skip(i - 1) == b.skip(i));
    } else {
        assert(a.skip(0) == a);
        assert(b.skip(0) == b);
    }
}

/// Compares two byte strings: negative, zero or positive as `a` comes
/// before, equals or comes after `b` in byte order.
pub fn compare_bytes(a: &Vec<u8>, b: &Vec<u8>) -> (r: i8)
    ensures
        r < 0 <==> lex_lt(a@, b@),
        r == 0 <==> a@ == b@,
        r > 0 <==> lex_lt(b@, a@),
{
    let n = a.len();
    let m = b.len();
    let mut i: usize = 0;
    while i < n && i < m && a[i] == b[i]
        invariant
            n == a@.len(),
            m == b@.len(),
            i <= n,
            i <= m,
            a@.take(i as int) == b@.take(i as int),
        decreases n - i,
    {
        proof {
            assert(a@.take(i + 1) == a@.take(i as int).push(a@[i as int]));
            assert(b@.take(i + 1) == b@.take(i as int).push(b@[i as int]));
        }
        i = i + 1;
    }
    proof {
        lemma_lex_skip(a@, b@, i as int);
        lemma_lex_skip(b@, a@, i as int);
        lemma_lex_total(a@, b@);
        lemma_lex_irreflexive(a@);
    }
    if i == n && i == m {
        proof {
            assert(a@ == a@.take(i as int));
            assert(b@ == b@.take(i as int));
        }
        0
    } else if i == n {
        proof {
            assert(a@.skip(i as int).len() == 0);
            assert(b@.skip(i as int).len() > 0);
        }
        -1
    } else if i == m {
        proof {
            assert(b@.skip(i as int).len() == 0);
            assert(a@.skip(i as int).len() > 0);
        }
        1
    } else if a[i] < b[i] {
        proof {
            assert(a@.skip(i as int)[0] == a@[i as int]);
            assert(b@.skip(i as int)[0] == b@[i as int]);
        }
        -1
    } else {
        proof {
            assert(a@.skip(i as int)[0] == a@[i as int]);
            assert(b@.skip(i as int)[0] == b@[i as int]);
        }
        1
    }
}

pub proof fn lemma_upsert_at<V>(m: Seq<(Seq<u8>, V)>, name: Seq<u8>, bw: V, i: int)
    requires
        keys_sorted(m),
        0 <= i <= m.len(),
        forall|j: int| 0 <= j < i ==> lex_lt(#[trigger] m[j].0, name),
        i < m.len() ==> !lex_lt(m[i].0, name),
    ensures
        i < m.len() && m[i].0 == name ==> upsert(m, name, bw) == m.update(i, (name, bw)) && lookup(m, name) == Some(m[i].1),
        !(i < m.len() && m[i].0 == name) ==> upsert(m, name, bw) == m.insert(i, (name, bw)) && lookup(m, name) is None,
        keys_sorted(upsert(m, name, bw)),
    decreases m.len(),
{
    if m.len() == 0 {
        assert(m.insert(i, (name, bw)) == seq![(name, bw)]);
    } else if i > 0 {
        let rest = m.drop_first();
        assert forall|j: int| 0 <= j < i - 1 implies lex_lt(#[trigger] rest[j].0, name) by {
            assert(rest[j] == m[j + 1]);
        }
        assert forall|a: int, b: int| 0 <= a < b < rest.len() implies lex_lt(#[trigger] rest[a].0, #[trigger] rest[b].0) by {
            assert(rest[a] == m[a + 1] && rest[b] == m[b + 1]);
        }
        lemma_upsert_at(rest, name, bw, i - 1);
        assert(lex_lt(m[0].0, name));
        lemma_lex_irreflexive(name);
        assert(m[0].0 != name);
        if i < m.len() && m[i].0 == name {
            assert(m.update(i, (name, bw)) == seq![m[0]] + rest.update(i - 1, (name, bw)));
        } else {
            assert(m.insert(i, (name, bw)) == seq![m[0]] + rest.insert(i - 1, (name, bw)));
        }
        let u = upsert(m, name, bw);
        let ur = upsert(rest, name, bw);
        assert(u == seq![m[0]] + ur);
        assert forall|a: int, b: int| 0 <= a < b < u.len() implies lex_lt(#[trigger] u[a].0, #[trigger] u[b].0) by {
            if a == 0 {
                assert(u[b] == ur[b - 1]);
                // every key of ur is a key of rest or name; both come after m[0]
                if i < m.len() && m[i].0 == name {
                    assert(ur == rest.update(i - 1, (name, bw)));
                    if b - 1 == i - 1 {
                        assert(lex_lt(m[0].0, name));
                    } else {
                        assert(ur[b - 1] == rest[b - 1]);
                        assert(rest[b - 1] == m[b]);
                    }
                } else {
                    assert(ur == rest.insert(i - 1, (name, bw)));
                    if b - 1 < i - 1 {
                        assert(ur[b - 1] == rest[b - 1]);
                        assert(rest[b - 1] == m[b]);
                    } else if b - 1 == i - 1 {
                        assert(ur[b - 1] == (name, bw));
                    } else {
                        assert(ur[b - 1] == rest[b - 2]);
                        assert(rest[b - 2] == m[b - 1]);
                    }
                }
            } else {
                assert(u[a] == ur[a - 1]);
                assert(u[b] == ur[b - 1]);
            }
        }
    } else {
        // i == 0: name is at or before m[0]
        lemma_lex_total(m[0].0, name);
        if m[0].0 == name {
            assert(m.update(0, (name, bw)) == seq![(name, bw)] + m.drop_first());
            let u = upsert(m, name, bw);
            assert forall|a: int, b: int| 0 <= a < b < u.len() implies lex_lt(#[trigger] u[a].0, #[trigger] u[b].0) by {
                assert(lex_lt(m[a].0, m[b].0));
            }
        } else {
            assert(lex_lt(name, m[0].0));
            assert(m.insert(0, (name, bw)) == seq![(name, bw)] + m);
            let u = upsert(m, name, bw);
            assert forall|a: int, b: int| 0 <= a < b < u.len() implies lex_lt(#[trigger] u[a].0, #[trigger] u[b].0) by {
                if a == 0 {
                    if b - 1 > 0 {
                        lemma_lex_trans(name, m[0].0, m[b - 1].0);
                    }
                } else {
                    assert(lex_lt(m[a - 1].0, m[b - 1].0));
                }
            }
            assert forall|j: int| 0 <= j < m.len() implies m[j].0 != name by {
                if j > 0 {
                    lemma_lex_trans(name, m[0].0, m[j].0);
                }
                lemma_lex_irreflexive(name);
            }
            lemma_lookup_absent(m, name);
        }
    }
}

pub proof fn lemma_lookup_absent<V>(m: Seq<(Seq<u8>, V)>, name: Seq<u8>)
    requires
        forall|j: int| 0 <= j < m.len() ==> m[j].0 != name,
    ensures
        lookup(m, name) is None,
    decreases m.len(),
{
    if m.len() > 0 {
        assert forall|j: int| 0 <= j < m.drop_first().len() implies m.drop_first()[j].0 != name by {
            assert(m.drop_first()[j] == m[j + 1]);
        }
        lemma_lookup_absent(m.drop_first(), name);
    }
}

/// A copy of the bytes of `s` from `a` up to `b`.
pub fn copy_bytes(s: &[u8], a: usize, b: usize) -> (r: Vec<u8>)
    requires
        a <= b <= s@.len(),
    ensures
        r@ == s@.subrange(a as int, b as int),
{
    let mut v: Vec<u8> = Vec::new();
    let mut k: usize = a;
    while k < b
        invariant
            a <= k <= b <= s@.len(),
            v@ == s@.subrange(a as int, k as int),
        decreases b - k,
    {
        v.push(s[k]);
        proof {
            assert(s@.subrange(a as int, k + 1) == s@.subrange(a as int, k as int).push(s@[k as int]));
        }
        k = k + 1;
    }
    v
}

/// How many keys at the front of `m` come before `name`.
pub open spec fn keys_before<V>(m: Seq<(Seq<u8>, V)>, name: Seq<u8>) -> int
    decreases m.len(),
{
    if m.len() > 0 && lex_lt(m[0].0, name) {
        1 + keys_before(m.drop_first(), name)
    } else {
        0
    }
}

proof fn lemma_keys_before<V>(m: Seq<(Seq<u8>, V)>, name: Seq<u8>)
    ensures
        0 <= keys_before(m, name) <= m.len(),
        forall|j: int| 0 <= j < keys_before(m, name) ==> lex_lt(#[trigger] m[j].0, name),
        keys_before(m, name) < m.len() ==> !lex_lt(m[keys_before(m, name)].0, name),
    decreases m.len(),
{
    if m.len() > 0 && lex_lt(m[0].0, name) {
        let rest = m.drop_first();
        lemma_keys_before(rest, name);
        assert forall|j: int| 0 <= j < keys_before(m, name) implies lex_lt(#[trigger] m[j].0, name) by {
            if j > 0 {
                assert(m[j] == rest[j - 1]);
            }
        }
        if keys_before(m, name) < m.len() {
            assert(m[keys_before(m, name)] == rest[keys_before(rest, name)]);
        }
    }
}

/// Setting a name keeps a table in key order.
pub proof fn law_upsert_keeps_order<V>(m: Seq<(Seq<u8>, V)>, name: Seq<u8>, v: V)
    requires
        keys_sorted(m),
    ensures
        keys_sorted(upsert(m, name, v)),
{
    lemma_keys_before(m, name);
    lemma_upsert_at(m, name, v, keys_before(m, name));
}

/// After a name is set, looking it up gives what it was set to, and
/// looking up any other name gives what it gave before.
pub proof fn law_lookup_after_upsert<V>(m: Seq<(Seq<u8>, V)>, name: Seq<u8>, v: V, other: Seq<u8>)
    ensures
        lookup(upsert(m, name, v), name) == Some(v),
        other != name ==> lookup(upsert(m, name, v), other) == lookup(m, other),
    decreases m.len(),
{
    let u = upsert(m, name, v);
    if m.len() > 0 {
        let rest = m.drop_first();
        if lex_lt(m[0].0, name) {
            law_lookup_after_upsert(rest, name, v, other);
            lemma_lex_irreflexive(name);
            let ur = upsert(rest, name, v);
            assert(u == seq![m[0]] + ur);
            assert(u.drop_first() == ur);
            assert(u[0] == m[0]);
            assert(lookup(u, name) == lookup(ur, name));
            if other != name {
                if m[0].0 == other {
                    assert(lookup(u, other) == Some(m[0].1));
                } else {
                    assert(lookup(u, other) == lookup(ur, other));
                    assert(lookup(m, other) == lookup(rest, other));
                }
            }
        } else if m[0].0 == name {
            assert(u == seq![(name, v)] + rest);
            assert(u.drop_first() == rest);
            assert(u[0] == (name, v));
            if other != name {
                assert(lookup(u, other) == lookup(rest, other));
                assert(lookup(m, other) == lookup(rest, other));
            }
        } else {
            assert(u == seq![(name, v)] + m);
            assert(u.drop_first() == m);
            assert(u[0] == (name, v));
            if other != name {
                assert(lookup(u, other) == lookup(m, other));
            }
        }
    } else {
        assert(u == seq![(name, v)]);
        assert(u[0] == (name, v));
        assert(u.drop_first().len() == 0);
        if other != name {
            assert(lookup(u, other) == lookup(u.drop_first(), other));
        }
    }
}

} // verus!
