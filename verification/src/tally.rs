//! Counting texts by value, listed in text order (as a `BTreeMap<String,
//! usize>` walks them).
use vstd::prelude::*;

use crate::text::{chars_of, seq_eq};

verus! {

/// `String`'s order: lexicographic by character.
pub open spec fn text_lt(a: Seq<char>, b: Seq<char>) -> bool
    decreases a.len(),
{
    if a.len() == 0 {
        b.len() > 0
    } else if b.len() == 0 {
        false
    } else if a[0] != b[0] {
        (a[0] as u32) < (b[0] as u32)
    } else {
        text_lt(a.drop_first(), b.drop_first())
    }
}

pub proof fn lemma_text_lt_irreflexive(a: Seq<char>)
    ensures
        !text_lt(a, a),
    decreases a.len(),
{
    if a.len() > 0 {
        lemma_text_lt_irreflexive(a.drop_first());
    }
}

pub proof fn lemma_text_lt_total(a: Seq<char>, b: Seq<char>)
    ensures
        a == b || text_lt(a, b) || text_lt(b, a),
    decreases a.len(),
{
    if a.len() > 0 && b.len() > 0 && a[0] == b[0] {
        lemma_text_lt_total(a.drop_first(), b.drop_first());
        if a.drop_first() == b.drop_first() {
            assert(a =~= seq![a[0]] + a.drop_first());
            assert(b =~= seq![b[0]] + b.drop_first());
        }
    } else if a.len() == 0 && b.len() == 0 {
        assert(a =~= b);
    } else if a.len() > 0 && b.len() > 0 {
        let x = a[0] as u32;
        let y = b[0] as u32;
        assert(x != y) by {
            vstd::utf8::char_u32_cast(a[0], x);
            vstd::utf8::char_u32_cast(b[0], y);
        }
    }
}

pub proof fn lemma_text_lt_asymmetric(a: Seq<char>, b: Seq<char>)
    requires
        text_lt(a, b),
    ensures
        !text_lt(b, a),
    decreases a.len(),
{
    if a.len() > 0 && b.len() > 0 && a[0] == b[0] {
        lemma_text_lt_asymmetric(a.drop_first(), b.drop_first());
    }
}

pub proof fn lemma_text_lt_transitive(a: Seq<char>, b: Seq<char>, c: Seq<char>)
    requires
        text_lt(a, b),
        text_lt(b, c),
    ensures
        text_lt(a, c),
    decreases a.len(),
{
    if a.len() > 0 && b.len() > 0 && c.len() > 0 && a[0] == b[0] && b[0] == c[0] {
        lemma_text_lt_transitive(a.drop_first(), b.drop_first(), c.drop_first());
    }
}

/// Whether `a < b` (executable).
pub fn text_less(a: &[char], b: &[char]) -> (r: bool)
    ensures
        r == text_lt(a@, b@),
{
    let mut i: usize = 0;
    assert(a@.skip(0) =~= a@);
    assert(b@.skip(0) =~= b@);
    while i < a.len() && i < b.len()
        invariant
            i <= a@.len(),
            i <= b@.len(),
            text_lt(a@, b@) == text_lt(a@.skip(i as int), b@.skip(i as int)),
        decreases a@.len() - i,
    {
        let ghost sa = a@.skip(i as int);
        let ghost sb = b@.skip(i as int);
        assert(sa[0] == a@[i as int]);
        assert(sb[0] == b@[i as int]);
        if a[i] != b[i] {
            return (a[i] as u32) < (b[i] as u32);
        }
        assert(sa.drop_first() =~= a@.skip(i + 1));
        assert(sb.drop_first() =~= b@.skip(i + 1));
        i += 1;
    }
    b.len() > i
}

/// A tally with one more occurrence of `k`: its count goes up, or it is
/// placed before the first larger text.
pub open spec fn tally_insert(t: Seq<(Seq<char>, nat)>, k: Seq<char>) -> Seq<(Seq<char>, nat)>
    decreases t.len(),
{
    if t.len() == 0 {
        seq![(k, 1nat)]
    } else if t[0].0 == k {
        seq![(k, t[0].1 + 1)] + t.drop_first()
    } else if text_lt(k, t[0].0) {
        seq![(k, 1nat)] + t
    } else {
        seq![t[0]] + tally_insert(t.drop_first(), k)
    }
}

/// The distinct texts of `keys` in text order, each with how often it occurs.
pub open spec fn tally_of(keys: Seq<Seq<char>>) -> Seq<(Seq<char>, nat)>
    decreases keys.len(),
{
    if keys.len() == 0 {
        seq![]
    } else {
        tally_insert(tally_of(keys.drop_last()), keys.last())
    }
}

/// How often `k` occurs in `keys`.
pub open spec fn occurrences(keys: Seq<Seq<char>>, k: Seq<char>) -> nat
    decreases keys.len(),
{
    if keys.len() == 0 {
        0
    } else {
        occurrences(keys.drop_last(), k) + if keys.last() == k {
            1nat
        } else {
            0nat
        }
    }
}

pub open spec fn tally_view(v: Seq<(String, usize)>) -> Seq<(Seq<char>, nat)> {
    v.map_values(|e: (String, usize)| (e.0@, e.1 as nat))
}

pub open spec fn counts_below(t: Seq<(Seq<char>, nat)>, n: nat) -> bool {
    forall|i: int| 0 <= i < t.len() ==> t[i].1 <= n
}

pub proof fn lemma_tally_insert_counts(t: Seq<(Seq<char>, nat)>, k: Seq<char>, n: nat)
    requires
        counts_below(t, n),
    ensures
        counts_below(tally_insert(t, k), n + 1),
    decreases t.len(),
{
    if t.len() > 0 && t[0].0 != k && !text_lt(k, t[0].0) {
        lemma_tally_insert_counts(t.drop_first(), k, n);
        let r = tally_insert(t, k);
        assert forall|i: int| 0 <= i < r.len() implies r[i].1 <= n + 1 by {
            if i > 0 {
                assert(r[i] == tally_insert(t.drop_first(), k)[i - 1]);
            }
        }
    } else if t.len() > 0 {
        let r = tally_insert(t, k);
        assert forall|i: int| 0 <= i < r.len() implies r[i].1 <= n + 1 by {
            if i > 0 && t[0].0 == k {
                assert(r[i] == t[i]);
            }
            if i > 0 && t[0].0 != k {
                assert(r[i] == t[i - 1]);
            }
        }
    }
}

/// Adds one occurrence of `k` to a tally kept as a vector.
pub fn tally_add(t: &mut Vec<(String, usize)>, k: &str)
    requires
        forall|i: int| 0 <= i < old(t)@.len() ==> old(t)@[i].1 < usize::MAX,
    ensures
        tally_view(final(t)@) == tally_insert(tally_view(old(t)@), k@),
{
    let kv = chars_of(k);
    let ghost orig = tally_view(t@);
    let mut i: usize = 0;
    assert(orig.skip(0) =~= orig);
    while i < t.len()
        invariant
            i <= t@.len(),
            t@ == old(t)@,
            orig == tally_view(t@),
            kv@ == k@,
            tally_insert(orig, k@) == orig.take(i as int) + tally_insert(orig.skip(i as int), k@),
            forall|m: int| 0 <= m < t@.len() ==> t@[m].1 < usize::MAX,
        decreases t@.len() - i,
    {
        let ghost rest = orig.skip(i as int);
        assert(rest[0] == (t@[i as int].0@, t@[i as int].1 as nat));
        let name = chars_of(t[i].0.as_str());
        if seq_eq(name.as_slice(), kv.as_slice()) {
            let c = t[i].1;
            t[i].1 = c + 1;
            assert(tally_view(t@) =~= orig.take(i as int) + (seq![(k@, rest[0].1 + 1)] + rest.drop_first()));
            return;
        }
        if text_less(kv.as_slice(), name.as_slice()) {
            t.insert(i, (k.to_owned(), 1));
            assert(tally_view(t@) =~= orig.take(i as int) + (seq![(k@, 1nat)] + rest));
            return;
        }
        assert(rest.drop_first() =~= orig.skip(i + 1));
        assert(orig.take(i + 1) =~= orig.take(i as int) + seq![rest[0]]);
        i += 1;
    }
    assert(orig.skip(t@.len() as int) =~= Seq::<(Seq<char>, nat)>::empty());
    assert(orig.take(t@.len() as int) =~= orig);
    t.push((k.to_owned(), 1));
    assert(tally_view(t@) =~= orig + seq![(k@, 1nat)]);
}

// ---------------------------------------------------------------------------
// What a tally holds
// ---------------------------------------------------------------------------

/// Each text of the tally comes before the next in text order (so none
/// occurs twice).
pub open spec fn strictly_sorted(t: Seq<(Seq<char>, nat)>) -> bool {
    forall|i: int, j: int| 0 <= i < j < t.len() ==> text_lt(t[i].0, t[j].0)
}

/// The count a tally gives `x` (the counts of all its entries for `x`).
pub open spec fn tally_count(t: Seq<(Seq<char>, nat)>, x: Seq<char>) -> nat
    decreases t.len(),
{
    if t.len() == 0 {
        0
    } else {
        (if t[0].0 == x {
            t[0].1
        } else {
            0nat
        }) + tally_count(t.drop_first(), x)
    }
}

/// The sum of a tally's counts.
pub open spec fn tally_total(t: Seq<(Seq<char>, nat)>) -> nat
    decreases t.len(),
{
    if t.len() == 0 {
        0
    } else {
        t[0].1 + tally_total(t.drop_first())
    }
}

proof fn lemma_insert_keeps_bound(t: Seq<(Seq<char>, nat)>, k: Seq<char>, b: Seq<char>)
    requires
        forall|i: int| 0 <= i < t.len() ==> text_lt(b, #[trigger] t[i].0),
        text_lt(b, k),
    ensures
        forall|i: int| 0 <= i < tally_insert(t, k).len() ==> text_lt(b, #[trigger] tally_insert(t, k)[i].0),
    decreases t.len(),
{
    let r = tally_insert(t, k);
    if t.len() == 0 {
    } else if t[0].0 == k {
        assert forall|i: int| 0 <= i < r.len() implies text_lt(b, #[trigger] r[i].0) by {
            if i > 0 {
                assert(r[i] == t[i]);
            }
        }
    } else if text_lt(k, t[0].0) {
        assert forall|i: int| 0 <= i < r.len() implies text_lt(b, #[trigger] r[i].0) by {
            if i > 0 {
                assert(r[i] == t[i - 1]);
            }
        }
    } else {
        let rest = t.drop_first();
        assert forall|i: int| 0 <= i < rest.len() implies text_lt(b, #[trigger] rest[i].0) by {
            assert(rest[i] == t[i + 1]);
        }
        lemma_insert_keeps_bound(rest, k, b);
        assert forall|i: int| 0 <= i < r.len() implies text_lt(b, #[trigger] r[i].0) by {
            if i > 0 {
                assert(r[i] == tally_insert(rest, k)[i - 1]);
            }
        }
    }
}

proof fn lemma_insert_sorted(t: Seq<(Seq<char>, nat)>, k: Seq<char>)
    requires
        strictly_sorted(t),
    ensures
        strictly_sorted(tally_insert(t, k)),
    decreases t.len(),
{
    let r = tally_insert(t, k);
    if t.len() == 0 {
    } else if t[0].0 == k {
        assert forall|i: int, j: int| 0 <= i < j < r.len() implies text_lt(r[i].0, r[j].0) by {
            assert(r[j] == t[j]);
            if i > 0 {
                assert(r[i] == t[i]);
            }
        }
    } else if text_lt(k, t[0].0) {
        assert forall|i: int, j: int| 0 <= i < j < r.len() implies text_lt(r[i].0, r[j].0) by {
            assert(r[j] == t[j - 1]);
            if i > 0 {
                assert(r[i] == t[i - 1]);
            } else if j - 1 > 0 {
                lemma_text_lt_transitive(k, t[0].0, t[j - 1].0);
            }
        }
    } else {
        let rest = t.drop_first();
        assert(strictly_sorted(rest)) by {
            assert forall|i: int, j: int| 0 <= i < j < rest.len() implies text_lt(rest[i].0, rest[j].0) by {
                assert(rest[i] == t[i + 1]);
                assert(rest[j] == t[j + 1]);
            }
        }
        lemma_insert_sorted(rest, k);
        lemma_text_lt_total(k, t[0].0);
        assert forall|i: int| 0 <= i < rest.len() implies text_lt(t[0].0, #[trigger] rest[i].0) by {
            assert(rest[i] == t[i + 1]);
        }
        lemma_insert_keeps_bound(rest, k, t[0].0);
        let ri = tally_insert(rest, k);
        assert forall|i: int, j: int| 0 <= i < j < r.len() implies text_lt(r[i].0, r[j].0) by {
            assert(r[j] == ri[j - 1]);
            if i > 0 {
                assert(r[i] == ri[i - 1]);
            }
        }
    }
}

proof fn lemma_insert_count(t: Seq<(Seq<char>, nat)>, k: Seq<char>, x: Seq<char>)
    ensures
        tally_count(tally_insert(t, k), x) == tally_count(t, x) + (if x == k {
            1nat
        } else {
            0nat
        }),
        tally_total(tally_insert(t, k)) == tally_total(t) + 1,
    decreases t.len(),
{
    let r = tally_insert(t, k);
    if t.len() == 0 {
        assert(r.drop_first() =~= Seq::<(Seq<char>, nat)>::empty());
        assert(r[0] == (k, 1nat));
    } else if t[0].0 == k {
        assert(r.drop_first() =~= t.drop_first());
        assert(r[0] == (k, t[0].1 + 1));
    } else if text_lt(k, t[0].0) {
        assert(r.drop_first() =~= t);
        assert(r[0] == (k, 1nat));
    } else {
        lemma_insert_count(t.drop_first(), k, x);
        assert(r.drop_first() =~= tally_insert(t.drop_first(), k));
        assert(r[0] == t[0]);
    }
    assert(tally_count(r, x) == (if r[0].0 == x {
        r[0].1
    } else {
        0nat
    }) + tally_count(r.drop_first(), x));
    assert(tally_total(r) == r[0].1 + tally_total(r.drop_first()));
}

proof fn lemma_insert_positive(t: Seq<(Seq<char>, nat)>, k: Seq<char>)
    requires
        forall|i: int| 0 <= i < t.len() ==> #[trigger] t[i].1 >= 1,
    ensures
        forall|i: int| 0 <= i < tally_insert(t, k).len() ==> #[trigger] tally_insert(t, k)[i].1 >= 1,
    decreases t.len(),
{
    let r = tally_insert(t, k);
    if t.len() > 0 && t[0].0 != k && !text_lt(k, t[0].0) {
        let rest = t.drop_first();
        assert forall|i: int| 0 <= i < rest.len() implies #[trigger] rest[i].1 >= 1 by {
            assert(rest[i] == t[i + 1]);
        }
        lemma_insert_positive(rest, k);
        assert forall|i: int| 0 <= i < r.len() implies #[trigger] r[i].1 >= 1 by {
            if i > 0 {
                assert(r[i] == tally_insert(rest, k)[i - 1]);
            }
        }
    } else if t.len() > 0 {
        assert forall|i: int| 0 <= i < r.len() implies #[trigger] r[i].1 >= 1 by {
            if i > 0 && t[0].0 == k {
                assert(r[i] == t[i]);
            }
            if i > 0 && t[0].0 != k {
                assert(r[i] == t[i - 1]);
            }
        }
    }
}

/// In a strictly sorted tally, the count of an entry's text is that entry's
/// count.
pub proof fn lemma_sorted_entry_count(t: Seq<(Seq<char>, nat)>, i: int)
    requires
        strictly_sorted(t),
        0 <= i < t.len(),
    ensures
        tally_count(t, t[i].0) == t[i].1,
    decreases t.len(),
{
    let rest = t.drop_first();
    assert(strictly_sorted(rest)) by {
        assert forall|a: int, b: int| 0 <= a < b < rest.len() implies text_lt(rest[a].0, rest[b].0) by {
            assert(rest[a] == t[a + 1]);
            assert(rest[b] == t[b + 1]);
        }
    }
    if i == 0 {
        lemma_absent_count(rest, t[0].0);
    } else {
        assert(rest[i - 1] == t[i]);
        lemma_sorted_entry_count(rest, i - 1);
        assert(text_lt(t[0].0, t[i].0));
        lemma_text_lt_irreflexive(t[0].0);
    }
}

proof fn lemma_absent_count(t: Seq<(Seq<char>, nat)>, x: Seq<char>)
    requires
        forall|i: int| 0 <= i < t.len() ==> text_lt(x, #[trigger] t[i].0),
    ensures
        tally_count(t, x) == 0,
    decreases t.len(),
{
    if t.len() > 0 {
        lemma_text_lt_irreflexive(x);
        let rest = t.drop_first();
        assert forall|i: int| 0 <= i < rest.len() implies text_lt(x, #[trigger] rest[i].0) by {
            assert(rest[i] == t[i + 1]);
        }
        lemma_absent_count(rest, x);
    }
}

/// A tally of some texts lists each text that occurs once, in strictly
/// increasing text order, with how often it occurs; its counts add up to the
/// number of texts.
pub proof fn lemma_tally_of(keys: Seq<Seq<char>>)
    ensures
        strictly_sorted(tally_of(keys)),
        forall|x: Seq<char>| tally_count(tally_of(keys), x) == occurrences(keys, x),
        forall|i: int| 0 <= i < tally_of(keys).len() ==> #[trigger] tally_of(keys)[i].1 >= 1,
        forall|i: int| 0 <= i < tally_of(keys).len() ==> #[trigger] tally_of(keys)[i].1 == occurrences(
            keys,
            tally_of(keys)[i].0,
        ),
        tally_total(tally_of(keys)) == keys.len(),
    decreases keys.len(),
{
    if keys.len() > 0 {
        let prev = keys.drop_last();
        lemma_tally_of(prev);
        lemma_insert_sorted(tally_of(prev), keys.last());
        lemma_insert_positive(tally_of(prev), keys.last());
        assert forall|x: Seq<char>| tally_count(tally_of(keys), x) == occurrences(keys, x) by {
            lemma_insert_count(tally_of(prev), keys.last(), x);
            assert(tally_of(keys) == tally_insert(tally_of(prev), keys.last()));
            assert(occurrences(keys, x) == occurrences(prev, x) + if keys.last() == x {
                1nat
            } else {
                0nat
            });
        }
        lemma_insert_count(tally_of(prev), keys.last(), keys.last());
    }
    let t = tally_of(keys);
    assert forall|i: int| 0 <= i < t.len() implies #[trigger] t[i].1 == occurrences(keys, t[i].0) by {
        lemma_sorted_entry_count(t, i);
    }
}

} // verus!
