//! The notes that sound while a track is written out: a note of XMI carries
//! its duration, and a note-off has to be written once that much time has
//! passed.

use vstd::prelude::*;

verus! {

/// A sounding note: its key, the ticks it has left, and its channel.
pub type Note = (u8, u32, u8);

/// `n` inserted into `s` after the longest suffix of `s` whose notes have
/// more ticks left than `n`: one step of a stable insertion sort.
pub open spec fn insert_note(s: Seq<Note>, n: Note) -> Seq<Note>
    decreases s.len(),
{
    if s.len() == 0 {
        seq![n]
    } else if s.last().1 <= n.1 {
        s.push(n)
    } else {
        insert_note(s.drop_last(), n).push(s.last())
    }
}

/// The notes ordered by ticks left, notes with equal ticks in their order in
/// `s` (the stable sort).
pub open spec fn sort_notes(s: Seq<Note>) -> Seq<Note>
    decreases s.len(),
{
    if s.len() == 0 {
        s
    } else {
        insert_note(sort_notes(s.drop_last()), s.last())
    }
}

/// Whether the notes are ordered by ticks left.
pub open spec fn notes_sorted(s: Seq<Note>) -> bool {
    forall|i: int, j: int| 0 <= i <= j < s.len() ==> s[i].1 <= s[j].1
}

/// `insert_note` puts `n` at `k`, where the notes after `k` are exactly the
/// trailing ones with more ticks left than `n`.
proof fn lemma_insert_note_at(s: Seq<Note>, n: Note, k: int)
    requires
        0 <= k <= s.len(),
        forall|t: int| k <= t < s.len() ==> s[t].1 > n.1,
        k == 0 || s[k - 1].1 <= n.1,
    ensures
        insert_note(s, n) == s.take(k) + seq![n] + s.skip(k),
    decreases s.len(),
{
    if s.len() == 0 {
        assert(s.take(k) + seq![n] + s.skip(k) =~= seq![n]);
    } else if s.last().1 <= n.1 {
        assert(k == s.len());
        assert(s.take(k) + seq![n] + s.skip(k) =~= s.push(n));
    } else {
        lemma_insert_note_at(s.drop_last(), n, k);
        assert(s.drop_last().take(k) + seq![n] + s.drop_last().skip(k) + seq![s.last()]
            =~= s.take(k) + seq![n] + s.skip(k));
    }
}

proof fn lemma_insert_note_len(s: Seq<Note>, n: Note)
    ensures
        insert_note(s, n).len() == s.len() + 1,
    decreases s.len(),
{
    if s.len() > 0 && s.last().1 > n.1 {
        lemma_insert_note_len(s.drop_last(), n);
    }
}

proof fn lemma_insert_note_sorted(s: Seq<Note>, n: Note)
    requires
        notes_sorted(s),
    ensures
        notes_sorted(insert_note(s, n)),
    decreases s.len(),
{
    if s.len() > 0 && s.last().1 > n.1 {
        lemma_insert_note_sorted(s.drop_last(), n);
        lemma_insert_note_len(s.drop_last(), n);
        let r = insert_note(s.drop_last(), n);
        // every note of r is a note of s.drop_last() or n, all no later than s.last()
        assert forall|i: int| 0 <= i < s.drop_last().len() implies s.drop_last()[i].1
            <= s.last().1 by {
            assert(s.drop_last()[i] == s[i]);
        }
        lemma_insert_note_bounded(s.drop_last(), n, s.last().1);
        assert forall|i: int, j: int| 0 <= i <= j < r.push(s.last()).len() implies r.push(
            s.last(),
        )[i].1 <= r.push(s.last())[j].1 by {
            if j == r.len() && i < r.len() {
                assert(r[i].1 <= s.last().1);
            }
        }
    }
}

proof fn lemma_insert_note_bounded(s: Seq<Note>, n: Note, b: u32)
    requires
        forall|i: int| 0 <= i < s.len() ==> s[i].1 <= b,
        n.1 <= b,
    ensures
        forall|i: int| 0 <= i < insert_note(s, n).len() ==> insert_note(s, n)[i].1 <= b,
    decreases s.len(),
{
    if s.len() == 0 {
        assert(insert_note(s, n) =~= seq![n]);
    } else if s.last().1 <= n.1 {
        assert(insert_note(s, n) =~= s.push(n));
    } else {
        let t = s.drop_last();
        assert forall|i: int| 0 <= i < t.len() implies t[i].1 <= b by {
            assert(t[i] == s[i]);
        }
        lemma_insert_note_bounded(t, n, b);
        let r = insert_note(t, n);
        assert(insert_note(s, n) =~= r.push(s.last()));
        assert forall|i: int| 0 <= i < insert_note(s, n).len() implies insert_note(s, n)[i].1
            <= b by {
            if i < r.len() {
                assert(insert_note(s, n)[i] == r[i]);
            }
        }
    }
}

/// Inserting a note keeps a property that every note has.
pub(crate) proof fn lemma_insert_note_all(s: Seq<Note>, n: Note, p: spec_fn(Note) -> bool)
    requires
        forall|i: int| 0 <= i < s.len() ==> p(#[trigger] s[i]),
        p(n),
    ensures
        forall|i: int| 0 <= i < insert_note(s, n).len() ==> p(#[trigger] insert_note(s, n)[i]),
    decreases s.len(),
{
    if s.len() == 0 {
        assert(insert_note(s, n) =~= seq![n]);
    } else if s.last().1 <= n.1 {
        assert(insert_note(s, n) =~= s.push(n));
        assert forall|i: int| 0 <= i < insert_note(s, n).len() implies p(#[trigger] insert_note(s, n)[i]) by {
            if i < s.len() {
                assert(insert_note(s, n)[i] == s[i]);
            }
        }
    } else {
        let t = s.drop_last();
        assert forall|i: int| 0 <= i < t.len() implies p(#[trigger] t[i]) by {
            assert(t[i] == s[i]);
        }
        lemma_insert_note_all(t, n, p);
        let r = insert_note(t, n);
        assert(insert_note(s, n) =~= r.push(s.last()));
        assert(p(s[s.len() - 1]));
        assert forall|i: int| 0 <= i < insert_note(s, n).len() implies p(#[trigger] insert_note(s, n)[i]) by {
            if i < r.len() {
                assert(insert_note(s, n)[i] == r[i]);
            }
        }
    }
}

/// Sorting keeps a property that every note has.
pub(crate) proof fn lemma_sort_notes_all(s: Seq<Note>, p: spec_fn(Note) -> bool)
    requires
        forall|i: int| 0 <= i < s.len() ==> p(#[trigger] s[i]),
    ensures
        forall|i: int| 0 <= i < sort_notes(s).len() ==> p(#[trigger] sort_notes(s)[i]),
    decreases s.len(),
{
    if s.len() > 0 {
        let t = s.drop_last();
        assert forall|i: int| 0 <= i < t.len() implies p(#[trigger] t[i]) by {
            assert(t[i] == s[i]);
        }
        lemma_sort_notes_all(t, p);
        assert(p(s[s.len() - 1]));
        lemma_insert_note_all(sort_notes(t), s.last(), p);
    }
}

/// Whether no two notes share a key and a channel.
pub open spec fn distinct_keys(s: Seq<Note>) -> bool {
    forall|x: int, y: int|
        0 <= x < y < s.len() ==> (#[trigger] s[x]).0 != (#[trigger] s[y]).0 || s[x].2 != s[y].2
}

proof fn lemma_insert_note_distinct(s: Seq<Note>, n: Note)
    requires
        distinct_keys(s),
        forall|x: int| 0 <= x < s.len() ==> (#[trigger] s[x]).0 != n.0 || s[x].2 != n.2,
    ensures
        distinct_keys(insert_note(s, n)),
    decreases s.len(),
{
    if s.len() == 0 {
        assert(insert_note(s, n) =~= seq![n]);
    } else if s.last().1 <= n.1 {
        let r = s.push(n);
        assert(insert_note(s, n) =~= r);
        assert forall|x: int, y: int| 0 <= x < y < r.len() implies (#[trigger] r[x]).0 != (#[trigger] r[y]).0
            || r[x].2 != r[y].2 by {
            assert(r[x] == s[x]);
            if y < s.len() {
                assert(r[y] == s[y]);
            }
        }
    } else {
        let t = s.drop_last();
        let l = s.last();
        assert forall|x: int, y: int| 0 <= x < y < t.len() implies (#[trigger] t[x]).0 != (#[trigger] t[y]).0
            || t[x].2 != t[y].2 by {
            assert(t[x] == s[x] && t[y] == s[y]);
        }
        assert forall|x: int| 0 <= x < t.len() implies (#[trigger] t[x]).0 != n.0 || t[x].2 != n.2 by {
            assert(t[x] == s[x]);
        }
        lemma_insert_note_distinct(t, n);
        let p = |m: Note| m.0 != l.0 || m.2 != l.2;
        assert forall|x: int| 0 <= x < t.len() implies p(#[trigger] t[x]) by {
            assert(t[x] == s[x]);
            assert(s[s.len() - 1] == l);
        }
        assert(s[s.len() - 1] == l);
        lemma_insert_note_all(t, n, p);
        let r = insert_note(t, n);
        let w = r.push(l);
        assert(insert_note(s, n) =~= w);
        assert forall|x: int, y: int| 0 <= x < y < w.len() implies (#[trigger] w[x]).0 != (#[trigger] w[y]).0
            || w[x].2 != w[y].2 by {
            assert(w[x] == r[x]);
            if y < r.len() {
                assert(w[y] == r[y]);
            } else {
                assert(p(r[x]));
            }
        }
    }
}

/// Sorting keeps notes of distinct keys and channels distinct.
pub(crate) proof fn lemma_sort_notes_distinct(s: Seq<Note>)
    requires
        distinct_keys(s),
    ensures
        distinct_keys(sort_notes(s)),
    decreases s.len(),
{
    if s.len() > 0 {
        let t = s.drop_last();
        let l = s.last();
        assert forall|x: int, y: int| 0 <= x < y < t.len() implies (#[trigger] t[x]).0 != (#[trigger] t[y]).0
            || t[x].2 != t[y].2 by {
            assert(t[x] == s[x] && t[y] == s[y]);
        }
        lemma_sort_notes_distinct(t);
        let p = |m: Note| m.0 != l.0 || m.2 != l.2;
        assert forall|x: int| 0 <= x < t.len() implies p(#[trigger] t[x]) by {
            assert(t[x] == s[x]);
            assert(s[s.len() - 1] == l);
        }
        lemma_sort_notes_all(t, p);
        assert forall|x: int| 0 <= x < sort_notes(t).len() implies (#[trigger] sort_notes(t)[x]).0 != l.0
            || sort_notes(t)[x].2 != l.2 by {
            assert(p(sort_notes(t)[x]));
        }
        lemma_insert_note_distinct(sort_notes(t), l);
    }
}

/// Sorting keeps the count of notes and orders them by ticks left.
pub proof fn lemma_sort_notes(s: Seq<Note>)
    ensures
        sort_notes(s).len() == s.len(),
        notes_sorted(sort_notes(s)),
    decreases s.len(),
{
    if s.len() > 0 {
        lemma_sort_notes(s.drop_last());
        lemma_insert_note_len(sort_notes(s.drop_last()), s.last());
        lemma_insert_note_sorted(sort_notes(s.drop_last()), s.last());
    }
}

/// Orders the notes by ticks left, stably.
pub fn sort_notes_in_place(v: &mut Vec<Note>)
    ensures
        final(v)@ == sort_notes(old(v)@),
{
    let ghost orig = v@;
    let n = v.len();
    let mut i: usize = 0;
    while i < n
        invariant
            i <= n == v@.len() == orig.len(),
            v@.take(i as int) == sort_notes(orig.take(i as int)),
            v@.skip(i as int) == orig.skip(i as int),
        decreases n - i,
    {
        let x = v[i];
        let ghost s = v@.take(i as int);
        assert(x == orig[i as int]) by {
            assert(v@.skip(i as int)[0] == v@[i as int]);
        }
        let mut j = i;
        assert(v@.skip(i as int + 1) =~= orig.skip(i as int + 1)) by {
            assert forall|t: int| 0 <= t < v@.skip(i as int + 1).len() implies #[trigger] v@.skip(
                i as int + 1,
            )[t] == orig.skip(i as int + 1)[t] by {
                assert(v@.skip(i as int)[t + 1] == orig.skip(i as int)[t + 1]);
            }
        }
        assert(v@.subrange(j as int + 1, i as int + 1) =~= s.subrange(j as int, i as int));
        while j > 0 && v[j - 1].1 > x.1
            invariant
                j <= i < n == v@.len(),
                s.len() == i,
                v@.take(j as int) == s.take(j as int),
                v@.subrange(j as int + 1, i as int + 1) == s.subrange(j as int, i as int),
                v@.skip(i as int + 1) == orig.skip(i as int + 1),
                forall|t: int| j <= t < i ==> s[t].1 > x.1,
            decreases j,
        {
            let ghost before = v@;
            let y = v[j - 1];
            v[j] = y;
            j -= 1;
            proof {
                assert(v@.take(j as int) =~= s.take(j as int)) by {
                    assert(before.take(j as int + 1).take(j as int) =~= before.take(j as int));
                }
                assert(y == s[j as int]) by {
                    assert(before.take(j as int + 1)[j as int] == before[j as int]);
                }
                assert forall|t: int| j + 1 <= t < i + 1 implies #[trigger] v@[t] == s[t - 1] by {
                    if t > j + 1 {
                        assert(before.subrange(j as int + 2, i as int + 1)[t - j - 2] == s.subrange(
                            j as int + 1,
                            i as int,
                        )[t - j - 2]);
                    }
                }
                assert(v@.subrange(j as int + 1, i as int + 1) =~= s.subrange(j as int, i as int));
                assert forall|t: int| 0 <= t < v@.skip(i as int + 1).len() implies #[trigger] v@.skip(
                    i as int + 1,
                )[t] == orig.skip(i as int + 1)[t] by {
                    assert(before.skip(i as int + 1)[t] == orig.skip(i as int + 1)[t]);
                }
                assert(v@.skip(i as int + 1) =~= orig.skip(i as int + 1));
            }
        }
        let ghost before = v@;
        proof {
            if j > 0 {
                assert(before[j - 1] == before.take(j as int)[j - 1]);
            }
        }
        v[j] = x;
        proof {
            lemma_insert_note_at(s, x, j as int);
            assert(orig.take(i as int + 1).drop_last() =~= orig.take(i as int));
            assert(orig.take(i as int + 1).last() == x);
            assert(v@.take(i as int + 1) =~= s.take(j as int) + seq![x] + s.skip(j as int)) by {
                assert forall|t: int| 0 <= t < i + 1 implies v@.take(i as int + 1)[t] == (s.take(
                    j as int,
                ) + seq![x] + s.skip(j as int))[t] by {
                    if t < j {
                        assert(before.take(j as int)[t] == s.take(j as int)[t]);
                    } else if t > j {
                        assert(before.subrange(j as int + 1, i as int + 1)[t - j - 1] == s.subrange(
                            j as int,
                            i as int,
                        )[t - j - 1]);
                    }
                }
            }
            assert(v@.skip(i as int + 1) =~= orig.skip(i as int + 1)) by {
                assert forall|t: int| 0 <= t < v@.skip(i as int + 1).len() implies #[trigger] v@.skip(
                    i as int + 1,
                )[t] == orig.skip(i as int + 1)[t] by {
                    assert(before.skip(i as int + 1)[t] == orig.skip(i as int + 1)[t]);
                }
            }
        }
        i += 1;
    }
    assert(v@ =~= v@.take(n as int));
    assert(orig =~= orig.take(n as int));
}

} // verus!
