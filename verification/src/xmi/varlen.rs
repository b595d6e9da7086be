//! The variable-length quantities of MIDI: written with any number of
//! seven-bit groups, read back (as XMI stores them) from at most three bytes.

use vstd::prelude::*;

verus! {

/// The leading bytes of the encoding of `n * 128 + r`: every group of seven
/// bits above the lowest, most significant first, each with its high bit set.
pub open spec fn vlq_prefix(n: nat) -> Seq<u8>
    decreases n,
{
    if n == 0 {
        Seq::empty()
    } else {
        vlq_prefix(n / 128) + seq![((n % 128) + 128) as u8]
    }
}

/// The variable-length encoding of `n`: big-endian seven-bit groups, the last
/// one with a clear high bit, no leading empty group.
pub open spec fn vlq(n: nat) -> Seq<u8> {
    vlq_prefix(n / 128) + seq![(n % 128) as u8]
}

/// The number that big-endian seven-bit groups stand for: each byte's low
/// seven bits, most significant first.
pub open spec fn vlq_value(s: Seq<u8>) -> nat
    decreases s.len(),
{
    if s.len() == 0 {
        0
    } else {
        vlq_value(s.drop_last()) * 128 + (s.last() % 128) as nat
    }
}

/// `128` to the power `k`.
pub open spec fn pow128(k: nat) -> nat
    decreases k,
{
    if k == 0 {
        1
    } else {
        128 * pow128((k - 1) as nat)
    }
}

proof fn lemma_vlq_prefix(m: nat, k: nat)
    requires
        m < pow128(k),
    ensures
        vlq_prefix(m).len() <= k,
        forall|i: int| 0 <= i < vlq_prefix(m).len() ==> vlq_prefix(m)[i] >= 128,
        m > 0 ==> vlq_prefix(m).len() > 0 && vlq_prefix(m)[0] % 128 != 0,
        m == 0 ==> vlq_prefix(m).len() == 0,
        vlq_value(vlq_prefix(m)) == m,
    decreases m,
{
    if m > 0 {
        let q = m / 128;
        let b = ((m % 128) + 128) as u8;
        assert(k > 0);
        assert(q < pow128((k - 1) as nat)) by (nonlinear_arith)
            requires
                m < 128 * pow128((k - 1) as nat),
                q == m / 128,
        ;
        lemma_vlq_prefix(q, (k - 1) as nat);
        let p = vlq_prefix(q);
        assert(vlq_prefix(m) == p + seq![b]);
        assert((p + seq![b]).drop_last() =~= p);
        assert(b % 128 == m % 128);
        assert(vlq_value(vlq_prefix(m)) == q * 128 + m % 128);
        if q == 0 {
            assert(vlq_prefix(m)[0] == b);
        } else {
            assert(vlq_prefix(m)[0] == p[0]);
        }
    }
}

/// The encoding of a 32-bit number is minimal and reads back as the number:
/// one to five bytes, every byte but the last with its high bit set and the
/// last with it clear, no leading empty group, and the groups adding up to
/// the number.
pub proof fn lemma_vlq_minimal(n: u32)
    ensures
        1 <= vlq(n as nat).len() <= 5,
        forall|i: int| 0 <= i < vlq(n as nat).len() - 1 ==> vlq(n as nat)[i] >= 128,
        vlq(n as nat)[vlq(n as nat).len() - 1] < 128,
        vlq(n as nat).len() > 1 ==> vlq(n as nat)[0] % 128 != 0,
        vlq_value(vlq(n as nat)) == n,
{
    let m = (n / 128) as nat;
    assert(pow128(4) == 128 * 128 * 128 * 128) by {
        reveal_with_fuel(pow128, 5);
    }
    assert(m < pow128(4));
    lemma_vlq_prefix(m, 4);
    let p = vlq_prefix(m);
    let last = (n % 128) as u8;
    let v = vlq(n as nat);
    assert(v == p + seq![last]);
    assert(v.drop_last() =~= p);
    assert(v[v.len() - 1] == last);
    assert(last % 128 == n % 128);
    assert(vlq_value(v) == m * 128 + n % 128);
    if v.len() > 1 {
        assert(v[0] == p[0]);
    }
}

/// What a three-byte-bounded reader makes of the bytes of `d` from `pos`:
/// the value and the position after it, or `None` when the bytes run out
/// before a byte with a clear high bit (or the third byte) is reached.
///
/// A third byte with its high bit set still ends the quantity, and its value
/// is shifted once more, as the reader does.
pub open spec fn read_midi_length(d: Seq<u8>, pos: int) -> Option<(u32, int)> {
    if pos < 0 || pos >= d.len() {
        None
    } else if d[pos] < 128 {
        Some((d[pos] as u32, pos + 1))
    } else {
        let l0 = (d[pos] % 128) as int;
        if pos + 1 >= d.len() {
            None
        } else if d[pos + 1] < 128 {
            Some(((l0 * 128 + d[pos + 1]) as u32, pos + 2))
        } else {
            let l1 = l0 * 128 + (d[pos + 1] % 128);
            if pos + 2 >= d.len() {
                None
            } else if d[pos + 2] < 128 {
                Some(((l1 * 128 + d[pos + 2]) as u32, pos + 3))
            } else {
                Some((((l1 * 128 + (d[pos + 2] % 128)) * 128) as u32, pos + 3))
            }
        }
    }
}

/// Reads the variable-length quantity at `pos`, giving its value and the
/// position after it, or `None` where the bytes run out first.
pub fn read_midi_length_checked(data: &[u8], pos: usize) -> (r: Option<(u32, usize)>)
    ensures
        match r {
            Some((v, p)) => read_midi_length(data@, pos as int) == Some((v, p as int)),
            None => read_midi_length(data@, pos as int) is None,
        },
{
    let len = data.len();
    if pos >= len {
        return None;
    }
    let b0 = data[pos];
    if b0 < 128 {
        return Some((b0 as u32, pos + 1));
    }
    let l0 = (b0 % 128) as u32;
    if pos + 1 >= len {
        return None;
    }
    let b1 = data[pos + 1];
    if b1 < 128 {
        return Some((l0 * 128 + b1 as u32, pos + 2));
    }
    let l1 = l0 * 128 + (b1 % 128) as u32;
    if pos + 2 >= len {
        return None;
    }
    let b2 = data[pos + 2];
    if b2 < 128 {
        Some((l1 * 128 + b2 as u32, pos + 3))
    } else {
        Some(((l1 * 128 + (b2 % 128) as u32) * 128, pos + 3))
    }
}

/// A length encoded by `vlq` reads back as itself, whatever
/// follows it, as long as it fits the three bytes the reader takes.
pub proof fn lemma_midi_length_roundtrip(n: u32, rest: Seq<u8>)
    requires
        n < 128 * 128 * 128,
    ensures
        read_midi_length(vlq(n as nat) + rest, 0) == Some((n, vlq(n as nat).len() as int)),
{
    let d = vlq(n as nat) + rest;
    let n = n as nat;
    if n < 128 {
        assert(vlq_prefix(n / 128) =~= Seq::<u8>::empty());
        assert(d[0] == n as u8);
    } else if n < 128 * 128 {
        let a = n / 128;
        assert(a < 128 && a > 0);
        assert(vlq_prefix(a / 128) =~= Seq::<u8>::empty());
        assert(vlq_prefix(a) =~= seq![((a % 128) + 128) as u8]);
        assert(d[0] == (a + 128) as u8);
        assert(d[1] == (n % 128) as u8);
        assert(((d[0] % 128) as int) * 128 + d[1] == n);
    } else {
        let a = n / 128;
        let b = a / 128;
        assert(b < 128 && b > 0);
        assert(vlq_prefix(b / 128) =~= Seq::<u8>::empty());
        assert(vlq_prefix(b) =~= seq![((b % 128) + 128) as u8]);
        assert(vlq_prefix(a) =~= seq![((b % 128) + 128) as u8, ((a % 128) + 128) as u8]);
        assert(d[0] == (b + 128) as u8);
        assert(d[1] == ((a % 128) + 128) as u8);
        assert(d[2] == (n % 128) as u8);
        assert((((d[0] % 128) as int) * 128 + (d[1] % 128)) * 128 + d[2] == n);
    }
}

} // verus!
