//! Shared helpers for text handled as UTF-8 byte vectors: literal conversion,
//! decimal formatting, and common sequence predicates.

use vstd::prelude::*;

verus! {

use vstd::string::StringSliceAdditionalSpecFns;

/// The decimal digits of `n`, most significant first, as ASCII bytes.
pub open spec fn dec_bytes(n: nat) -> Seq<u8>
    decreases n,
{
    if n < 10 {
        seq![(48 + n) as u8]
    } else {
        dec_bytes(n / 10).push((48 + n % 10) as u8)
    }
}

/// Convert a string literal (or any `&str`) to its UTF-8 bytes as a vector.
pub fn bytes_of(s: &str) -> (r: Vec<u8>)
    ensures
        r@ == s.spec_bytes(),
{
    let b = s.as_bytes();
    let mut r: Vec<u8> = Vec::new();
    let mut i: usize = 0;
    while i < b.len()
        invariant
            i <= b.len(),
            b@ == s.spec_bytes(),
            r@ == b@.subrange(0, i as int),
        decreases b.len() - i,
    {
        r.push(b[i]);
        assert(r@ =~= b@.subrange(0, i + 1 as int));
        i += 1;
    }
    assert(r@ =~= b@);
    r
}

/// Format `n` in decimal as ASCII bytes.
pub fn u64_to_dec(n: u64) -> (r: Vec<u8>)
    ensures
        r@ == dec_bytes(n as nat),
    decreases n,
{
    if n < 10 {
        let mut v: Vec<u8> = Vec::new();
        v.push(48 + (n as u8));
        v
    } else {
        let mut v = u64_to_dec(n / 10);
        v.push(48 + ((n % 10) as u8));
        v
    }
}

/// True when `p` is a prefix of `s`.
pub open spec fn starts_with(s: Seq<u8>, p: Seq<u8>) -> bool {
    p.len() <= s.len() && s.subrange(0, p.len() as int) == p
}

/// True when `p` is a suffix of `s`.
pub open spec fn ends_with(s: Seq<u8>, p: Seq<u8>) -> bool {
    p.len() <= s.len() && s.subrange(s.len() - p.len(), s.len() as int) == p
}

/// Executable prefix test over byte vectors.
pub fn vec_starts_with(s: &Vec<u8>, p: &Vec<u8>) -> (r: bool)
    ensures
        r == starts_with(s@, p@),
{
    if p.len() > s.len() {
        assert(!starts_with(s@, p@));
        return false;
    }
    let mut i: usize = 0;
    while i < p.len()
        invariant
            i <= p.len(),
            p.len() <= s.len(),
            forall|j: int| 0 <= j < i ==> s@[j] == p@[j],
        decreases p.len() - i,
    {
        if s[i] != p[i] {
            assert(s@.subrange(0, p.len() as int)[i as int] != p@[i as int]);
            return false;
        }
        i += 1;
    }
    assert(s@.subrange(0, p.len() as int) =~= p@);
    true
}

/// Executable equality test over byte vectors.
pub fn vec_eq(a: &Vec<u8>, b: &Vec<u8>) -> (r: bool)
    ensures
        r == (a@ == b@),
{
    if a.len() != b.len() {
        assert(a@ != b@);
        return false;
    }
    let mut i: usize = 0;
    while i < a.len()
        invariant
            i <= a.len(),
            a.len() == b.len(),
            forall|j: int| 0 <= j < i ==> a@[j] == b@[j],
        decreases a.len() - i,
    {
        if a[i] != b[i] {
            return false;
        }
        i += 1;
    }
    assert(a@ =~= b@);
    true
}

/// Concatenation of two byte vectors.
pub fn vec_concat(a: &Vec<u8>, b: &Vec<u8>) -> (r: Vec<u8>)
    ensures
        r@ == a@ + b@,
{
    let mut r = a.clone();
    let mut i: usize = 0;
    while i < b.len()
        invariant
            i <= b.len(),
            r@ == a@ + b@.subrange(0, i as int),
        decreases b.len() - i,
    {
        r.push(b[i]);
        assert(r@ =~= a@ + b@.subrange(0, i + 1 as int));
        i += 1;
    }
    assert(r@ =~= a@ + b@);
    r
}

/// Copy of the byte range `[a, b)` of `s`.
pub fn vec_slice(s: &Vec<u8>, a: usize, b: usize) -> (r: Vec<u8>)
    requires
        a <= b <= s@.len(),
    ensures
        r@ == s@.subrange(a as int, b as int),
{
    let mut r: Vec<u8> = Vec::new();
    let mut i: usize = a;
    while i < b
        invariant
            a <= i <= b <= s@.len(),
            r@ == s@.subrange(a as int, i as int),
        decreases b - i,
    {
        r.push(s[i]);
        assert(r@ =~= s@.subrange(a as int, i + 1 as int));
        i += 1;
    }
    r
}

/// The chunks of `s` between occurrences of the separator byte `sep`, kept
/// verbatim: empty chunks included. Splitting the empty sequence gives one
/// empty chunk.
pub open spec fn split_by(s: Seq<u8>, sep: u8) -> Seq<Seq<u8>>
    decreases s.len(),
{
    if s.len() == 0 {
        seq![Seq::<u8>::empty()]
    } else if s[0] == sep {
        seq![Seq::<u8>::empty()] + split_by(s.drop_first(), sep)
    } else {
        let rest = split_by(s.drop_first(), sep);
        seq![seq![s[0]] + rest.first()] + rest.drop_first()
    }
}

pub proof fn lemma_split_by_len(s: Seq<u8>, sep: u8)
    ensures
        split_by(s, sep).len() >= 1,
    decreases s.len(),
{
    if s.len() > 0 {
        lemma_split_by_len(s.drop_first(), sep);
    }
}

/// Appending one byte extends the final chunk, or opens a fresh chunk at the
/// separator.
pub proof fn lemma_split_by_push(s: Seq<u8>, sep: u8, b: u8)
    ensures
        b == sep ==> split_by(s.push(b), sep) == split_by(s, sep).push(Seq::<u8>::empty()),
        b != sep ==> split_by(s.push(b), sep) == split_by(s, sep).update(
            split_by(s, sep).len() - 1,
            split_by(s, sep).last().push(b),
        ),
    decreases s.len(),
{
    lemma_split_by_len(s, sep);
    if s.len() == 0 {
        assert(s.push(b) =~= seq![b]);
        assert(seq![b].drop_first() =~= Seq::<u8>::empty());
        reveal_with_fuel(split_by, 2);
        if b == sep {
            assert(split_by(seq![b], sep) =~= split_by(s, sep).push(Seq::<u8>::empty()));
        } else {
            assert(seq![b] + split_by(Seq::<u8>::empty(), sep).first() =~= seq![b]);
            assert(split_by(s, sep).last().push(b) =~= seq![b]);
            assert(split_by(seq![b], sep) =~= split_by(s, sep).update(
                0,
                split_by(s, sep).last().push(b),
            ));
        }
    } else {
        let t = s.drop_first();
        let n = split_by(t, sep).len();
        lemma_split_by_len(t, sep);
        assert(s.push(b)[0] == s[0]);
        assert(s.push(b).drop_first() =~= t.push(b));
        lemma_split_by_push(t, sep, b);
        if s[0] == sep {
            assert(split_by(s, sep).last() == split_by(t, sep).last());
            if b == sep {
                assert(split_by(s.push(b), sep) =~= split_by(s, sep).push(Seq::<u8>::empty()));
            } else {
                assert(split_by(s.push(b), sep) =~= split_by(s, sep).update(
                    split_by(s, sep).len() - 1,
                    split_by(s, sep).last().push(b),
                ));
            }
        } else {
            if b == sep {
                assert(split_by(t.push(b), sep).first() == split_by(t, sep).first());
                assert(split_by(t.push(b), sep).drop_first() =~= split_by(t, sep).drop_first().push(
                    Seq::<u8>::empty(),
                ));
                assert(split_by(s.push(b), sep) =~= split_by(s, sep).push(Seq::<u8>::empty()));
            } else if n == 1 {
                assert(split_by(t.push(b), sep) == split_by(t, sep).update(
                    0,
                    split_by(t, sep).last().push(b),
                ));
                assert(split_by(t.push(b), sep).first() == split_by(t, sep).first().push(b));
                assert(split_by(s, sep).len() == 1);
                assert(split_by(s, sep).last() == seq![s[0]] + split_by(t, sep).first());
                assert(seq![s[0]] + split_by(t, sep).first().push(b) =~= (seq![s[0]] + split_by(
                    t,
                    sep,
                ).first()).push(b));
                assert(split_by(s.push(b), sep) =~= split_by(s, sep).update(
                    0,
                    split_by(s, sep).last().push(b),
                ));
            } else {
                assert(split_by(t.push(b), sep) == split_by(t, sep).update(
                    n - 1,
                    split_by(t, sep).last().push(b),
                ));
                assert(split_by(t.push(b), sep).first() == split_by(t, sep).first());
                assert(split_by(t.push(b), sep).drop_first() =~= split_by(
                    t,
                    sep,
                ).drop_first().update(n - 2, split_by(t, sep).last().push(b)));
                assert(split_by(s, sep).last() == split_by(t, sep).last());
                assert(split_by(s.push(b), sep) =~= split_by(s, sep).update(
                    split_by(s, sep).len() - 1,
                    split_by(s, sep).last().push(b),
                ));
            }
        }
    }
}

/// Split `s` into its chunks between occurrences of `sep`, kept verbatim.
pub fn split_vec(s: &Vec<u8>, sep: u8) -> (r: Vec<Vec<u8>>)
    ensures
        r@.map_values(|c: Vec<u8>| c@) == split_by(s@, sep),
{
    let mut r: Vec<Vec<u8>> = Vec::new();
    r.push(Vec::new());
    proof {
        assert(r@.map_values(|c: Vec<u8>| c@) =~= split_by(s@.subrange(0, 0), sep));
    }
    let mut i: usize = 0;
    while i < s.len()
        invariant
            i <= s.len(),
            r@.len() >= 1,
            r@.map_values(|c: Vec<u8>| c@) == split_by(s@.subrange(0, i as int), sep),
        decreases s.len() - i,
    {
        let b = s[i];
        proof {
            lemma_split_by_push(s@.subrange(0, i as int), sep, b);
            assert(s@.subrange(0, i + 1 as int) =~= s@.subrange(0, i as int).push(b));
        }
        if b == sep {
            r.push(Vec::new());
            proof {
                assert(r@.map_values(|c: Vec<u8>| c@) =~= split_by(
                    s@.subrange(0, i + 1 as int),
                    sep,
                ));
            }
        } else {
            let mut last = r.pop().unwrap();
            last.push(b);
            r.push(last);
            proof {
                assert(r@.map_values(|c: Vec<u8>| c@) =~= split_by(
                    s@.subrange(0, i as int),
                    sep,
                ).update(
                    split_by(s@.subrange(0, i as int), sep).len() - 1,
                    split_by(s@.subrange(0, i as int), sep).last().push(b),
                ));
            }
        }
        i += 1;
    }
    proof {
        assert(s@.subrange(0, s@.len() as int) =~= s@);
    }
    r
}

/// The chunks joined with the single byte `sep` between them.
pub open spec fn join_by(cs: Seq<Seq<u8>>, sep: u8) -> Seq<u8>
    decreases cs.len(),
{
    if cs.len() == 0 {
        Seq::<u8>::empty()
    } else if cs.len() == 1 {
        cs[0]
    } else {
        join_by(cs.drop_last(), sep) + seq![sep] + cs.last()
    }
}

/// Join chunks with the single byte `sep` between them.
pub fn join_vec(cs: &Vec<Vec<u8>>, sep: u8) -> (r: Vec<u8>)
    ensures
        r@ == join_by(cs@.map_values(|c: Vec<u8>| c@), sep),
{
    let ghost cs_view = cs@.map_values(|c: Vec<u8>| c@);
    let mut r: Vec<u8> = Vec::new();
    let mut i: usize = 0;
    while i < cs.len()
        invariant
            i <= cs.len(),
            cs_view == cs@.map_values(|c: Vec<u8>| c@),
            r@ == join_by(cs_view.subrange(0, i as int), sep),
        decreases cs.len() - i,
    {
        if i > 0 {
            r.push(sep);
        }
        vec_extend(&mut r, &cs[i]);
        proof {
            assert(cs_view.subrange(0, i + 1 as int).drop_last() =~= cs_view.subrange(0, i as int));
            assert(cs_view.subrange(0, i + 1 as int).last() == cs_view[i as int]);
            if i == 0 {
                assert(r@ =~= join_by(cs_view.subrange(0, 1), sep));
            } else {
                assert(r@ =~= join_by(cs_view.subrange(0, i + 1 as int), sep));
            }
        }
        i += 1;
    }
    proof {
        assert(cs_view.subrange(0, cs_view.len() as int) =~= cs_view);
    }
    r
}

/// Append `b` to `a` in place.
pub fn vec_extend(a: &mut Vec<u8>, b: &Vec<u8>)
    ensures
        final(a)@ == old(a)@ + b@,
{
    let mut i: usize = 0;
    while i < b.len()
        invariant
            i <= b.len(),
            a@ == old(a)@ + b@.subrange(0, i as int),
        decreases b.len() - i,
    {
        a.push(b[i]);
        assert(a@ =~= old(a)@ + b@.subrange(0, i + 1 as int));
        i += 1;
    }
    assert(a@ =~= old(a)@ + b@);
}

} // verus!
