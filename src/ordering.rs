//! Sorting by source position and by name.
use vstd::prelude::*;
use vstd::multiset::Multiset;
use crate::model::SourceSpan;

verus! {

/// Source positions order by file, then start, then end.
pub open spec fn span_le(a: SourceSpan, b: SourceSpan) -> bool {
    a.file < b.file || (a.file == b.file && (a.start < b.start || (a.start == b.start && a.end <= b.end)))
}

pub fn span_le_exec(a: SourceSpan, b: SourceSpan) -> (r: bool)
    ensures
        r == span_le(a, b),
{
    a.file < b.file || (a.file == b.file && (a.start < b.start || (a.start == b.start && a.end <= b.end)))
}

/// Lexicographic order of names by character code, which is the byte order
/// of their UTF-8 encodings.
pub open spec fn lex_le(a: Seq<char>, b: Seq<char>) -> bool
    decreases a.len(),
{
    if a.len() == 0 {
        true
    } else if b.len() == 0 {
        false
    } else if (a[0] as u32) == (b[0] as u32) {
        lex_le(a.drop_first(), b.drop_first())
    } else {
        (a[0] as u32) < (b[0] as u32)
    }
}

pub proof fn lemma_lex_total(a: Seq<char>, b: Seq<char>)
    ensures
        lex_le(a, b) || lex_le(b, a),
    decreases a.len(),
{
    if a.len() > 0 && b.len() > 0 && (a[0] as u32) == (b[0] as u32) {
        lemma_lex_total(a.drop_first(), b.drop_first());
    }
}

pub proof fn lemma_lex_trans(a: Seq<char>, b: Seq<char>, c: Seq<char>)
    requires
        lex_le(a, b),
        lex_le(b, c),
    ensures
        lex_le(a, c),
    decreases a.len(),
{
    if a.len() > 0 && b.len() > 0 && c.len() > 0 && (a[0] as u32) == (b[0] as u32) && (b[0] as u32) == (c[0] as u32) {
        lemma_lex_trans(a.drop_first(), b.drop_first(), c.drop_first());
    }
}

pub proof fn lemma_char_code_injective(c: char, d: char)
    requires
        (c as u32) == (d as u32),
    ensures
        c == d,
{
}

pub proof fn lemma_lex_antisymmetric(a: Seq<char>, b: Seq<char>)
    requires
        lex_le(a, b),
        lex_le(b, a),
    ensures
        a == b,
    decreases a.len(),
{
    if a.len() > 0 && b.len() > 0 {
        assert((a[0] as u32) == (b[0] as u32));
        lemma_char_code_injective(a[0], b[0]);
        lemma_lex_antisymmetric(a.drop_first(), b.drop_first());
        assert(a =~= seq![a[0]] + a.drop_first());
        assert(b =~= seq![b[0]] + b.drop_first());
    } else {
        assert(a =~= b);
    }
}

/// Compares two names in [`lex_le`] order.
pub fn name_le(a: &String, b: &String) -> (r: bool)
    ensures
        r == lex_le(a@, b@),
{
    let n = a.as_str().unicode_len();
    let m = b.as_str().unicode_len();
    let mut i: usize = 0;
    assert(a@.skip(0) =~= a@);
    assert(b@.skip(0) =~= b@);
    while i < n && i < m
        invariant
            n == a@.len(),
            m == b@.len(),
            i <= n,
            i <= m,
            lex_le(a@, b@) == lex_le(a@.skip(i as int), b@.skip(i as int)),
        decreases n - i,
    {
        let x = a.as_str().get_char(i);
        let y = b.as_str().get_char(i);
        proof {
            assert(a@.skip(i as int)[0] == x);
            assert(b@.skip(i as int)[0] == y);
        }
        if (x as u32) != (y as u32) {
            return (x as u32) < (y as u32);
        }
        proof {
            assert(a@.skip(i as int).drop_first() =~= a@.skip(i + 1));
            assert(b@.skip(i as int).drop_first() =~= b@.skip(i + 1));
        }
        i += 1;
    }
    proof {
        if i == n {
            assert(a@.skip(i as int).len() == 0);
        } else {
            assert(b@.skip(i as int).len() == 0);
            assert(a@.skip(i as int).len() > 0);
        }
    }
    i == n
}

/// Items that sort by a total preorder.
pub trait SortKey: Sized {
    spec fn key_le(&self, other: &Self) -> bool;

    proof fn lemma_key_total(a: &Self, b: &Self)
        ensures
            a.key_le(b) || b.key_le(a),
    ;

    proof fn lemma_key_trans(a: &Self, b: &Self, c: &Self)
        requires
            a.key_le(b),
            b.key_le(c),
        ensures
            a.key_le(c),
    ;

    fn le(&self, other: &Self) -> (r: bool)
        ensures
            r == self.key_le(other),
    ;
}

pub open spec fn sorted<T: SortKey>(s: Seq<T>) -> bool {
    forall|i: int, j: int| 0 <= i < j < s.len() ==> #[trigger] s[i].key_le(&s[j])
}

/// Sorts `v`: the result holds the same items, in [`SortKey`] order.
pub fn sort_items<T: SortKey>(v: Vec<T>) -> (r: Vec<T>)
    ensures
        r@.to_multiset() == v@.to_multiset(),
        sorted(r@),
{
    broadcast use vstd::seq_lib::group_to_multiset_ensures;
    broadcast use vstd::multiset::group_multiset_axioms;

    let ghost orig = v@;
    let mut src = v;
    let mut out: Vec<T> = Vec::new();
    assert(out@.to_multiset() =~= Multiset::<T>::empty());
    assert(out@.to_multiset().add(src@.to_multiset()) =~= orig.to_multiset());
    while src.len() > 0
        invariant
            out@.to_multiset().add(src@.to_multiset()) == orig.to_multiset(),
            sorted(out@),
            forall|i: int, j: int|
                0 <= i < out@.len() && 0 <= j < src@.len() ==> #[trigger] out@[i].key_le(&src@[j]),
        decreases src.len(),
    {
        let mut m: usize = 0;
        let mut k: usize = 1;
        proof {
            T::lemma_key_total(&src@[0], &src@[0]);
        }
        while k < src.len()
            invariant
                src@.len() > 0,
                m < src@.len(),
                k <= src@.len(),
                forall|j: int| 0 <= j < k ==> #[trigger] src@[m as int].key_le(&src@[j]),
            decreases src.len() - k,
        {
            if src[k].le(&src[m]) {
                proof {
                    assert forall|j: int| 0 <= j < k + 1 implies #[trigger] src@[k as int].key_le(&src@[j]) by {
                        if j < k {
                            T::lemma_key_trans(&src@[k as int], &src@[m as int], &src@[j]);
                        } else {
                            T::lemma_key_total(&src@[k as int], &src@[k as int]);
                        }
                    }
                }
                m = k;
            } else {
                proof {
                    T::lemma_key_total(&src@[k as int], &src@[m as int]);
                }
            }
            k += 1;
        }
        let ghost s0 = src@;
        let ghost o0 = out@;
        let x = src.remove(m);
        out.push(x);
        proof {
            assert(src@ =~= s0.remove(m as int));
            assert(out@ =~= o0.push(x));
            assert forall|i: int, j: int| 0 <= i < j < out@.len() implies #[trigger] out@[i].key_le(&out@[j]) by {
                if j == out@.len() - 1 {
                    assert(o0[i].key_le(&s0[m as int]));
                } else {
                    assert(o0[i].key_le(&o0[j]));
                }
            }
            assert forall|i: int, j: int| 0 <= i < out@.len() && 0 <= j < src@.len() implies #[trigger] out@[i].key_le(&src@[j]) by {
                let jj = if j < m { j } else { j + 1 };
                assert(src@[j] == s0[jj]);
                if i == out@.len() - 1 {
                    assert(s0[m as int].key_le(&s0[jj]));
                } else {
                    assert(o0[i].key_le(&s0[jj]));
                }
            }
            vstd::seq_lib::to_multiset_build(o0, x);
            vstd::seq_lib::to_multiset_remove(s0, m as int);
            assert(x == s0[m as int]);
            assert(out@.to_multiset() == o0.to_multiset().insert(x));
            assert(src@.to_multiset() == s0.to_multiset().remove(x));
            vstd::seq_lib::to_multiset_contains(s0, x);
            assert(s0.contains(x));
            assert(s0.to_multiset().count(x) > 0);
            assert(out@.to_multiset().add(src@.to_multiset()) =~= o0.to_multiset().add(s0.to_multiset()));
        }
    }
    assert(src@.to_multiset() =~= Multiset::<T>::empty());
    assert(out@.to_multiset().add(src@.to_multiset()) =~= out@.to_multiset());
    out
}

/// Reordering a list reorders the images of its items the same way.
pub proof fn lemma_map_multiset<A, B>(a: Seq<A>, b: Seq<A>, f: spec_fn(A) -> B)
    requires
        a.to_multiset() == b.to_multiset(),
    ensures
        a.map_values(f).to_multiset() == b.map_values(f).to_multiset(),
    decreases a.len(),
{
    broadcast use vstd::seq_lib::group_to_multiset_ensures;

    vstd::seq_lib::to_multiset_len(a);
    vstd::seq_lib::to_multiset_len(b);
    if a.len() == 0 {
        assert(a.map_values(f) =~= Seq::<B>::empty());
        assert(b.map_values(f) =~= Seq::<B>::empty());
    } else {
        let x = a.last();
        let a1 = a.drop_last();
        assert(a =~= a1.push(x));
        vstd::seq_lib::to_multiset_build(a1, x);
        assert(a.contains(x));
        assert(a.to_multiset().count(x) > 0);
        assert(b.contains(x));
        let i = choose|i: int| 0 <= i < b.len() && b[i] == x;
        let b1 = b.remove(i);
        vstd::seq_lib::to_multiset_remove(b, i);
        assert(a1.to_multiset() =~= b1.to_multiset());
        lemma_map_multiset(a1, b1, f);
        assert(a.map_values(f) =~= a1.map_values(f).push(f(x)));
        vstd::seq_lib::to_multiset_build(a1.map_values(f), f(x));
        let mb = b.map_values(f);
        assert(mb.remove(i) =~= b1.map_values(f));
        vstd::seq_lib::to_multiset_remove(mb, i);
        assert(mb.contains(mb[i]));
        assert(mb.to_multiset().count(f(x)) > 0);
        assert(mb.to_multiset() =~= b1.map_values(f).to_multiset().insert(f(x)));
    }
}

} // verus!
