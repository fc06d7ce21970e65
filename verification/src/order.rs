use vstd::prelude::*;

use crate::text::{chars_less, chars_lt};

verus! {

/// `chars_lt` never holds of a sequence and itself.
pub proof fn lemma_chars_lt_irreflexive(a: Seq<char>)
    ensures
        !chars_lt(a, a),
    decreases a.len(),
{
    if a.len() > 0 {
        lemma_chars_lt_irreflexive(a.drop_first());
    }
}

/// Of two different sequences, one comes before the other.
pub proof fn lemma_chars_lt_total(a: Seq<char>, b: Seq<char>)
    ensures
        a == b || chars_lt(a, b) || chars_lt(b, a),
    decreases a.len(),
{
    if a.len() > 0 && b.len() > 0 && a[0] == b[0] {
        lemma_chars_lt_total(a.drop_first(), b.drop_first());
        if a.drop_first() == b.drop_first() {
            assert(a =~= seq![a[0]] + a.drop_first());
            assert(b =~= seq![b[0]] + b.drop_first());
        }
    } else if a.len() == 0 && b.len() == 0 {
        assert(a =~= b);
    }
}

/// `chars_lt` is transitive.
pub proof fn lemma_chars_lt_transitive(a: Seq<char>, b: Seq<char>, c: Seq<char>)
    requires
        chars_lt(a, b),
        chars_lt(b, c),
    ensures
        chars_lt(a, c),
    decreases a.len(),
{
    if a.len() > 0 && b.len() > 0 && c.len() > 0 && a[0] == b[0] && b[0] == c[0] {
        lemma_chars_lt_transitive(a.drop_first(), b.drop_first(), c.drop_first());
    }
}

/// Position `i` comes before position `j` when its key is smaller, or when
/// the keys are equal and `i < j`: the order of a stable sort by key.
pub open spec fn precedes(keys: Seq<Seq<char>>, i: int, j: int) -> bool {
    chars_lt(keys[i], keys[j]) || (keys[i] == keys[j] && i < j)
}

/// `p` lists every position of `keys` once, in the order in which a stable
/// sort by key puts them.
pub open spec fn is_stable_order(keys: Seq<Seq<char>>, p: Seq<usize>) -> bool {
    &&& p.len() == keys.len()
    &&& forall|a: int| 0 <= a < p.len() ==> p[a] < keys.len()
    &&& forall|a: int, b: int| 0 <= a < b < p.len() ==> p[a] != p[b]
    &&& forall|a: int, b: int|
        0 <= a < b < p.len() ==> #[trigger] precedes(keys, p[a] as int, p[b] as int)
}

/// The keys as sequences of characters.
pub open spec fn key_seqs(keys: Seq<Vec<char>>) -> Seq<Seq<char>> {
    keys.map_values(|k: Vec<char>| k@)
}

/// The positions of `keys` in the order of a stable sort by key
/// (the order `slice::sort_by_key` gives).
pub fn stable_order(keys: &Vec<Vec<char>>) -> (p: Vec<usize>)
    ensures
        is_stable_order(key_seqs(keys@), p@),
{
    let ghost ks = key_seqs(keys@);
    let n = keys.len();
    let mut out: Vec<usize> = Vec::new();
    let mut x: usize = 0;
    while x < n
        invariant
            n == keys@.len(),
            ks == key_seqs(keys@),
            x <= n,
            out@.len() == x,
            forall|a: int| 0 <= a < out@.len() ==> out@[a] < x,
            forall|a: int, b: int| 0 <= a < b < out@.len() ==> out@[a] != out@[b],
            forall|a: int, b: int|
                0 <= a < b < out@.len() ==> #[trigger] precedes(ks, out@[a] as int, out@[b] as int),
        decreases n - x,
    {
        let mut q: usize = 0;
        while q < out.len() && !chars_less(&keys[x], &keys[out[q]])
            invariant
                n == keys@.len(),
                ks == key_seqs(keys@),
                x < n,
                q <= out@.len(),
                forall|a: int| 0 <= a < out@.len() ==> out@[a] < x,
                forall|a: int| 0 <= a < q ==> !chars_lt(ks[x as int], #[trigger] ks[out@[a] as int]),
            decreases out@.len() - q,
        {
            q = q + 1;
        }
        let ghost old_out = out@;
        out.insert(q, x);
        proof {
            assert(out@ == old_out.insert(q as int, x));
            assert forall|a: int, b: int| 0 <= a < b < out@.len() implies #[trigger] precedes(
                ks,
                out@[a] as int,
                out@[b] as int,
            ) by {
                if a < q && b == q {
                    let y = old_out[a] as int;
                    lemma_chars_lt_total(ks[x as int], ks[y]);
                } else if a == q {
                    if b > q + 1 {
                        let z = old_out[q as int] as int;
                        let w = old_out[b - 1] as int;
                        assert(precedes(ks, z, w));
                        if chars_lt(ks[z], ks[w]) {
                            lemma_chars_lt_transitive(ks[x as int], ks[z], ks[w]);
                        }
                    }
                } else if a < q && b > q {
                    assert(precedes(ks, old_out[a] as int, old_out[b - 1] as int));
                } else if a > q {
                    assert(precedes(ks, old_out[a - 1] as int, old_out[b - 1] as int));
                } else {
                    assert(precedes(ks, old_out[a] as int, old_out[b] as int));
                }
            }
        }
        x = x + 1;
    }
    out
}

/// A stable order lists every position: it has as many distinct entries as
/// there are positions, all in range.
pub proof fn lemma_order_covers(keys: Seq<Seq<char>>, p: Seq<usize>, j: int)
    requires
        is_stable_order(keys, p),
        0 <= j < keys.len(),
    ensures
        exists|k: int| 0 <= k < p.len() && p[k] == j,
{
    let q = p.map_values(|x: usize| x as int);
    let s = q.to_set();
    let full = Set::new(|x: int| 0 <= x < keys.len());
    assert(q.no_duplicates()) by {
        assert forall|a: int, b: int|
            0 <= a < q.len() && 0 <= b < q.len() && a != b implies #[trigger] q[a] != #[trigger] q[b] by {
            if a < b {
                assert(p[a] != p[b]);
            } else {
                assert(p[b] != p[a]);
            }
        }
    }
    q.unique_seq_to_set();
    assert(s.subset_of(full));
    vstd::set_lib::lemma_int_range(0, keys.len() as int);
    assert(full =~= vstd::set_lib::set_int_range(0, keys.len() as int));
    vstd::set_lib::lemma_subset_equality(s, full);
    assert(full.contains(j));
    assert(s.contains(j));
}

} // verus!
