//! Stable sorting of lists by text keys, as `sort_by` with `String::cmp` on
//! the keys (ascending) or on the swapped keys (descending) does it.
use vstd::prelude::*;

verus! {

/// Lexicographic order of character sequences by code point, which is the
/// byte order of their UTF-8 encodings that `String` compares by.
pub open spec fn text_le(a: Seq<char>, b: Seq<char>) -> bool
    decreases a.len(),
{
    if a.len() == 0 {
        true
    } else if b.len() == 0 {
        false
    } else if a[0] != b[0] {
        (a[0] as u32) < (b[0] as u32)
    } else {
        text_le(a.drop_first(), b.drop_first())
    }
}

pub proof fn lemma_text_le_reflexive(a: Seq<char>)
    ensures
        text_le(a, a),
    decreases a.len(),
{
    if a.len() > 0 {
        lemma_text_le_reflexive(a.drop_first());
    }
}

pub proof fn lemma_text_le_total(a: Seq<char>, b: Seq<char>)
    ensures
        text_le(a, b) || text_le(b, a),
    decreases a.len(),
{
    if a.len() > 0 && b.len() > 0 && a[0] == b[0] {
        lemma_text_le_total(a.drop_first(), b.drop_first());
    } else if a.len() > 0 && b.len() > 0 {
        if (a[0] as u32) == (b[0] as u32) {
            vstd::utf8::char_u32_cast(a[0], a[0] as u32);
            vstd::utf8::char_u32_cast(b[0], b[0] as u32);
        }
    }
}

pub proof fn lemma_text_le_transitive(a: Seq<char>, b: Seq<char>, c: Seq<char>)
    requires
        text_le(a, b),
        text_le(b, c),
    ensures
        text_le(a, c),
    decreases a.len(),
{
    if a.len() > 0 && b.len() > 0 && c.len() > 0 && a[0] == b[0] && b[0] == c[0] {
        lemma_text_le_transitive(a.drop_first(), b.drop_first(), c.drop_first());
    }
}

/// The order of a sort: ascending keys, or descending keys.
pub open spec fn in_order(ascending: bool, x: Seq<char>, y: Seq<char>) -> bool {
    if ascending {
        text_le(x, y)
    } else {
        text_le(y, x)
    }
}

proof fn lemma_in_order(ascending: bool, x: Seq<char>, y: Seq<char>, z: Seq<char>)
    ensures
        in_order(ascending, x, x),
        in_order(ascending, x, y) || in_order(ascending, y, x),
        in_order(ascending, x, y) && in_order(ascending, y, z) ==> in_order(ascending, x, z),
{
    lemma_text_le_reflexive(x);
    lemma_text_le_total(x, y);
    if in_order(ascending, x, y) && in_order(ascending, y, z) {
        if ascending {
            lemma_text_le_transitive(x, y, z);
        } else {
            lemma_text_le_transitive(z, y, x);
        }
    }
}

/// `perm` lists each position below `n` exactly once.
pub open spec fn is_permutation(perm: Seq<int>, n: int) -> bool {
    &&& perm.len() == n
    &&& forall|a: int| 0 <= a < n ==> 0 <= #[trigger] perm[a] < n
    &&& forall|a: int, b: int| 0 <= a < n && 0 <= b < n && a != b ==> perm[a] != perm[b]
}

/// `output` is `input` reordered by `perm`, with keys in order, elements of
/// equal keys keeping their order of `input`.
pub open spec fn sorted_by_perm<T>(
    input: Seq<T>,
    output: Seq<T>,
    perm: Seq<int>,
    key: spec_fn(T) -> Seq<char>,
    ascending: bool,
) -> bool {
    &&& is_permutation(perm, input.len() as int)
    &&& output.len() == input.len()
    &&& forall|i: int| 0 <= i < output.len() ==> output[i] == input[#[trigger] perm[i]]
    &&& forall|i: int, j: int|
        0 <= i < j < output.len() ==> in_order(ascending, key(output[i]), key(output[j]))
    &&& forall|i: int, j: int|
        0 <= i < j < output.len() && key(output[i]) == key(output[j]) ==> perm[i] < perm[j]
}

/// `output` is the stable sort of `input` by `key`, ascending or descending.
pub open spec fn is_stable_sort<T>(
    input: Seq<T>,
    output: Seq<T>,
    key: spec_fn(T) -> Seq<char>,
    ascending: bool,
) -> bool {
    exists|perm: Seq<int>| sorted_by_perm(input, output, perm, key, ascending)
}

/// Whether `a` comes before or with `b` in lexicographic order.
pub fn text_le_exec(a: &Vec<char>, b: &Vec<char>) -> (r: bool)
    ensures
        r == text_le(a@, b@),
{
    let mut i: usize = 0;
    proof {
        assert(a@.subrange(0, a.len() as int) =~= a@);
        assert(b@.subrange(0, b.len() as int) =~= b@);
    }
    while i < a.len() && i < b.len()
        invariant
            i <= a.len(),
            i <= b.len(),
            text_le(a@, b@) == text_le(
                a@.subrange(i as int, a.len() as int),
                b@.subrange(i as int, b.len() as int),
            ),
        decreases a.len() - i,
    {
        let ghost sa = a@.subrange(i as int, a.len() as int);
        let ghost sb = b@.subrange(i as int, b.len() as int);
        proof {
            assert(sa[0] == a@[i as int]);
            assert(sb[0] == b@[i as int]);
        }
        if a[i] != b[i] {
            return (a[i] as u32) < (b[i] as u32);
        }
        proof {
            assert(sa.drop_first() =~= a@.subrange(i + 1, a.len() as int));
            assert(sb.drop_first() =~= b@.subrange(i + 1, b.len() as int));
        }
        i = i + 1;
    }
    i >= a.len()
}

fn key_in_order(keys: &Vec<Vec<char>>, ascending: bool, x: usize, y: usize) -> (r: bool)
    requires
        x < keys.len(),
        y < keys.len(),
    ensures
        r == in_order(ascending, keys@[x as int]@, keys@[y as int]@),
{
    if ascending {
        text_le_exec(&keys[x], &keys[y])
    } else {
        text_le_exec(&keys[y], &keys[x])
    }
}

/// The positions of the keys in stable sorted order.
pub fn stable_order(keys: &Vec<Vec<char>>, ascending: bool) -> (perm: Vec<usize>)
    ensures
        ({
            let ks = keys@.map_values(|k: Vec<char>| k@);
            let p = perm@.map_values(|x: usize| x as int);
            &&& is_permutation(p, ks.len() as int)
            &&& forall|i: int, j: int|
                0 <= i < j < p.len() ==> in_order(ascending, ks[p[i]], ks[p[j]])
            &&& forall|i: int, j: int|
                0 <= i < j < p.len() && ks[p[i]] == ks[p[j]] ==> p[i] < p[j]
        }),
{
    let ghost ks = keys@.map_values(|k: Vec<char>| k@);
    let n = keys.len();
    let mut perm: Vec<usize> = Vec::new();
    for i in 0..n
        invariant
            n == keys.len(),
            ks == keys@.map_values(|k: Vec<char>| k@),
            perm.len() == i,
            forall|a: int| 0 <= a < i ==> #[trigger] perm@[a] < i,
            forall|a: int, b: int| 0 <= a < i && 0 <= b < i && a != b ==> perm@[a] != perm@[b],
            forall|a: int, b: int|
                0 <= a < b < i ==> in_order(
                    ascending,
                    ks[perm@[a] as int],
                    ks[perm@[b] as int],
                ),
            forall|a: int, b: int|
                0 <= a < b < i && ks[perm@[a] as int] == ks[perm@[b] as int] ==> perm@[a]
                    < perm@[b],
    {
        let mut p = i;
        while p > 0
            invariant
                p <= i,
                i < n,
                perm.len() == i,
                n == keys.len(),
                ks == keys@.map_values(|k: Vec<char>| k@),
                forall|a: int| 0 <= a < i ==> #[trigger] perm@[a] < i,
                forall|q: int| p <= q < i ==> !in_order(ascending, #[trigger] ks[perm@[q] as int], ks[i as int]),
            ensures
                p <= i,
                forall|q: int| p <= q < i ==> !in_order(ascending, #[trigger] ks[perm@[q] as int], ks[i as int]),
                p > 0 ==> in_order(ascending, ks[perm@[p - 1] as int], ks[i as int]),
            decreases p,
        {
            if key_in_order(keys, ascending, perm[p - 1], i) {
                break;
            }
            p = p - 1;
        }
        let ghost old_perm = perm@;
        perm.insert(p, i);
        proof {
            assert forall|a: int| 0 <= a <= i implies #[trigger] perm@[a] == if a < p {
                old_perm[a]
            } else if a == p {
                i as usize
            } else {
                old_perm[a - 1]
            } by {}
            let ki = ks[i as int];
            // everything before the insertion point is in order with the new key
            assert forall|a: int| 0 <= a < p implies in_order(ascending, ks[old_perm[a] as int], ki) by {
                lemma_in_order(ascending, ks[old_perm[a] as int], ks[old_perm[p - 1] as int], ki);
                if a < p - 1 {
                    assert(in_order(ascending, ks[old_perm[a] as int], ks[old_perm[p - 1] as int]));
                }
            }
            // everything after it is strictly after the new key
            assert forall|a: int| p <= a < i implies in_order(ascending, ki, ks[old_perm[a] as int]) && ks[old_perm[a] as int] != ki by {
                lemma_in_order(ascending, ks[old_perm[a] as int], ki, ki);
            }
            assert forall|a: int, b: int| 0 <= a < b <= i implies in_order(ascending, ks[perm@[a] as int], ks[perm@[b] as int]) by {
                if a < p && b > p {
                    lemma_in_order(ascending, ks[old_perm[a] as int], ki, ks[old_perm[b - 1] as int]);
                }
            }
            assert forall|a: int, b: int| 0 <= a <= i && 0 <= b <= i && a != b implies perm@[a] != perm@[b] by {}
            assert forall|a: int, b: int| 0 <= a < b <= i && ks[perm@[a] as int] == ks[perm@[b] as int] implies perm@[a] < perm@[b] by {}
        }
    }
    proof {
        let p = perm@.map_values(|x: usize| x as int);
        assert(ks.len() == n);
        assert forall|a: int| 0 <= a < n implies 0 <= #[trigger] p[a] < n by {}
        assert forall|a: int, b: int| 0 <= a < n && 0 <= b < n && a != b implies p[a] != p[b] by {}
    }
    perm
}

} // verus!
