use vstd::prelude::*;
use vstd::string::StrSliceExecFns;

verus! {

/// Lexicographic order on texts, character by character: the order of
/// `str`, since UTF-8 keeps the order of code points.
pub open spec fn chars_le(a: Seq<char>, b: Seq<char>) -> bool
    decreases a.len(),
{
    if a.len() == 0 {
        true
    } else if b.len() == 0 {
        false
    } else if a[0] != b[0] {
        a[0] < b[0]
    } else {
        chars_le(a.drop_first(), b.drop_first())
    }
}

/// Any two texts are ordered one way or the other.
pub proof fn lemma_chars_le_total(a: Seq<char>, b: Seq<char>)
    ensures
        chars_le(a, b) || chars_le(b, a),
    decreases a.len(),
{
    if a.len() > 0 && b.len() > 0 {
        if a[0] == b[0] {
            lemma_chars_le_total(a.drop_first(), b.drop_first());
        }
    }
}

/// The order is transitive.
pub proof fn lemma_chars_le_transitive(a: Seq<char>, b: Seq<char>, c: Seq<char>)
    requires
        chars_le(a, b),
        chars_le(b, c),
    ensures
        chars_le(a, c),
    decreases a.len(),
{
    if a.len() > 0 && b.len() > 0 && c.len() > 0 && a[0] == b[0] && b[0] == c[0] {
        lemma_chars_le_transitive(a.drop_first(), b.drop_first(), c.drop_first());
    }
}

/// Texts that agree on their first `i` characters compare as their rests.
proof fn lemma_chars_le_skip(a: Seq<char>, b: Seq<char>, i: int)
    requires
        0 <= i <= a.len(),
        i <= b.len(),
        forall|j: int| 0 <= j < i ==> a[j] == b[j],
    ensures
        chars_le(a, b) == chars_le(a.skip(i), b.skip(i)),
    decreases i,
{
    if i > 0 {
        assert(a.drop_first().skip(i - 1) =~= a.skip(i));
        assert(b.drop_first().skip(i - 1) =~= b.skip(i));
        lemma_chars_le_skip(a.drop_first(), b.drop_first(), i - 1);
    } else {
        assert(a.skip(0) =~= a);
        assert(b.skip(0) =~= b);
    }
}

/// Compares two texts in the order of `str`.
pub fn str_le(a: &str, b: &str) -> (le: bool)
    ensures
        le == chars_le(a@, b@),
{
    let n = a.unicode_len();
    let m = b.unicode_len();
    let mut i: usize = 0;
    while i < n && i < m
        invariant
            i <= n,
            i <= m,
            n == a@.len(),
            m == b@.len(),
            forall|j: int| 0 <= j < i ==> a@[j] == b@[j],
        decreases n - i,
    {
        let x = a.get_char(i);
        let y = b.get_char(i);
        if x != y {
            proof {
                lemma_chars_le_skip(a@, b@, i as int);
                assert(a@.skip(i as int)[0] == x);
                assert(b@.skip(i as int)[0] == y);
            }
            return x < y;
        }
        i = i + 1;
    }
    proof {
        lemma_chars_le_skip(a@, b@, i as int);
    }
    i == n
}

/// Texts in ascending order.
pub open spec fn texts_sorted(s: Seq<Seq<char>>) -> bool {
    forall|i: int, j: int| 0 <= i < j < s.len() ==> chars_le(#[trigger] s[i], #[trigger] s[j])
}

/// The texts of a list of strings.
pub open spec fn texts_of(v: Seq<String>) -> Seq<Seq<char>> {
    v.map_values(|s: String| s@)
}

/// Sorts strings in ascending order.
pub fn sort_strings(items: Vec<String>) -> (sorted: Vec<String>)
    ensures
        texts_sorted(texts_of(sorted@)),
        texts_of(sorted@).to_multiset() == texts_of(items@).to_multiset(),
{
    let mut sorted: Vec<String> = Vec::new();
    let mut k: usize = 0;
    assert(texts_of(sorted@) =~= texts_of(items@.take(0)));
    while k < items.len()
        invariant
            k <= items.len(),
            texts_sorted(texts_of(sorted@)),
            texts_of(sorted@).to_multiset() == texts_of(items@.take(k as int)).to_multiset(),
        decreases items.len() - k,
    {
        let x = items[k].clone();
        let mut p: usize = 0;
        while p < sorted.len() && str_le(sorted[p].as_str(), x.as_str())
            invariant
                p <= sorted.len(),
                forall|q: int| 0 <= q < p ==> chars_le(#[trigger] texts_of(sorted@)[q], x@),
            decreases sorted.len() - p,
        {
            p = p + 1;
        }
        let ghost before = texts_of(sorted@);
        sorted.insert(p, x);
        proof {
            let after = texts_of(sorted@);
            assert(after =~= before.insert(p as int, x@));
            if p < before.len() {
                lemma_chars_le_total(before[p as int], x@);
            }
            assert forall|i: int, j: int| 0 <= i < j < after.len() implies chars_le(
                #[trigger] after[i],
                #[trigger] after[j],
            ) by {
                if j < p {
                } else if i < p && j == p {
                } else if i < p {
                    assert(after[j] == before[j - 1]);
                    if p < before.len() {
                        lemma_chars_le_transitive(before[i], x@, before[p as int]);
                        if j - 1 > p {
                            lemma_chars_le_transitive(before[i], before[p as int], before[j - 1]);
                        }
                    }
                } else if i == p {
                    assert(after[j] == before[j - 1]);
                    if j - 1 > p {
                        lemma_chars_le_transitive(x@, before[p as int], before[j - 1]);
                    }
                } else {
                    assert(after[i] == before[i - 1]);
                    assert(after[j] == before[j - 1]);
                }
            }
            assert(texts_of(items@.take(k + 1)) =~= texts_of(items@.take(k as int)).push(items@[k as int]@));
            vstd::seq_lib::to_multiset_build(texts_of(items@.take(k as int)), x@);
            vstd::seq_lib::to_multiset_insert(before, p as int, x@);
        }
        k = k + 1;
    }
    assert(items@.take(items.len() as int) =~= items@);
    sorted
}

} // verus!
