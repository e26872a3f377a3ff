use vstd::prelude::*;
use vstd::string::*;

verus! {

/// The first place, from `from` on, at which two texts differ or one of them
/// ends.
pub open spec fn first_difference(a: Seq<char>, b: Seq<char>, from: int) -> int
    decreases a.len() - from,
{
    if from >= a.len() || from >= b.len() || a[from] != b[from] {
        from
    } else {
        first_difference(a, b, from + 1)
    }
}

/// Whether one text comes before another in the order of a dictionary that
/// goes by code points: at the first place where they differ the earlier
/// text has the smaller character, or it has ended. This is the order in
/// which the standard library sorts strings.
pub open spec fn text_before(a: Seq<char>, b: Seq<char>) -> bool {
    let k = first_difference(a, b, 0);
    if k < a.len() && k < b.len() {
        a[k] < b[k]
    } else {
        a.len() < b.len()
    }
}

/// Up to their first difference two texts agree, and there they differ or
/// one of them ends.
pub proof fn lemma_first_difference(a: Seq<char>, b: Seq<char>, from: int)
    requires
        0 <= from <= a.len(),
        from <= b.len(),
    ensures
        from <= first_difference(a, b, from),
        first_difference(a, b, from) <= a.len(),
        first_difference(a, b, from) <= b.len(),
        forall|i: int| from <= i < first_difference(a, b, from) ==> a[i] == b[i],
        first_difference(a, b, from) < a.len() && first_difference(a, b, from) < b.len() ==> a[first_difference(
            a,
            b,
            from,
        )] != b[first_difference(a, b, from)],
    decreases a.len() - from,
{
    if !(from >= a.len() || from >= b.len() || a[from] != b[from]) {
        lemma_first_difference(a, b, from + 1);
    }
}

/// A place up to which two texts agree, and at which they differ or one of
/// them ends, is their first difference.
pub proof fn lemma_first_difference_is(a: Seq<char>, b: Seq<char>, from: int, k: int)
    requires
        0 <= from <= k,
        k <= a.len(),
        k <= b.len(),
        forall|i: int| from <= i < k ==> a[i] == b[i],
        k < a.len() && k < b.len() ==> a[k] != b[k],
    ensures
        first_difference(a, b, from) == k,
    decreases k - from,
{
    if from < k {
        assert(a[from] == b[from]);
        lemma_first_difference_is(a, b, from + 1, k);
    }
}

/// No text comes before itself.
pub proof fn lemma_text_before_irreflexive(a: Seq<char>)
    ensures
        !text_before(a, a),
{
    lemma_first_difference(a, a, 0);
}

/// Of two different texts one comes before the other, and not both.
pub proof fn lemma_text_before_total(a: Seq<char>, b: Seq<char>)
    ensures
        a != b ==> (text_before(a, b) || text_before(b, a)),
        !(text_before(a, b) && text_before(b, a)),
{
    lemma_first_difference(a, b, 0);
    let k = first_difference(a, b, 0);
    lemma_first_difference_is(b, a, 0, k);
    if !text_before(a, b) && !text_before(b, a) {
        assert(a =~= b);
    }
}

/// What comes before a text comes before all that the text comes before.
pub proof fn lemma_text_before_transitive(a: Seq<char>, b: Seq<char>, c: Seq<char>)
    requires
        text_before(a, b),
        text_before(b, c),
    ensures
        text_before(a, c),
{
    lemma_first_difference(a, b, 0);
    lemma_first_difference(b, c, 0);
    let k1 = first_difference(a, b, 0);
    let k2 = first_difference(b, c, 0);
    let k = if k1 <= k2 {
        k1
    } else {
        k2
    };
    assert forall|i: int| 0 <= i < k implies a[i] == c[i] by {
        assert(a[i] == b[i]);
        assert(b[i] == c[i]);
    }
    if k1 < k2 {
        // a and b part ways first; c still agrees with b there
        assert(b[k1] == c[k1]);
        lemma_first_difference_is(a, c, 0, k1);
    } else if k2 < k1 {
        assert(a[k2] == b[k2]);
        lemma_first_difference_is(a, c, 0, k2);
    } else {
        lemma_first_difference_is(a, c, 0, k);
    }
}

/// Tests whether one text comes before another.
pub fn is_text_before(a: &str, b: &str) -> (before: bool)
    ensures
        before == text_before(a@, b@),
{
    let a_len = a.unicode_len();
    let b_len = b.unicode_len();
    let mut k: usize = 0;
    while k < a_len && k < b_len && a.get_char(k) == b.get_char(k)
        invariant
            k <= a_len,
            k <= b_len,
            a_len == a@.len(),
            b_len == b@.len(),
            first_difference(a@, b@, 0) == first_difference(a@, b@, k as int),
        decreases a_len - k,
    {
        k = k + 1;
    }
    if k < a_len && k < b_len {
        a.get_char(k) < b.get_char(k)
    } else {
        a_len < b_len
    }
}

/// Whether texts stand in ascending order, none twice.
pub open spec fn ascending(texts: Seq<Seq<char>>) -> bool {
    forall|i: int, j: int| 0 <= i < j < texts.len() ==> text_before(texts[i], texts[j])
}

} // verus!
