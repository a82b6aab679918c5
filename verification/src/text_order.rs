//! The order of texts, and texts in that order.
//!
//! Texts are ordered by the bytes of their UTF-8 encoding, the first byte that
//! differs deciding, and a text before every longer one that it begins.

use vstd::prelude::*;
use vstd::utf8::*;

verus! {

/// `a` is not after `b`.
pub open spec fn bytes_le(a: Seq<u8>, b: Seq<u8>) -> bool
    decreases a.len(),
{
    a.len() == 0 || (b.len() > 0 && (a[0] < b[0] || (a[0] == b[0] && bytes_le(
        a.drop_first(),
        b.drop_first(),
    ))))
}

/// The text `a` is not after the text `b`.
pub open spec fn text_le(a: Seq<char>, b: Seq<char>) -> bool {
    bytes_le(encode_utf8(a), encode_utf8(b))
}

/// Each text is followed by none that is before it.
pub open spec fn in_order(s: Seq<Seq<char>>) -> bool {
    forall|i: int, j: int| 0 <= i < j < s.len() ==> #[trigger] text_le(s[i], s[j])
}

/// The texts that strings hold.
pub open spec fn texts(v: Seq<String>) -> Seq<Seq<char>> {
    Seq::new(v.len(), |i: int| v[i]@)
}

proof fn lemma_bytes_total(a: Seq<u8>, b: Seq<u8>)
    ensures
        bytes_le(a, b) || bytes_le(b, a),
    decreases a.len(),
{
    if a.len() > 0 && b.len() > 0 {
        lemma_bytes_total(a.drop_first(), b.drop_first());
    }
}

proof fn lemma_bytes_transitive(a: Seq<u8>, b: Seq<u8>, c: Seq<u8>)
    requires
        bytes_le(a, b),
        bytes_le(b, c),
    ensures
        bytes_le(a, c),
    decreases a.len(),
{
    if a.len() > 0 && a[0] == b[0] && b[0] == c[0] {
        lemma_bytes_transitive(a.drop_first(), b.drop_first(), c.drop_first());
    }
}

proof fn lemma_bytes_antisymmetric(a: Seq<u8>, b: Seq<u8>)
    requires
        bytes_le(a, b),
        bytes_le(b, a),
    ensures
        a == b,
    decreases a.len(),
{
    if a.len() > 0 {
        lemma_bytes_antisymmetric(a.drop_first(), b.drop_first());
        assert(a =~= seq![a[0]] + a.drop_first());
        assert(b =~= seq![b[0]] + b.drop_first());
    } else {
        assert(a =~= b);
    }
}

/// Of any two texts one is not after the other, and two that are not after each
/// other are the same.
pub proof fn texts_are_ordered(a: Seq<char>, b: Seq<char>, c: Seq<char>)
    ensures
        text_le(a, b) || text_le(b, a),
        text_le(a, b) && text_le(b, a) ==> a == b,
        text_le(a, b) && text_le(b, c) ==> text_le(a, c),
{
    lemma_bytes_total(encode_utf8(a), encode_utf8(b));
    if text_le(a, b) && text_le(b, a) {
        lemma_bytes_antisymmetric(encode_utf8(a), encode_utf8(b));
        encode_utf8_decode_utf8(a);
        encode_utf8_decode_utf8(b);
    }
    if text_le(a, b) && text_le(b, c) {
        lemma_bytes_transitive(encode_utf8(a), encode_utf8(b), encode_utf8(c));
    }
}

/// `a` and `b` are the same in front of position `k`, and there `a` has the lower
/// character.
pub open spec fn lower_from(a: Seq<char>, b: Seq<char>, k: int) -> bool {
    &&& 0 <= k < a.len()
    &&& k < b.len()
    &&& a.take(k) == b.take(k)
    &&& a[k] < b[k]
}

/// The first character in which `a` and `b` differ is lower in `a`.
pub open spec fn goes_before(a: Seq<char>, b: Seq<char>) -> bool {
    exists|k: int| lower_from(a, b, k)
}

/// What is before or the same stays so with something in front of it; what is
/// before stays so whatever follows.
pub proof fn lemma_before_in_parts(p: Seq<char>, q: Seq<char>, x: Seq<char>, y: Seq<char>)
    ensures
        goes_before(p, q) ==> goes_before(p + x, q + y),
        p == q && goes_before(x, y) ==> goes_before(p + x, q + y),
        p == q && x == y ==> p + x == q + y,
{
    if goes_before(p, q) {
        let k = choose|k: int| lower_from(p, q, k);
        assert((p + x).take(k) =~= p.take(k));
        assert((q + y).take(k) =~= q.take(k));
        assert(lower_from(p + x, q + y, k));
    }
    if p == q && goes_before(x, y) {
        let k = choose|k: int| lower_from(x, y, k);
        assert((p + x).take(p.len() + k) =~= p + x.take(k));
        assert((q + y).take(p.len() + k) =~= q + y.take(k));
        assert(lower_from(p + x, q + y, p.len() + k));
    }
}

proof fn lemma_bytes_le_from(a: Seq<u8>, b: Seq<u8>, k: int)
    requires
        0 <= k < a.len(),
        k < b.len(),
        forall|i: int| 0 <= i < k ==> #[trigger] a[i] == b[i],
        a[k] < b[k],
    ensures
        bytes_le(a, b),
    decreases k,
{
    if k > 0 {
        assert(a[0] == b[0]);
        assert forall|i: int| 0 <= i < k - 1 implies #[trigger] a.drop_first()[i]
            == b.drop_first()[i] by {
            assert(a[i + 1] == b[i + 1]);
        }
        lemma_bytes_le_from(a.drop_first(), b.drop_first(), k - 1);
    }
}

/// ASCII texts are in the order of the first characters in which they differ.
pub proof fn lower_texts_come_first(a: Seq<char>, b: Seq<char>)
    requires
        is_ascii_chars(a),
        is_ascii_chars(b),
        goes_before(a, b),
    ensures
        text_le(a, b),
        a != b,
{
    let k = choose|k: int| lower_from(a, b, k);
    is_ascii_chars_encode_utf8(a);
    is_ascii_chars_encode_utf8(b);
    let x = encode_utf8(a);
    let y = encode_utf8(b);
    assert forall|i: int| 0 <= i < k implies #[trigger] x[i] == y[i] by {
        assert(a.take(k)[i] == b.take(k)[i]);
        assert(a[i] as u8 == x[i]);
        assert(b[i] as u8 == y[i]);
    }
    assert(a[k] as u8 == x[k]);
    assert(b[k] as u8 == y[k]);
    lemma_bytes_le_from(x, y, k);
}

/// Whether `a` is not after `b`.
pub fn not_after(a: &str, b: &str) -> (r: bool)
    ensures
        r == text_le(a@, b@),
{
    let x: &[u8] = a.as_bytes();
    let y: &[u8] = b.as_bytes();
    let mut i: usize = 0;
    assert(x@.skip(0) =~= x@);
    assert(y@.skip(0) =~= y@);
    while i < x.len() && i < y.len()
        invariant
            x@ == encode_utf8(a@),
            y@ == encode_utf8(b@),
            i <= x@.len(),
            i <= y@.len(),
            bytes_le(x@, y@) == bytes_le(x@.skip(i as int), y@.skip(i as int)),
        decreases x@.len() - i,
    {
        let ghost p = x@.skip(i as int);
        let ghost q = y@.skip(i as int);
        assert(p[0] == x@[i as int] && q[0] == y@[i as int]);
        if x[i] < y[i] {
            return true;
        }
        if x[i] > y[i] {
            return false;
        }
        assert(p.drop_first() =~= x@.skip(i + 1));
        assert(q.drop_first() =~= y@.skip(i + 1));
        i = i + 1;
    }
    i == x.len()
}

/// Puts `text` into `list`, which is in order, where it belongs.
pub fn insert_in_order(list: &mut Vec<String>, text: String)
    requires
        in_order(texts(old(list)@)),
    ensures
        in_order(texts(final(list)@)),
        texts(final(list)@).to_multiset() == texts(old(list)@).to_multiset().insert(text@),
{
    let mut at: usize = list.len();
    while at > 0 && !not_after(list[at - 1].as_str(), text.as_str())
        invariant
            at <= list@.len(),
            list@ == old(list)@,
            in_order(texts(list@)),
            forall|k: int| at <= k < list@.len() ==> !#[trigger] text_le(list@[k]@, text@),
        decreases at,
    {
        at = at - 1;
    }
    let ghost before = texts(list@);
    let ghost word = text@;
    list.insert(at, text);
    proof {
        let after = texts(list@);
        assert(after =~= before.insert(at as int, word));
        vstd::seq_lib::to_multiset_insert(before, at as int, word);
        assert forall|i: int, j: int| 0 <= i < j < after.len() implies #[trigger] text_le(
            after[i],
            after[j],
        ) by {
            let p = if i < at {
                i
            } else {
                i - 1
            };
            let q = if j < at {
                j
            } else {
                j - 1
            };
            if j == at {
                // The last text in front of the new one is not after it, nor is any before that.
                assert(text_le(before[at - 1], word));
                if i < at - 1 {
                    assert(text_le(before[i], before[at - 1]));
                    texts_are_ordered(before[i], before[at - 1], word);
                }
            } else if i == at {
                assert(!text_le(old(list)@[q]@, word));
                texts_are_ordered(before[q], word, word);
            } else {
                assert(text_le(before[p], before[q]));
            }
        }
    }
}

/// Two lists in order that hold the same texts, equally often, are the same list.
pub proof fn order_leaves_no_choice(a: Seq<Seq<char>>, b: Seq<Seq<char>>)
    requires
        in_order(a),
        in_order(b),
        a.to_multiset() == b.to_multiset(),
    ensures
        a == b,
{
    let le = |x: Seq<char>, y: Seq<char>| text_le(x, y);
    assert forall|x: Seq<char>| #[trigger] le(x, x) by {
        texts_are_ordered(x, x, x);
    }
    assert forall|x: Seq<char>, y: Seq<char>| #[trigger] le(x, y) || #[trigger] le(y, x) by {
        texts_are_ordered(x, y, x);
    }
    assert forall|x: Seq<char>, y: Seq<char>| #[trigger] le(x, y) && #[trigger] le(y, x) implies x
        == y by {
        texts_are_ordered(x, y, x);
    }
    assert forall|x: Seq<char>, y: Seq<char>, z: Seq<char>| #[trigger]
        le(x, y) && #[trigger] le(y, z) implies le(x, z) by {
        texts_are_ordered(x, y, z);
    }
    assert(vstd::relations::total_ordering(le));
    vstd::seq_lib::lemma_sorted_unique(a, b, le);
}

/// Of any two texts the first byte in which their encodings differ decides, wherever it
/// stands and whatever follows; where there is none, the shorter text is not after the
/// longer one. `k` is how many bytes in front are the same.
pub proof fn the_first_difference_decides(a: Seq<char>, b: Seq<char>, k: int)
    requires
        0 <= k <= encode_utf8(a).len(),
        k <= encode_utf8(b).len(),
        forall|i: int| 0 <= i < k ==> #[trigger] encode_utf8(a)[i] == encode_utf8(b)[i],
    ensures
        k == encode_utf8(a).len() ==> text_le(a, b),
        k < encode_utf8(a).len() && k == encode_utf8(b).len() ==> !text_le(a, b),
        k < encode_utf8(a).len() && k < encode_utf8(b).len() && encode_utf8(a)[k]
            != encode_utf8(b)[k] ==> (text_le(a, b) <==> encode_utf8(a)[k] < encode_utf8(b)[k]),
{
    lemma_first_byte_decides(encode_utf8(a), encode_utf8(b), k);
}

proof fn lemma_first_byte_decides(x: Seq<u8>, y: Seq<u8>, k: int)
    requires
        0 <= k <= x.len(),
        k <= y.len(),
        forall|i: int| 0 <= i < k ==> #[trigger] x[i] == y[i],
    ensures
        k == x.len() ==> bytes_le(x, y),
        k < x.len() && k == y.len() ==> !bytes_le(x, y),
        k < x.len() && k < y.len() && x[k] != y[k] ==> (bytes_le(x, y) <==> x[k] < y[k]),
    decreases k,
{
    if k > 0 {
        assert(x[0] == y[0]);
        assert forall|i: int| 0 <= i < k - 1 implies #[trigger] x.drop_first()[i]
            == y.drop_first()[i] by {
            assert(x[i + 1] == y[i + 1]);
        }
        lemma_first_byte_decides(x.drop_first(), y.drop_first(), k - 1);
    }
}

} // verus!
