//! Where a chunk of terminal output may be cut.
//!
//! The console decodes every write on its own, so a write that ends in the
//! middle of a UTF-8 sequence loses that character: the half already written
//! has no meaning, and neither has the half that follows in the next write.
//! [`complete_utf8_prefix`] tells how much of a chunk can be written at once;
//! the rest, three bytes at most, waits for the next chunk.

use vstd::prelude::*;
use vstd::utf8::*;

verus! {

/// How many bytes the sequence that `b` begins has; 0 where `b` begins none
/// (a continuation byte, or a byte that UTF-8 does not use as a first byte).
pub open spec fn sequence_width(b: u8) -> int {
    if b <= 0x7F {
        1
    } else if 0xC0 <= b <= 0xDF {
        2
    } else if 0xE0 <= b <= 0xEF {
        3
    } else if 0xF0 <= b <= 0xF7 {
        4
    } else {
        0
    }
}

/// A sequence begins at `j`, nothing begins after it, and it runs past the end of `s`.
pub open spec fn cut_sequence_at(s: Seq<u8>, j: int) -> bool {
    &&& 0 <= j < s.len()
    &&& s.len() - j < sequence_width(s[j])
    &&& forall|k: int| j < k < s.len() ==> is_continuation_byte(#[trigger] s[k])
}

/// The length of `s` without the sequence that its end cuts in two, if there is one.
pub open spec fn complete_len(s: Seq<u8>) -> int {
    if exists|j: int| cut_sequence_at(s, j) {
        choose|j: int| cut_sequence_at(s, j)
    } else {
        s.len() as int
    }
}

/// No two sequences are cut by the same end.
pub proof fn lemma_cut_is_unique(s: Seq<u8>, i: int, j: int)
    requires
        cut_sequence_at(s, i),
        cut_sequence_at(s, j),
    ensures
        i == j,
{
    if i < j {
        assert(is_continuation_byte(s[j]));
    }
    if j < i {
        assert(is_continuation_byte(s[i]));
    }
}

/// At most three bytes are held back, whatever the bytes are.
pub proof fn little_is_held_back(s: Seq<u8>)
    ensures
        0 <= complete_len(s) <= s.len(),
        s.len() - complete_len(s) <= 3,
{
}

/// How many of the first `n` bytes of `buf` can go to the console now: all of
/// them, unless the last one falls inside a sequence, which is then held back.
///
/// Bytes that are not UTF-8 are never held back for good: whatever does not look
/// like the beginning of a sequence is let through as it is.
pub fn complete_utf8_prefix(buf: &[u8], n: usize) -> (safe: usize)
    requires
        n <= buf@.len(),
    ensures
        safe as int == complete_len(buf@.take(n as int)),
        safe <= n,
        n - safe <= 3,
{
    let ghost s = buf@.take(n as int);
    // A sequence has four bytes at most, so an unfinished one began in the last three.
    let floor: usize = if n >= 3 { n - 3 } else { 0 };
    let mut i: usize = n;
    while i > floor
        invariant
            n <= buf@.len(),
            s == buf@.take(n as int),
            floor == if n >= 3 { n - 3 } else { 0 },
            floor <= i <= n,
            forall|k: int| i <= k < n ==> is_continuation_byte(#[trigger] s[k]),
        decreases i,
    {
        i = i - 1;
        let b: u8 = buf[i];
        assert(s[i as int] == b);
        assert(b & 0xC0 != 0x80 <==> !(0x80 <= b <= 0xBF)) by (bit_vector);
        if b & 0xC0 != 0x80 {
            let len: usize = if b <= 0x7F {
                1
            } else if b <= 0xDF {
                2
            } else if b <= 0xEF {
                3
            } else if b <= 0xF7 {
                4
            } else {
                0
            };
            assert(len == sequence_width(b));
            if len > n - i {
                proof {
                    assert(cut_sequence_at(s, i as int));
                    lemma_cut_is_unique(s, i as int, complete_len(s));
                }
                return i;
            }
            assert forall|j: int| !cut_sequence_at(s, j) by {
                if cut_sequence_at(s, j) {
                    if j < i {
                        assert(is_continuation_byte(s[i as int]));
                    } else if j > i {
                        assert(is_continuation_byte(s[j]));
                    }
                }
            }
            return n;
        }
    }
    assert forall|j: int| !cut_sequence_at(s, j) by {
        if cut_sequence_at(s, j) {
            assert(j >= floor);
            assert(is_continuation_byte(s[j]));
        }
    }
    n
}

/// Output that is cut chunk by chunk is cut where it would be cut as a whole: what
/// was held back, followed by the next chunk, ends in the same cut sequence as all
/// of the output does, if in any. This holds of all bytes, text or not.
pub proof fn chunks_are_cut_as_the_whole(a: Seq<u8>, b: Seq<u8>)
    ensures
        complete_len(a + b) == complete_len(a) + complete_len(a.skip(complete_len(a)) + b),
{
    let c = complete_len(a);
    little_is_held_back(a);
    let whole = a + b;
    let rest = a.skip(c) + b;
    if exists|j: int| cut_sequence_at(whole, j) {
        let j = complete_len(whole);
        assert(cut_sequence_at(whole, j));
        if j < c {
            if c < a.len() {
                assert(cut_sequence_at(a, c));
                assert(is_continuation_byte(whole[c]));
            } else {
                assert forall|k: int| j < k < a.len() implies is_continuation_byte(
                    #[trigger] a[k],
                ) by {
                    assert(whole[k] == a[k]);
                }
                assert(cut_sequence_at(a, j));
            }
        }
        assert forall|k: int| j - c < k < rest.len() implies is_continuation_byte(
            #[trigger] rest[k],
        ) by {
            assert(rest[k] == whole[c + k]);
        }
        assert(rest[j - c] == whole[j]);
        assert(cut_sequence_at(rest, j - c));
        lemma_cut_is_unique(rest, j - c, complete_len(rest));
    } else if exists|j: int| cut_sequence_at(rest, j) {
        let j = complete_len(rest);
        assert(cut_sequence_at(rest, j));
        assert forall|k: int| c + j < k < whole.len() implies is_continuation_byte(
            #[trigger] whole[k],
        ) by {
            assert(rest[k - c] == whole[k]);
        }
        assert(rest[j] == whole[c + j]);
        assert(cut_sequence_at(whole, c + j));
    }
}

/// The last byte at or before `n` that begins a sequence.
proof fn lemma_last_first_byte(t: Seq<u8>, n: int) -> (j: int)
    requires
        valid_utf8(t),
        0 <= n < t.len(),
    ensures
        0 <= j <= n,
        !is_continuation_byte(t[j]),
        forall|k: int| j < k <= n ==> is_continuation_byte(#[trigger] t[k]),
    decreases n,
{
    if !is_continuation_byte(t[n]) {
        n
    } else {
        if n == 0 {
            is_char_boundary_iff_not_is_continuation_byte(t, 0);
        }
        lemma_last_first_byte(t, n - 1)
    }
}

/// The sequence that begins at `j` in valid text lies in the text, and only
/// continuation bytes follow its first byte.
proof fn lemma_sequence_in_text(t: Seq<u8>, j: int)
    requires
        valid_utf8(t),
        0 <= j < t.len(),
        !is_continuation_byte(t[j]),
    ensures
        is_char_boundary(t, j),
        1 <= sequence_width(t[j]) <= t.len() - j,
        forall|k: int|
            j < k < j + sequence_width(t[j]) ==> is_continuation_byte(#[trigger] t[k]),
        j + sequence_width(t[j]) < t.len() ==> !is_continuation_byte(t[j + sequence_width(t[j])]),
{
    is_char_boundary_iff_not_is_continuation_byte(t, j);
    valid_utf8_split(t, j);
    let rest = t.subrange(j, t.len() as int);
    assert(rest[0] == t[j]);
    let w = sequence_width(t[j]);
    assert(length_of_first_scalar(rest) == w);
    assert forall|k: int| j < k < j + w implies is_continuation_byte(#[trigger] t[k]) by {
        assert(rest[k - j] == t[k]);
    }
    if j + w < t.len() {
        let tail = pop_first_scalar(rest);
        assert(tail[0] == t[j + w]);
        is_char_boundary_iff_not_is_continuation_byte(tail, 0);
    }
}

/// Cut anywhere, valid text is let through up to the last character that is
/// whole: the length is a character boundary, and there is no later one
/// before the cut. So what is let through is valid text too.
pub proof fn cut_text_keeps_whole_characters(t: Seq<u8>, n: int)
    requires
        valid_utf8(t),
        0 <= n <= t.len(),
    ensures
        0 <= complete_len(t.take(n)) <= n,
        n - complete_len(t.take(n)) <= 3,
        is_char_boundary(t, complete_len(t.take(n))),
        forall|k: int| complete_len(t.take(n)) < k <= n ==> !#[trigger] is_char_boundary(t, k),
        valid_utf8(t.take(complete_len(t.take(n)))),
        valid_utf8(t.skip(complete_len(t.take(n)))),
{
    let s = t.take(n);
    let c = complete_len(s);
    if exists|j: int| cut_sequence_at(s, j) {
        assert(cut_sequence_at(s, c));
        assert(!is_continuation_byte(t[c]));
        lemma_sequence_in_text(t, c);
        assert forall|k: int| c < k <= n implies !#[trigger] is_char_boundary(t, k) by {
            assert(is_continuation_byte(t[k]));
            is_char_boundary_iff_not_is_continuation_byte(t, k);
        }
    } else if n == t.len() {
        is_char_boundary_start_end_of_seq(t);
    } else {
        if is_continuation_byte(t[n]) {
            let j = lemma_last_first_byte(t, n);
            lemma_sequence_in_text(t, j);
            assert(s[j] == t[j]);
            assert forall|k: int| j < k < s.len() implies is_continuation_byte(#[trigger] s[k]) by {
                assert(s[k] == t[k]);
            }
            assert(cut_sequence_at(s, j));
        }
        is_char_boundary_iff_not_is_continuation_byte(t, n);
    }
    valid_utf8_split(t, c);
    assert(t.take(c) =~= t.subrange(0, c));
    assert(t.skip(c) =~= t.subrange(c, t.len() as int));
}

/// What is held back, of all bytes there are: the end of the output from its last
/// byte that is no continuation byte on, and that only where this byte begins a
/// sequence of more bytes than are there. Everything else goes out at once.
pub proof fn only_begun_sequences_are_held_back(s: Seq<u8>, j: int)
    requires
        -1 <= j < s.len(),
        j >= 0 ==> !(0x80 <= s[j] <= 0xBF),
        forall|k: int| j < k < s.len() ==> 0x80 <= #[trigger] s[k] <= 0xBF,
    ensures
        ({
            let there = s.len() - j;
            let begun = {
                ||| 0xC0 <= s[j] <= 0xDF && there < 2
                ||| 0xE0 <= s[j] <= 0xEF && there < 3
                ||| 0xF0 <= s[j] <= 0xF7 && there < 4
            };
            complete_len(s) == if j >= 0 && begun {
                j
            } else {
                s.len() as int
            }
        }),
{
    if exists|i: int| cut_sequence_at(s, i) {
        let i = complete_len(s);
        assert(cut_sequence_at(s, i));
        if i > j {
            assert(0x80 <= s[i] <= 0xBF);
        } else if i < j {
            assert(is_continuation_byte(s[j]));
        }
    } else if j >= 0 {
        assert(!cut_sequence_at(s, j));
    }
}

} // verus!
