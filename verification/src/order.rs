//! The comparison operators of segments and keys: segments in `str` order
//! of their texts, keys lexicographically by segment.

use std::cmp::Ordering;

use vstd::prelude::*;

use crate::key::{key_less, text_less, Key, Segment};

verus! {

/// The three-way comparison that a strict order on values gives.
pub open spec fn ordering_of(less: bool, equal: bool) -> Option<Ordering> {
    if less {
        Some(Ordering::Less)
    } else if equal {
        Some(Ordering::Equal)
    } else {
        Some(Ordering::Greater)
    }
}

impl PartialOrd for Segment {
    fn partial_cmp(&self, other: &Self) -> (r: Option<Ordering>) {
        if self.less_than(other) {
            Some(Ordering::Less)
        } else if self.same_as(other) {
            Some(Ordering::Equal)
        } else {
            Some(Ordering::Greater)
        }
    }
}

impl vstd::std_specs::cmp::PartialOrdSpecImpl for Segment {
    open spec fn obeys_partial_cmp_spec() -> bool {
        true
    }

    open spec fn partial_cmp_spec(&self, other: &Self) -> Option<Ordering> {
        ordering_of(text_less(self@, other@), self@ == other@)
    }
}

impl PartialOrd for Key {
    fn partial_cmp(&self, other: &Self) -> (r: Option<Ordering>) {
        if self.less_than(other) {
            Some(Ordering::Less)
        } else if self.same_as(other) {
            Some(Ordering::Equal)
        } else {
            Some(Ordering::Greater)
        }
    }
}

impl vstd::std_specs::cmp::PartialOrdSpecImpl for Key {
    open spec fn obeys_partial_cmp_spec() -> bool {
        true
    }

    open spec fn partial_cmp_spec(&self, other: &Self) -> Option<Ordering> {
        ordering_of(key_less(self@, other@), self@ == other@)
    }
}

proof fn lemma_text_less_total(a: Seq<char>, b: Seq<char>)
    ensures
        !(text_less(a, b) && text_less(b, a)),
        text_less(a, b) || a == b || text_less(b, a),
    decreases a.len(),
{
    if a.len() > 0 && b.len() > 0 && a[0] == b[0] {
        lemma_text_less_total(a.drop_first(), b.drop_first());
        if a.drop_first() == b.drop_first() {
            assert(a =~= seq![a[0]] + a.drop_first());
            assert(b =~= seq![b[0]] + b.drop_first());
        }
    } else if a.len() == 0 && b.len() == 0 {
        assert(a =~= b);
    }
}

proof fn lemma_text_less_transitive(a: Seq<char>, b: Seq<char>, c: Seq<char>)
    requires
        text_less(a, b),
        text_less(b, c),
    ensures
        text_less(a, c),
    decreases a.len(),
{
    if a.len() > 0 && a[0] == b[0] && b[0] == c[0] {
        lemma_text_less_transitive(a.drop_first(), b.drop_first(), c.drop_first());
    }
}

proof fn lemma_key_less_total(a: Seq<Seq<char>>, b: Seq<Seq<char>>)
    ensures
        !(key_less(a, b) && key_less(b, a)),
        key_less(a, b) || a == b || key_less(b, a),
    decreases a.len(),
{
    if a.len() > 0 && b.len() > 0 {
        if a[0] == b[0] {
            lemma_key_less_total(a.drop_first(), b.drop_first());
            if a.drop_first() == b.drop_first() {
                assert(a =~= seq![a[0]] + a.drop_first());
                assert(b =~= seq![b[0]] + b.drop_first());
            }
        } else {
            lemma_text_less_total(a[0], b[0]);
        }
    } else if a.len() == 0 && b.len() == 0 {
        assert(a =~= b);
    }
}

proof fn lemma_key_less_transitive(a: Seq<Seq<char>>, b: Seq<Seq<char>>, c: Seq<Seq<char>>)
    requires
        key_less(a, b),
        key_less(b, c),
    ensures
        key_less(a, c),
    decreases a.len(),
{
    if a.len() > 0 && b.len() > 0 && c.len() > 0 {
        if a[0] == b[0] && b[0] == c[0] {
            lemma_key_less_transitive(a.drop_first(), b.drop_first(), c.drop_first());
        } else if a[0] == b[0] {
            lemma_text_less_total(b[0], c[0]);
        } else if b[0] == c[0] {
            lemma_text_less_total(a[0], b[0]);
        } else {
            lemma_text_less_transitive(a[0], b[0], c[0]);
            lemma_text_less_total(a[0], c[0]);
        }
    }
}

/// Segment order is a strict total order: no text comes before itself or
/// before one that comes before it, any two texts are equal or ordered one
/// way, and the order is transitive.
pub proof fn law_segment_order_total(a: Seq<char>, b: Seq<char>, c: Seq<char>)
    ensures
        !text_less(a, a),
        !(text_less(a, b) && text_less(b, a)),
        text_less(a, b) || a == b || text_less(b, a),
        text_less(a, b) && text_less(b, c) ==> text_less(a, c),
{
    lemma_text_less_total(a, a);
    lemma_text_less_total(a, b);
    if text_less(a, b) && text_less(b, c) {
        lemma_text_less_transitive(a, b, c);
    }
}

/// Key order is a strict total order: no key comes before itself or before
/// one that comes before it, any two keys are equal or ordered one way, and
/// the order is transitive.
pub proof fn law_key_order_total(a: Seq<Seq<char>>, b: Seq<Seq<char>>, c: Seq<Seq<char>>)
    ensures
        !key_less(a, a),
        !(key_less(a, b) && key_less(b, a)),
        key_less(a, b) || a == b || key_less(b, a),
        key_less(a, b) && key_less(b, c) ==> key_less(a, c),
{
    lemma_key_less_total(a, a);
    lemma_key_less_total(a, b);
    if key_less(a, b) && key_less(b, c) {
        lemma_key_less_transitive(a, b, c);
    }
}

/// `a` comes before `b` in the lexicographic order of character
/// sequences: it is a proper prefix of `b`, or at the first position where
/// they differ its character is the smaller.
pub open spec fn chars_before(a: Seq<char>, b: Seq<char>) -> bool {
    ||| a.len() < b.len() && b.take(a.len() as int) == a
    ||| exists|i: int|
        0 <= i < a.len() && i < b.len() && a.take(i) == b.take(i) && #[trigger] a[i] < b[i]
}

/// `a` comes before `b` in the lexicographic order of segment sequences,
/// segments compared by text: it is a proper prefix of `b`, or at the first
/// segment where they differ its segment comes first.
pub open spec fn segments_before(a: Seq<Seq<char>>, b: Seq<Seq<char>>) -> bool {
    ||| a.len() < b.len() && b.take(a.len() as int) == a
    ||| exists|i: int|
        0 <= i < a.len() && i < b.len() && a.take(i) == b.take(i) && #[trigger] chars_before(
            a[i],
            b[i],
        )
}

/// Segment order is the lexicographic order of `str`: a text comes before
/// each of its proper extensions, and otherwise the first differing
/// character decides, whatever the lengths (so `"aa"` comes before `"b"`).
pub proof fn law_segment_order_lexicographic(a: Seq<char>, b: Seq<char>)
    ensures
        text_less(a, b) <==> chars_before(a, b),
    decreases a.len(),
{
    if a.len() == 0 {
        assert(b.take(0) =~= a);
    } else if b.len() == 0 {
    } else if a[0] != b[0] {
        if a[0] < b[0] {
            assert(a.take(0) =~= b.take(0));
            assert(0 < a.len() && 0 < b.len() && a.take(0) == b.take(0) && a[0] < b[0]);
        }
        if chars_before(a, b) {
            if a.len() < b.len() && b.take(a.len() as int) == a {
                assert(b.take(a.len() as int)[0] == b[0]);
            } else {
                let i = choose|i: int|
                    0 <= i < a.len() && i < b.len() && a.take(i) == b.take(i) && #[trigger] a[i]
                        < b[i];
                if i > 0 {
                    assert(a.take(i)[0] == b.take(i)[0]);
                }
            }
        }
    } else {
        let a1 = a.drop_first();
        let b1 = b.drop_first();
        law_segment_order_lexicographic(a1, b1);
        if chars_before(a1, b1) {
            if a1.len() < b1.len() && b1.take(a1.len() as int) == a1 {
                assert(b.take(a.len() as int) =~= seq![b[0]] + b1.take(a1.len() as int));
                assert(a =~= seq![a[0]] + a1);
            } else {
                let i = choose|i: int|
                    0 <= i < a1.len() && i < b1.len() && a1.take(i) == b1.take(i) && #[trigger] a1[i]
                        < b1[i];
                assert(a.take(i + 1) =~= seq![a[0]] + a1.take(i));
                assert(b.take(i + 1) =~= seq![b[0]] + b1.take(i));
                assert(a[i + 1] == a1[i] && b[i + 1] == b1[i]);
            }
        }
        if chars_before(a, b) {
            if a.len() < b.len() && b.take(a.len() as int) == a {
                assert(b1.take(a1.len() as int) =~= b.take(a.len() as int).drop_first());
                assert(a1 =~= a.drop_first());
            } else {
                let i = choose|i: int|
                    0 <= i < a.len() && i < b.len() && a.take(i) == b.take(i) && #[trigger] a[i]
                        < b[i];
                assert(i > 0);
                assert(a1.take(i - 1) =~= a.take(i).drop_first());
                assert(b1.take(i - 1) =~= b.take(i).drop_first());
                assert(a1[i - 1] == a[i] && b1[i - 1] == b[i]);
            }
        }
    }
}

/// Key order is the lexicographic order of the segment sequences,
/// segments compared in `str` order: a key comes before each of its proper
/// extensions, and otherwise the first differing segment decides, whatever
/// the number of segments.
pub proof fn law_key_order_lexicographic(a: Seq<Seq<char>>, b: Seq<Seq<char>>)
    ensures
        key_less(a, b) <==> segments_before(a, b),
    decreases a.len(),
{
    if a.len() == 0 {
        assert(b.take(0) =~= a);
    } else if b.len() == 0 {
    } else if a[0] != b[0] {
        law_segment_order_lexicographic(a[0], b[0]);
        if text_less(a[0], b[0]) {
            assert(a.take(0) =~= b.take(0));
            assert(0 < a.len() && 0 < b.len() && a.take(0) == b.take(0) && chars_before(a[0], b[0]));
        }
        if segments_before(a, b) {
            if a.len() < b.len() && b.take(a.len() as int) == a {
                assert(b.take(a.len() as int)[0] == b[0]);
            } else {
                let i = choose|i: int|
                    0 <= i < a.len() && i < b.len() && a.take(i) == b.take(i)
                        && #[trigger] chars_before(a[i], b[i]);
                if i > 0 {
                    assert(a.take(i)[0] == b.take(i)[0]);
                }
            }
        }
    } else {
        let a1 = a.drop_first();
        let b1 = b.drop_first();
        law_key_order_lexicographic(a1, b1);
        if segments_before(a1, b1) {
            if a1.len() < b1.len() && b1.take(a1.len() as int) == a1 {
                assert(b.take(a.len() as int) =~= seq![b[0]] + b1.take(a1.len() as int));
                assert(a =~= seq![a[0]] + a1);
            } else {
                let i = choose|i: int|
                    0 <= i < a1.len() && i < b1.len() && a1.take(i) == b1.take(i)
                        && #[trigger] chars_before(a1[i], b1[i]);
                assert(a.take(i + 1) =~= seq![a[0]] + a1.take(i));
                assert(b.take(i + 1) =~= seq![b[0]] + b1.take(i));
                assert(a[i + 1] == a1[i] && b[i + 1] == b1[i]);
            }
        }
        if segments_before(a, b) {
            if a.len() < b.len() && b.take(a.len() as int) == a {
                assert(b1.take(a1.len() as int) =~= b.take(a.len() as int).drop_first());
                assert(a1 =~= a.drop_first());
            } else {
                let i = choose|i: int|
                    0 <= i < a.len() && i < b.len() && a.take(i) == b.take(i)
                        && #[trigger] chars_before(a[i], b[i]);
                if i == 0 {
                    law_segment_order_lexicographic(a[0], b[0]);
                    assert(text_less(a[0], a[0]) == chars_before(a[0], b[0]));
                    lemma_no_char_before_self(a[0]);
                }
                assert(i > 0);
                assert(a1.take(i - 1) =~= a.take(i).drop_first());
                assert(b1.take(i - 1) =~= b.take(i).drop_first());
                assert(a1[i - 1] == a[i] && b1[i - 1] == b[i]);
            }
        }
    }
}

proof fn lemma_no_char_before_self(a: Seq<char>)
    ensures
        !chars_before(a, a),
{
    if chars_before(a, a) {
        let i = choose|i: int|
            0 <= i < a.len() && i < a.len() && a.take(i) == a.take(i) && #[trigger] a[i] < a[i];
    }
}

} // verus!
