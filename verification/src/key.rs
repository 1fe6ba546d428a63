//! Keys for the key-value store: a non-empty sequence of slug segments,
//! written as the segments joined by `:`.

use smallvec::SmallVec;
use vstd::prelude::*;
use vstd::string::*;
use vstd::utf8::*;

use crate::slug::{
    is_slug_char, is_strict_slug, lemma_strict_slug_fixpoint, lemma_strict_slug_view,
    strict_slug_of, StrictSlug,
};
use crate::starc::Starc;
use crate::text::{decode_utf8_bytes, push_char_to};

verus! {

broadcast use {vstd::string::group_string_axioms, crate::slug::lemma_strict_slug_view};

// ---------------------------------------------------------------------------
// Text order

/// Lexicographic order on character sequences (the order of `str`).
pub open spec fn text_less(a: Seq<char>, b: Seq<char>) -> bool
    decreases a.len(),
{
    if a.len() == 0 {
        b.len() > 0
    } else if b.len() == 0 {
        false
    } else if a[0] != b[0] {
        a[0] < b[0]
    } else {
        text_less(a.drop_first(), b.drop_first())
    }
}

/// Lexicographic order on sequences of segments, segments compared by text.
pub open spec fn key_less(a: Seq<Seq<char>>, b: Seq<Seq<char>>) -> bool
    decreases a.len(),
{
    if a.len() == 0 {
        b.len() > 0
    } else if b.len() == 0 {
        false
    } else if a[0] != b[0] {
        text_less(a[0], b[0])
    } else {
        key_less(a.drop_first(), b.drop_first())
    }
}

proof fn lemma_text_less_skip(a: Seq<char>, b: Seq<char>, i: int)
    requires
        0 <= i <= a.len(),
        i <= b.len(),
        a.take(i) == b.take(i),
    ensures
        text_less(a, b) == text_less(a.skip(i), b.skip(i)),
    decreases i,
{
    if i > 0 {
        assert(a[0] == a.take(i)[0]);
        assert(b[0] == b.take(i)[0]);
        assert(a.drop_first().take(i - 1) =~= a.take(i).drop_first());
        assert(b.drop_first().take(i - 1) =~= b.take(i).drop_first());
        lemma_text_less_skip(a.drop_first(), b.drop_first(), i - 1);
        assert(a.drop_first().skip(i - 1) =~= a.skip(i));
        assert(b.drop_first().skip(i - 1) =~= b.skip(i));
    } else {
        assert(a.skip(0) =~= a);
        assert(b.skip(0) =~= b);
    }
}

proof fn lemma_key_less_skip(a: Seq<Seq<char>>, b: Seq<Seq<char>>, i: int)
    requires
        0 <= i <= a.len(),
        i <= b.len(),
        a.take(i) == b.take(i),
    ensures
        key_less(a, b) == key_less(a.skip(i), b.skip(i)),
    decreases i,
{
    if i > 0 {
        assert(a[0] == a.take(i)[0]);
        assert(b[0] == b.take(i)[0]);
        assert(a.drop_first().take(i - 1) =~= a.take(i).drop_first());
        assert(b.drop_first().take(i - 1) =~= b.take(i).drop_first());
        lemma_key_less_skip(a.drop_first(), b.drop_first(), i - 1);
        assert(a.drop_first().skip(i - 1) =~= a.skip(i));
        assert(b.drop_first().skip(i - 1) =~= b.skip(i));
    } else {
        assert(a.skip(0) =~= a);
        assert(b.skip(0) =~= b);
    }
}

proof fn lemma_slug_is_ascii(s: Seq<char>)
    requires
        is_strict_slug(s),
    ensures
        is_ascii_chars(s),
{
    assert forall|i: int| 0 <= i < s.len() implies '\0' <= #[trigger] s[i] <= '\u{7f}' by {
        assert(is_slug_char(s[i]));
    }
}

/// Compares two strict-slug texts in `str` order.
fn slug_text_less(a: &str, b: &str) -> (r: bool)
    requires
        is_strict_slug(a@),
        is_strict_slug(b@),
    ensures
        r == text_less(a@, b@),
{
    proof {
        lemma_slug_is_ascii(a@);
        lemma_slug_is_ascii(b@);
    }
    let la = a.unicode_len();
    let lb = b.unicode_len();
    let mut i: usize = 0;
    while i < la && i < lb
        invariant
            la == a@.len(),
            lb == b@.len(),
            i <= la,
            i <= lb,
            is_ascii(a),
            is_ascii(b),
            a@.take(i as int) == b@.take(i as int),
        decreases la - i,
    {
        let x = a.get_ascii(i);
        let y = b.get_ascii(i);
        if x != y {
            proof {
                lemma_text_less_skip(a@, b@, i as int);
                assert(a@.skip(i as int)[0] == a@[i as int]);
                assert(b@.skip(i as int)[0] == b@[i as int]);
            }
            return x < y;
        }
        proof {
            assert(a@.take(i + 1) =~= a@.take(i as int).push(a@[i as int]));
            assert(b@.take(i + 1) =~= b@.take(i as int).push(b@[i as int]));
        }
        i += 1;
    }
    proof {
        lemma_text_less_skip(a@, b@, i as int);
    }
    i < lb
}

// ---------------------------------------------------------------------------
// Segments

/// A key segment: a strict slug.
#[derive(Debug)]
pub enum Segment {
    /// A strict slug.
    Strict(Starc<StrictSlug>),
}

impl View for Segment {
    type V = Seq<char>;

    open spec fn view(&self) -> Seq<char> {
        match self {
            Segment::Strict(s) => s.value()@,
        }
    }
}

impl Segment {
    /// The segment's text.
    pub fn as_str(&self) -> (r: &str)
        ensures
            r@ == self@,
            is_strict_slug(r@),
    {
        match self {
            Segment::Strict(s) => s.get().as_str(),
        }
    }

    /// Whether two segments hold the same text.
    pub fn same_as(&self, other: &Segment) -> (r: bool)
        ensures
            r == (self@ == other@),
    {
        match (self, other) {
            (Segment::Strict(a), Segment::Strict(b)) => a.get().same_as(b.get()),
        }
    }

    /// Whether this segment comes before the other in text order.
    pub fn less_than(&self, other: &Segment) -> (r: bool)
        ensures
            r == text_less(self@, other@),
    {
        slug_text_less(self.as_str(), other.as_str())
    }
}

impl Clone for Segment {
    fn clone(&self) -> (r: Self)
        ensures
            r == *self,
    {
        match self {
            Segment::Strict(s) => Segment::Strict(s.clone()),
        }
    }
}

// ---------------------------------------------------------------------------
// The segment list after the first segment (a `SmallVec`)

/// The segments after the first one, held in a `smallvec::SmallVec` with room
/// for six segments inline.
#[verifier::external_body]
#[derive(Debug)]
pub struct SegmentList {
    v: SmallVec<[Segment; 6]>,
}

/// The segments a list holds, in order.
pub uninterp spec fn segment_list(v: SegmentList) -> Seq<Segment>;

/// `SmallVec::new`: an empty vector.
#[verifier::external_body]
fn segments_new() -> (r: SegmentList)
    ensures
        segment_list(r) == Seq::<Segment>::empty(),
{
    SegmentList { v: SmallVec::new() }
}

/// `SmallVec::push`: appends one segment at the end.
#[verifier::external_body]
fn segments_push(v: &mut SegmentList, s: Segment)
    requires
        segment_list(*old(v)).len() < usize::MAX,
    ensures
        segment_list(*final(v)) == segment_list(*old(v)).push(s),
{
    v.v.push(s);
}

/// `SmallVec::len`: the number of segments.
#[verifier::external_body]
fn segments_len(v: &SegmentList) -> (n: usize)
    ensures
        n == segment_list(*v).len(),
{
    v.v.len()
}

/// `<[Segment]>::get` through `SmallVec`'s `Deref`: the segment at an index.
#[verifier::external_body]
fn segments_get(v: &SegmentList, i: usize) -> (r: Option<&Segment>)
    ensures
        match r {
            Some(x) => i < segment_list(*v).len() && *x == segment_list(*v)[i as int],
            None => i >= segment_list(*v).len(),
        },
{
    v.v.get(i)
}

/// `SmallVec::clone`: a vector of the clones of the segments, each equal to
/// the segment it was cloned from (`Segment::clone` is proved to copy).
#[verifier::external_body]
fn segments_clone(v: &SegmentList) -> (r: SegmentList)
    ensures
        segment_list(r) == segment_list(*v),
{
    SegmentList { v: v.v.clone() }
}

// ---------------------------------------------------------------------------
// Keys

/// The texts of a list of segments.
pub open spec fn segment_texts(l: Seq<Segment>) -> Seq<Seq<char>> {
    l.map_values(|s: Segment| s@)
}

/// The display form of a key: the segments joined by `:`.
pub open spec fn key_text(segs: Seq<Seq<char>>) -> Seq<char>
    decreases segs.len(),
{
    if segs.len() <= 1 {
        if segs.len() == 1 {
            segs[0]
        } else {
            Seq::empty()
        }
    } else {
        key_text(segs.drop_last()) + seq![':'] + segs.last()
    }
}

/// A text split at every `sep` (the pieces of `str::split`).
pub open spec fn split_text(t: Seq<char>, sep: char) -> Seq<Seq<char>>
    decreases t.len(),
{
    if t.len() == 0 {
        seq![Seq::<char>::empty()]
    } else {
        let p = split_text(t.drop_last(), sep);
        if t.last() == sep {
            p.push(Seq::empty())
        } else {
            p.update(p.len() - 1, p.last().push(t.last()))
        }
    }
}

/// The key that a text parses to: its `:`-separated pieces, each slugified.
pub open spec fn key_from_text(t: Seq<char>) -> Seq<Seq<char>> {
    split_text(t, ':').map_values(|p: Seq<char>| strict_slug_of(p))
}

/// A key for use with a store, consisting of a collection of segments.
#[derive(Debug)]
pub struct Key {
    first_segment: Segment,
    segments: SegmentList,
}

impl View for Key {
    type V = Seq<Seq<char>>;

    closed spec fn view(&self) -> Seq<Seq<char>> {
        seq![self.first_segment@] + segment_texts(segment_list(self.segments))
    }
}

/// Every key has at least one segment, and every segment is a strict slug.
pub broadcast proof fn lemma_key_view(k: Key)
    ensures
        #![trigger k@]
        k@.len() >= 1,
        forall|i: int| 0 <= i < k@.len() ==> is_strict_slug(#[trigger] k@[i]),
{
    assert forall|i: int| 0 <= i < k@.len() implies is_strict_slug(#[trigger] k@[i]) by {
        if i == 0 {
            match k.first_segment {
                Segment::Strict(s) => lemma_strict_slug_view(s.value()),
            }
        } else {
            match segment_list(k.segments)[i - 1] {
                Segment::Strict(s) => lemma_strict_slug_view(s.value()),
            }
        }
    }
}

impl Key {
    #[verifier::type_invariant]
    spec fn bounded(self) -> bool {
        segment_list(self.segments).len() < usize::MAX
    }

    /// Create a new key with the given segment.
    pub fn new(segment: Starc<StrictSlug>) -> (r: Key)
        ensures
            r@ == seq![segment.value()@],
    {
        let k = Key { first_segment: Segment::Strict(segment), segments: segments_new() };
        assert(k@ =~= seq![segment.value()@]);
        k
    }

    /// Add a new segment onto the key with method chaining.
    pub fn with(self, segment: Starc<StrictSlug>) -> (r: Key)
        requires
            self@.len() < usize::MAX,
        ensures
            r@ == self@.push(segment.value()@),
    {
        let mut k = self;
        k.push(segment);
        k
    }

    /// Push a new segment onto the key.
    pub fn push(&mut self, segment: Starc<StrictSlug>)
        requires
            old(self)@.len() < usize::MAX,
        ensures
            final(self)@ == old(self)@.push(segment.value()@),
    {
        let ghost before = segment_list(self.segments);
        let s = Segment::Strict(segment);
        let mut segs = segments_new();
        std::mem::swap(&mut segs, &mut self.segments);
        segments_push(&mut segs, s);
        self.segments = segs;
        assert(segment_texts(before.push(s)) =~= segment_texts(before).push(s@));
        assert(self@ =~= old(self)@.push(segment.value()@));
    }

    /// Create a new key by pushing a segment onto the given key.
    pub fn push_new(&self, segment: Starc<StrictSlug>) -> (r: Key)
        requires
            self@.len() < usize::MAX,
        ensures
            r@ == self@.push(segment.value()@),
    {
        let mut new_key = self.clone();
        new_key.push(segment);
        new_key
    }

    /// The number of segments.
    pub fn len(&self) -> (r: usize)
        ensures
            r == self@.len(),
    {
        proof {
            use_type_invariant(self);
        }
        let n = segments_len(&self.segments);
        n + 1
    }

    /// Get the segment at the given index, if it exists.
    pub fn get(&self, index: usize) -> (r: Option<&Segment>)
        ensures
            match r {
                Some(s) => index < self@.len() && s@ == self@[index as int],
                None => index >= self@.len(),
            },
    {
        if index == 0 {
            Some(&self.first_segment)
        } else {
            segments_get(&self.segments, index - 1)
        }
    }

    /// The segments of the key, in order.
    pub fn segments(&self) -> (r: Vec<&Segment>)
        ensures
            r@.len() == self@.len(),
            forall|i: int| 0 <= i < r@.len() ==> (#[trigger] r@[i])@ == self@[i],
    {
        let n = segments_len(&self.segments);
        let mut r: Vec<&Segment> = Vec::new();
        r.push(&self.first_segment);
        let mut i: usize = 0;
        while i < n
            invariant
                n == segment_list(self.segments).len(),
                i <= n,
                r@.len() == i + 1,
                forall|j: int| 0 <= j < r@.len() ==> (#[trigger] r@[j])@ == self@[j],
            decreases n - i,
        {
            let s = segments_get(&self.segments, i).unwrap();
            r.push(s);
            i += 1;
        }
        r
    }

    /// The display form of the key: the segments joined by `:`.
    pub fn to_string(&self) -> (r: String)
        ensures
            r@ == key_text(self@),
    {
        let mut out = String::new();
        out.append(self.first_segment.as_str());
        let n = segments_len(&self.segments);
        let ghost v = self@;
        assert(v.take(1) =~= seq![v[0]]);
        assert(out@ =~= key_text(v.take(1)));
        let mut i: usize = 0;
        while i < n
            invariant
                v == self@,
                n == segment_list(self.segments).len(),
                v.len() == n + 1,
                i <= n,
                out@ == key_text(v.take(i + 1)),
            decreases n - i,
        {
            let s = segments_get(&self.segments, i).unwrap();
            push_char_to(&mut out, ':');
            out.append(s.as_str());
            proof {
                assert(v.take(i + 2).drop_last() =~= v.take(i + 1));
                assert(out@ =~= key_text(v.take(i + 1)) + seq![':'] + v[i + 1]);
            }
            i += 1;
        }
        assert(v.take(n + 1) =~= v);
        out
    }

    /// The UTF-8 bytes of the display form, as the store holds them.
    pub fn to_bytes(&self) -> (r: Vec<u8>)
        ensures
            r@ == encode_utf8(key_text(self@)),
    {
        let s = self.to_string();
        s.as_str().as_bytes_vec()
    }

    /// Parses a key from the bytes of its display form. Every `:`-separated
    /// piece becomes a segment, slugified.
    pub fn try_from(bytes: Vec<u8>) -> (r: Result<Key, std::str::Utf8Error>)
        requires
            bytes@.len() < usize::MAX,
        ensures
            r is Ok <==> valid_utf8(bytes@),
            r matches Ok(k) ==> k@ == key_from_text(decode_utf8(bytes@)),
    {
        let text = match decode_utf8_bytes(bytes.as_slice()) {
            Ok(t) => t,
            Err(e) => return Err(e),
        };
        let ghost t = text@;
        let mut pieces: Vec<String> = Vec::new();
        let mut current = String::new();
        for c in it: text.chars()
            invariant
                it.seq() == t,
                pieces@.len() + 1 == split_text(t.take(it.index() as int), ':').len(),
                forall|j: int| 0 <= j < pieces@.len() ==>
                    (#[trigger] pieces@[j])@ == split_text(t.take(it.index() as int), ':')[j],
                current@ == split_text(t.take(it.index() as int), ':').last(),
        {
            let ghost before = t.take(it.index() as int);
            proof {
                assert(t.take(it.index() + 1).drop_last() =~= before);
            }
            if c == ':' {
                pieces.push(current);
                current = String::new();
            } else {
                push_char_to(&mut current, c);
            }
        }
        proof {
            assert(t.take(t.len() as int) =~= t);
        }
        let ghost parts = split_text(t, ':');
        proof {
            lemma_split_len(t, ':');
            lemma_encode_len(t);
            decode_utf8_encode_utf8(bytes@);
        }
        let first = StrictSlug::new(pieces_first(&pieces, &current));
        let mut key = Key::new(Starc::new_owned(first));
        assert(key@ =~= key_from_text(t).take(1));
        let mut i: usize = 1;
        let total = pieces.len() + 1;
        while i < total
            invariant
                total == parts.len(),
                pieces@.len() + 1 == parts.len(),
                forall|j: int| 0 <= j < pieces@.len() ==> (#[trigger] pieces@[j])@ == parts[j],
                current@ == parts.last(),
                parts == split_text(t, ':'),
                1 <= i <= total,
                key@ == key_from_text(t).take(i as int),
            decreases total - i,
        {
            let piece = if i < pieces.len() {
                pieces[i].as_str()
            } else {
                current.as_str()
            };
            let slug = StrictSlug::new(piece);
            key.push(Starc::new_owned(slug));
            assert(key@ =~= key_from_text(t).take(i + 1));
            i += 1;
        }
        assert(key_from_text(t).take(total as int) =~= key_from_text(t));
        Ok(key)
    }

    /// Whether two keys hold the same segments.
    pub fn same_as(&self, other: &Key) -> (r: bool)
        ensures
            r == (self@ == other@),
    {
        let n = self.len();
        let m = other.len();
        if n != m {
            return false;
        }
        let mut i: usize = 0;
        while i < n
            invariant
                n == self@.len(),
                m == other@.len(),
                n == m,
                i <= n,
                self@.take(i as int) == other@.take(i as int),
            decreases n - i,
        {
            let a = self.get(i).unwrap();
            let b = other.get(i).unwrap();
            if !a.same_as(b) {
                return false;
            }
            assert(self@.take(i + 1) =~= self@.take(i as int).push(self@[i as int]));
            assert(other@.take(i + 1) =~= other@.take(i as int).push(other@[i as int]));
            i += 1;
        }
        assert(self@.take(n as int) =~= self@);
        assert(other@.take(n as int) =~= other@);
        true
    }

    /// Whether this key comes before the other in key order.
    pub fn less_than(&self, other: &Key) -> (r: bool)
        ensures
            r == key_less(self@, other@),
    {
        let n = self.len();
        let m = other.len();
        let mut i: usize = 0;
        while i < n && i < m
            invariant
                n == self@.len(),
                m == other@.len(),
                i <= n,
                i <= m,
                self@.take(i as int) == other@.take(i as int),
            decreases n - i,
        {
            let a = self.get(i).unwrap();
            let b = other.get(i).unwrap();
            if !a.same_as(b) {
                proof {
                    lemma_key_less_skip(self@, other@, i as int);
                    assert(self@.skip(i as int)[0] == self@[i as int]);
                    assert(other@.skip(i as int)[0] == other@[i as int]);
                }
                return a.less_than(b);
            }
            assert(self@.take(i + 1) =~= self@.take(i as int).push(self@[i as int]));
            assert(other@.take(i + 1) =~= other@.take(i as int).push(other@[i as int]));
            i += 1;
        }
        proof {
            lemma_key_less_skip(self@, other@, i as int);
        }
        i < m
    }
}

proof fn lemma_split_len(t: Seq<char>, sep: char)
    ensures
        1 <= split_text(t, sep).len() <= t.len() + 1,
    decreases t.len(),
{
    if t.len() > 0 {
        lemma_split_len(t.drop_last(), sep);
    }
}

proof fn lemma_encode_len(chars: Seq<char>)
    ensures
        encode_utf8(chars).len() >= chars.len(),
    decreases chars.len(),
{
    if chars.len() > 0 {
        lemma_encode_len(chars.drop_first());
    }
}

/// The first piece of a split text: the first finished piece, or the piece
/// still being collected when there is none.
fn pieces_first<'a>(pieces: &'a Vec<String>, current: &'a String) -> (r: &'a str)
    ensures
        r@ == (if pieces@.len() > 0 {
            pieces@[0]@
        } else {
            current@
        }),
{
    if pieces.len() > 0 {
        pieces[0].as_str()
    } else {
        current.as_str()
    }
}

impl Clone for Key {
    fn clone(&self) -> (r: Self)
        ensures
            r@ == self@,
    {
        proof {
            use_type_invariant(self);
        }
        Key { first_segment: self.first_segment.clone(), segments: segments_clone(&self.segments) }
    }
}

} // verus!

verus! {

proof fn lemma_split_append_plain(a: Seq<char>, b: Seq<char>, sep: char)
    requires
        !b.contains(sep),
    ensures
        split_text(a + b, sep) == split_text(a, sep).update(
            split_text(a, sep).len() - 1,
            split_text(a, sep).last() + b,
        ),
    decreases b.len(),
{
    lemma_split_len(a, sep);
    if b.len() == 0 {
        assert(a + b =~= a);
        assert(split_text(a, sep).last() + b =~= split_text(a, sep).last());
        assert(split_text(a, sep).update(split_text(a, sep).len() - 1, split_text(a, sep).last())
            =~= split_text(a, sep));
    } else {
        let b0 = b.drop_last();
        assert(!b0.contains(sep)) by {
            if b0.contains(sep) {
                let j = choose|j: int| 0 <= j < b0.len() && b0[j] == sep;
                assert(b[j] == sep);
            }
        }
        assert(b.last() != sep) by {
            assert(b[b.len() - 1] == b.last());
        }
        lemma_split_append_plain(a, b0, sep);
        assert((a + b).drop_last() =~= a + b0);
        let p = split_text(a, sep);
        let q = split_text(a + b0, sep);
        assert(q.len() == p.len());
        assert(q.last() == p.last() + b0);
        assert(q.last().push(b.last()) =~= p.last() + b);
        assert(split_text(a + b, sep) =~= p.update(p.len() - 1, p.last() + b));
    }
}

proof fn lemma_split_key_text(segs: Seq<Seq<char>>)
    requires
        segs.len() >= 1,
        forall|i: int| 0 <= i < segs.len() ==> !(#[trigger] segs[i]).contains(':'),
    ensures
        split_text(key_text(segs), ':') == segs,
    decreases segs.len(),
{
    if segs.len() == 1 {
        lemma_split_append_plain(Seq::empty(), segs[0], ':');
        assert(Seq::<char>::empty() + segs[0] =~= segs[0]);
        assert(split_text(Seq::<char>::empty(), ':').last() + segs[0] =~= segs[0]);
        assert(split_text(segs[0], ':') =~= segs);
    } else {
        let init = segs.drop_last();
        assert forall|i: int| 0 <= i < init.len() implies !(#[trigger] init[i]).contains(':') by {
            assert(init[i] == segs[i]);
        }
        lemma_split_key_text(init);
        let head = key_text(init) + seq![':'];
        assert(head.drop_last() =~= key_text(init));
        assert(split_text(head, ':') =~= init.push(Seq::empty()));
        assert(!segs.last().contains(':')) by {
            assert(segs[segs.len() - 1] == segs.last());
        }
        lemma_split_append_plain(head, segs.last(), ':');
        assert(Seq::<char>::empty() + segs.last() =~= segs.last());
        assert(split_text(head + segs.last(), ':') =~= segs);
    }
}

/// The bytes a key is stored under decode and parse back to the same key.
pub proof fn lemma_key_bytes_roundtrip(k: Key)
    ensures
        valid_utf8(encode_utf8(key_text(k@))),
        key_from_text(decode_utf8(encode_utf8(key_text(k@)))) == k@,
{
    let segs = k@;
    encode_utf8_valid_utf8(key_text(segs));
    encode_utf8_decode_utf8(key_text(segs));
    assert forall|i: int| 0 <= i < segs.len() implies !(#[trigger] segs[i]).contains(':') by {
        assert(is_strict_slug(segs[i]));
        if segs[i].contains(':') {
            let j = choose|j: int| 0 <= j < segs[i].len() && segs[i][j] == ':';
            assert(is_slug_char(segs[i][j]));
        }
    }
    lemma_split_key_text(segs);
    assert forall|i: int| 0 <= i < segs.len() implies strict_slug_of(#[trigger] segs[i]) == segs[i] by {
        lemma_strict_slug_fixpoint(segs[i]);
    }
    assert(key_from_text(key_text(segs)) =~= segs);
}

} // verus!

verus! {

impl PartialEq for Segment {
    fn eq(&self, other: &Self) -> (r: bool) {
        self.same_as(other)
    }
}

impl vstd::std_specs::cmp::PartialEqSpecImpl for Segment {
    open spec fn obeys_eq_spec() -> bool {
        true
    }

    open spec fn eq_spec(&self, other: &Self) -> bool {
        self@ == other@
    }
}

impl PartialEq for Key {
    fn eq(&self, other: &Self) -> (r: bool) {
        self.same_as(other)
    }
}

impl vstd::std_specs::cmp::PartialEqSpecImpl for Key {
    open spec fn obeys_eq_spec() -> bool {
        true
    }

    open spec fn eq_spec(&self, other: &Self) -> bool {
        self@ == other@
    }
}

} // verus!
