//! Strict slugs: the normalised names used for stores, caches, tokens and
//! key segments.
//!
//! A strict slug consists of `a-z`, `0-9` and `-`; it never holds two `-` in
//! a row and never starts or ends with `-`.

use vstd::prelude::*;
use vstd::string::*;
use vstd::utf8::*;

use crate::text::{pop_char_from, push_char_to};

verus! {

broadcast use vstd::string::group_string_axioms;

/// The characters a strict slug may hold.
pub open spec fn is_slug_char(c: char) -> bool {
    ('a' <= c && c <= 'z') || ('0' <= c && c <= '9') || c == '-'
}

/// A well-formed strict slug.
pub open spec fn is_strict_slug(s: Seq<char>) -> bool {
    &&& forall|i: int| 0 <= i < s.len() ==> is_slug_char(#[trigger] s[i])
    &&& s.len() > 0 ==> s[0] != '-' && s.last() != '-'
    &&& forall|i: int| 0 < i < s.len() && #[trigger] s[i] == '-' ==> s[i - 1] != '-'
}

/// What one byte of (transliterated) input turns into: a lower-case letter or
/// a digit, or `None` for a separator.
pub open spec fn slug_char_of(x: u8) -> Option<char> {
    if (97 <= x && x <= 122) || (48 <= x && x <= 57) {
        Some(x as char)
    } else if 65 <= x && x <= 90 {
        Some((x + 32) as char)
    } else {
        None
    }
}

/// One step of slug building: the slug so far, whether it ends in a
/// separator (or is empty), and the next input byte.
pub open spec fn slug_step(slug: Seq<char>, prev_is_dash: bool, x: u8) -> (Seq<char>, bool) {
    match slug_char_of(x) {
        Some(c) => (slug.push(c), false),
        None => if prev_is_dash {
            (slug, true)
        } else {
            (slug.push('-'), true)
        },
    }
}

/// The slug built from a byte sequence, before a trailing separator is cut.
pub open spec fn slug_scan(bytes: Seq<u8>) -> (Seq<char>, bool)
    decreases bytes.len(),
{
    if bytes.len() == 0 {
        (Seq::empty(), true)
    } else {
        let (s, d) = slug_scan(bytes.drop_last());
        slug_step(s, d, bytes.last())
    }
}

pub open spec fn trim_trailing_dash(s: Seq<char>) -> Seq<char> {
    if s.len() > 0 && s.last() == '-' {
        s.drop_last()
    } else {
        s
    }
}

/// The ASCII transliteration that `deunicode` gives a character, if it has one.
pub uninterp spec fn deunicode_transliteration(c: char) -> Option<Seq<char>>;

/// `deunicode::deunicode_char`: the ASCII transliteration of one character.
/// Its documentation guarantees that the result is ASCII; which
/// transliteration a character gets is left to the named table.
#[verifier::external_body]
fn transliterate(c: char) -> (r: Option<&'static str>)
    ensures
        match r {
            Some(t) => deunicode_transliteration(c) == Some(t@) && is_ascii_chars(t@),
            None => deunicode_transliteration(c) is None,
        },
{
    deunicode::deunicode_char(c)
}

pub open spec fn ascii_bytes(t: Seq<char>) -> Seq<u8> {
    t.map_values(|c: char| c as u8)
}

/// The bytes that one input character contributes: itself when ASCII, else
/// its transliteration, else a separator.
pub open spec fn char_bytes(c: char) -> Seq<u8> {
    if (c as u32) < 128 {
        seq![c as u8]
    } else {
        match deunicode_transliteration(c) {
            Some(t) => ascii_bytes(t),
            None => seq![45u8],
        }
    }
}

pub open spec fn transliterated_bytes(s: Seq<char>) -> Seq<u8>
    decreases s.len(),
{
    if s.len() == 0 {
        Seq::empty()
    } else {
        transliterated_bytes(s.drop_last()) + char_bytes(s.last())
    }
}

/// The strict slug of a string.
pub open spec fn strict_slug_of(s: Seq<char>) -> Seq<char> {
    trim_trailing_dash(slug_scan(transliterated_bytes(s)).0)
}

/// Appends the slug form of one byte.
pub fn push_char(slug: &mut String, x: u8, prev_is_dash: &mut bool)
    ensures
        (final(slug)@, *final(prev_is_dash)) == slug_step(old(slug)@, *old(prev_is_dash), x),
{
    if (97 <= x && x <= 122) || (48 <= x && x <= 57) {
        *prev_is_dash = false;
        push_char_to(slug, x as char);
    } else if 65 <= x && x <= 90 {
        *prev_is_dash = false;
        push_char_to(slug, (x + 32) as char);
    } else {
        if !*prev_is_dash {
            push_char_to(slug, '-');
            *prev_is_dash = true;
        }
    }
}

proof fn lemma_scan_push(bytes: Seq<u8>, x: u8)
    ensures
        slug_scan(bytes.push(x)) == slug_step(slug_scan(bytes).0, slug_scan(bytes).1, x),
{
    assert(bytes.push(x).drop_last() =~= bytes);
}

proof fn lemma_transliterated_take(s: Seq<char>, i: int)
    requires
        0 <= i < s.len(),
    ensures
        transliterated_bytes(s.take(i + 1)) == transliterated_bytes(s.take(i)) + char_bytes(s[i]),
{
    assert(s.take(i + 1).drop_last() =~= s.take(i));
}

/// What every intermediate slug looks like: slug characters only, no leading
/// or doubled separator, and the flag says whether it is empty or ends in one.
proof fn lemma_scan_shape(bytes: Seq<u8>)
    ensures
        ({
            let (s, d) = slug_scan(bytes);
            &&& forall|i: int| 0 <= i < s.len() ==> is_slug_char(#[trigger] s[i])
            &&& s.len() > 0 ==> s[0] != '-'
            &&& forall|i: int| 0 < i < s.len() && #[trigger] s[i] == '-' ==> s[i - 1] != '-'
            &&& d <==> (s.len() == 0 || s.last() == '-')
        }),
    decreases bytes.len(),
{
    if bytes.len() > 0 {
        lemma_scan_shape(bytes.drop_last());
    }
}

/// Converts any Unicode string to a strict slug.
pub fn strict_slugify(s: &str) -> (slug: String)
    ensures
        slug@ == strict_slug_of(s@),
        is_strict_slug(slug@),
{
    let mut slug = String::new();
    let mut prev_is_dash = true;
    for c in it: s.chars()
        invariant
            it.seq() == s@,
            (slug@, prev_is_dash) == slug_scan(transliterated_bytes(it.seq().take(it.index() as int))),
    {
        let ghost before = transliterated_bytes(it.seq().take(it.index() as int));
        if (c as u32) < 128 {
            push_char(&mut slug, c as u8, &mut prev_is_dash);
            proof {
                lemma_scan_push(before, c as u8);
                assert(before.push(c as u8) =~= before + char_bytes(c));
            }
        } else {
            let t = match transliterate(c) {
                Some(t) => t,
                None => "-",
            };
            proof {
                reveal_strlit("-");
            }
            assert(is_ascii(t));
            let bytes = t.as_bytes();
            assert(bytes@ =~= ascii_bytes(t@));
            assert(ascii_bytes(t@) =~= char_bytes(c));
            let mut j: usize = 0;
            while j < bytes.len()
                invariant
                    j <= bytes@.len(),
                    bytes@ == ascii_bytes(t@),
                    (slug@, prev_is_dash) == slug_scan(before + bytes@.take(j as int)),
                decreases bytes@.len() - j,
            {
                push_char(&mut slug, bytes[j], &mut prev_is_dash);
                proof {
                    lemma_scan_push(before + bytes@.take(j as int), bytes@[j as int]);
                    assert((before + bytes@.take(j as int)).push(bytes@[j as int])
                        =~= before + bytes@.take(j + 1));
                }
                j += 1;
            }
            assert(bytes@.take(j as int) =~= bytes@);
        }
        proof {
            lemma_transliterated_take(it.seq(), it.index() as int);
        }
    }
    proof {
        assert(s@.take(s@.len() as int) =~= s@);
        assert((slug@, prev_is_dash) == slug_scan(transliterated_bytes(s@)));
        lemma_scan_shape(transliterated_bytes(s@));
    }
    if !slug.as_str().is_empty() && prev_is_dash {
        pop_char_from(&mut slug);
    }
    slug
}

} // verus!

verus! {

proof fn lemma_ascii_transliteration(w: Seq<char>)
    requires
        forall|i: int| 0 <= i < w.len() ==> is_slug_char(#[trigger] w[i]),
    ensures
        transliterated_bytes(w) == ascii_bytes(w),
    decreases w.len(),
{
    if w.len() > 0 {
        lemma_ascii_transliteration(w.drop_last());
        assert(ascii_bytes(w) =~= ascii_bytes(w.drop_last()) + char_bytes(w.last()));
    }
}

proof fn lemma_scan_of_slug_prefix(p: Seq<char>)
    requires
        forall|i: int| 0 <= i < p.len() ==> is_slug_char(#[trigger] p[i]),
        p.len() > 0 ==> p[0] != '-',
        forall|i: int| 0 < i < p.len() && #[trigger] p[i] == '-' ==> p[i - 1] != '-',
    ensures
        slug_scan(ascii_bytes(p)) == (p, p.len() == 0 || p.last() == '-'),
    decreases p.len(),
{
    if p.len() > 0 {
        let q = p.drop_last();
        lemma_scan_of_slug_prefix(q);
        assert(ascii_bytes(p).drop_last() =~= ascii_bytes(q));
        assert(q.push(p.last()) =~= p);
        if p.len() > 1 {
            assert(p[p.len() - 1] == '-' ==> p[p.len() - 2] != '-');
        }
    }
}

/// Every slug step on an input byte: an upper-case ASCII letter becomes its
/// lower-case letter, a lower-case letter or digit is kept, and any other
/// byte is a separator, written once after a non-separator and dropped
/// after another separator (or at the start).
pub proof fn law_slug_step_bytes(slug: Seq<char>, prev_is_dash: bool, x: u8)
    ensures
        65 <= x <= 90 ==> slug_step(slug, prev_is_dash, x) == (
            slug.push(((x as int) + 32) as char),
            false,
        ),
        (97 <= x <= 122 || 48 <= x <= 57) ==> slug_step(slug, prev_is_dash, x) == (
            slug.push(x as char),
            false,
        ),
        !(65 <= x <= 90 || 97 <= x <= 122 || 48 <= x <= 57) ==> slug_step(slug, prev_is_dash, x)
            == (if prev_is_dash {
            slug
        } else {
            slug.push('-')
        }, true),
{
}

/// An ASCII letter in lower case.
pub open spec fn ascii_lower(c: char) -> char {
    if 'A' <= c && c <= 'Z' {
        ((c as u32) + 32) as char
    } else {
        c
    }
}

proof fn lemma_letters_scan(w: Seq<char>)
    requires
        forall|i: int| 0 <= i < w.len() ==> ('a' <= #[trigger] w[i] <= 'z' || 'A' <= w[i] <= 'Z'),
    ensures
        transliterated_bytes(w) == ascii_bytes(w),
        slug_scan(ascii_bytes(w)) == (w.map_values(|c: char| ascii_lower(c)), w.len() == 0),
    decreases w.len(),
{
    if w.len() > 0 {
        let v = w.drop_last();
        lemma_letters_scan(v);
        assert(ascii_bytes(w) =~= ascii_bytes(v) + char_bytes(w.last()));
        assert(ascii_bytes(w).drop_last() =~= ascii_bytes(v));
        assert(w.map_values(|c: char| ascii_lower(c)) =~= v.map_values(|c: char| ascii_lower(c)).push(
            ascii_lower(w.last()),
        ));
        let c = w.last();
        assert(('a' <= c <= 'z' || 'A' <= c <= 'Z'));
    }
}

/// A text made only of ASCII letters slugifies to the same letters in
/// lower case: upper-case letters are lowered, never taken as separators.
pub proof fn law_letters_slugify_to_lower_case(w: Seq<char>)
    requires
        forall|i: int| 0 <= i < w.len() ==> ('a' <= #[trigger] w[i] <= 'z' || 'A' <= w[i] <= 'Z'),
    ensures
        strict_slug_of(w) == w.map_values(|c: char| ascii_lower(c)),
{
    lemma_letters_scan(w);
    let r = w.map_values(|c: char| ascii_lower(c));
    if w.len() > 0 {
        let c = w.last();
        assert(('a' <= c <= 'z' || 'A' <= c <= 'Z'));
        assert(r.last() == ascii_lower(c));
    }
}

/// A strict slug is left unchanged by slugification.
pub proof fn lemma_strict_slug_fixpoint(w: Seq<char>)
    requires
        is_strict_slug(w),
    ensures
        strict_slug_of(w) == w,
{
    lemma_ascii_transliteration(w);
    lemma_scan_of_slug_prefix(w);
}

/// Every slugification result is a strict slug.
pub proof fn lemma_strict_slug_well_formed(s: Seq<char>)
    ensures
        is_strict_slug(strict_slug_of(s)),
{
    let (r, d) = slug_scan(transliterated_bytes(s));
    lemma_scan_shape(transliterated_bytes(s));
    if r.len() > 0 && r.last() == '-' {
        if r.len() > 1 {
            assert(r[r.len() - 1] == '-');
        }
    }
}

/// Slugifying twice gives the same slug as slugifying once.
pub proof fn lemma_strict_slugify_idempotent(s: Seq<char>)
    ensures
        strict_slug_of(strict_slug_of(s)) == strict_slug_of(s),
{
    lemma_strict_slug_well_formed(s);
    lemma_strict_slug_fixpoint(strict_slug_of(s));
}

} // verus!

verus! {

/// A strict slug, meant for user-supplied data used in URLs and entity names.
#[derive(Debug)]
pub struct StrictSlug {
    value: String,
}

impl View for StrictSlug {
    type V = Seq<char>;

    closed spec fn view(&self) -> Seq<char> {
        if is_strict_slug(self.value@) {
            self.value@
        } else {
            Seq::empty()
        }
    }
}

/// The text of every strict slug is well-formed.
pub broadcast proof fn lemma_strict_slug_view(s: StrictSlug)
    ensures
        #[trigger] is_strict_slug(s@),
{
}

impl StrictSlug {
    #[verifier::type_invariant]
    spec fn well_formed(self) -> bool {
        is_strict_slug(self.value@)
    }

    /// Creates a slug from any string, slugifying it.
    pub fn new(s: &str) -> (r: StrictSlug)
        ensures
            r@ == strict_slug_of(s@),
    {
        let value = strict_slugify(s);
        StrictSlug { value }
    }

    /// Creates a new slug from a string that must already be a valid slug.
    pub fn confident(s: &'static str) -> (r: StrictSlug)
        requires
            strict_slug_of(s@) == s@,
        ensures
            r@ == s@,
    {
        let slug = strict_slugify(s);
        proof {
            lemma_strict_slugify_idempotent(s@);
        }
        StrictSlug::new(slug.as_str())
    }

    /// The slug's text.
    pub fn as_str(&self) -> (r: &str)
        ensures
            r@ == self@,
            is_strict_slug(r@),
    {
        proof {
            use_type_invariant(self);
        }
        self.value.as_str()
    }

    /// The slug's text, consuming the slug.
    pub fn into_inner(self) -> (r: String)
        ensures
            r@ == self@,
    {
        proof {
            use_type_invariant(&self);
        }
        self.value
    }

    /// Whether two slugs hold the same text.
    pub fn same_as(&self, other: &StrictSlug) -> (r: bool)
        ensures
            r == (self@ == other@),
    {
        proof {
            use_type_invariant(self);
            use_type_invariant(other);
        }
        self.value == other.value
    }
}

impl Clone for StrictSlug {
    fn clone(&self) -> (r: Self)
        ensures
            r@ == self@,
    {
        proof {
            use_type_invariant(self);
        }
        StrictSlug { value: self.value.clone() }
    }
}

} // verus!

verus! {

impl PartialEq for StrictSlug {
    fn eq(&self, other: &Self) -> (r: bool) {
        self.same_as(other)
    }
}

impl vstd::std_specs::cmp::PartialEqSpecImpl for StrictSlug {
    open spec fn obeys_eq_spec() -> bool {
        true
    }

    open spec fn eq_spec(&self, other: &Self) -> bool {
        self@ == other@
    }
}

} // verus!
