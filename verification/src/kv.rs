//! The vocabulary of the transactional key-value interface: errors and scan
//! bounds.

use vstd::prelude::*;

use crate::key::{key_from_text, key_less, split_text, Key};
use crate::text::push_char_to;
use crate::value::Value;
use vstd::utf8::*;
use crate::keymap::KeyView;
use crate::order::{law_key_order_lexicographic, segments_before};

verus! {

/// A transaction error.
#[derive(Debug)]
pub enum TransactionError {
    /// The key was locked.
    KeyLocked(Key),
    /// There was a key conflict.
    KeyConflict(Key),
    /// Some other error occurred.
    Other(String),
}

/// Represents errors that can occur when interacting with a key-value store.
#[derive(Debug)]
pub enum KvError {
    /// An error occurred in the underlying platform.
    PlatformError(TransactionError),
}

/// One end of a key range in a scan.
#[derive(Debug)]
pub enum Bound {
    /// The end includes this key.
    Included(Key),
    /// The end excludes this key.
    Excluded(Key),
    /// The range is open at this end.
    Unbounded,
}

/// Whether a key lies on the right side of a lower bound.
pub open spec fn above_lower(k: KeyView, start: Bound) -> bool {
    match start {
        Bound::Included(s) => !key_less(k, s@),
        Bound::Excluded(s) => key_less(s@, k),
        Bound::Unbounded => true,
    }
}

/// Whether a key lies on the right side of an upper bound.
pub open spec fn below_upper(k: KeyView, end: Bound) -> bool {
    match end {
        Bound::Included(e) => !key_less(e@, k),
        Bound::Excluded(e) => key_less(k, e@),
        Bound::Unbounded => true,
    }
}

/// Whether a key lies within a range.
pub open spec fn in_range(k: KeyView, start: Bound, end: Bound) -> bool {
    above_lower(k, start) && below_upper(k, end)
}

/// A key lies within a range exactly when it compares with each bound by
/// the full lexicographic key order (every segment counts, not only the
/// first): after an included lower bound or equal to it, strictly after an
/// excluded one, and likewise before an upper bound.
pub proof fn law_range_by_key_order(k: KeyView, start: Bound, end: Bound)
    ensures
        in_range(k, start, end) <==> (match start {
            Bound::Included(s) => !segments_before(k, s@),
            Bound::Excluded(s) => segments_before(s@, k),
            Bound::Unbounded => true,
        }) && (match end {
            Bound::Included(e) => !segments_before(e@, k),
            Bound::Excluded(e) => segments_before(k, e@),
            Bound::Unbounded => true,
        }),
{
    match start {
        Bound::Included(s) => law_key_order_lexicographic(k, s@),
        Bound::Excluded(s) => law_key_order_lexicographic(s@, k),
        Bound::Unbounded => {},
    }
    match end {
        Bound::Included(e) => law_key_order_lexicographic(e@, k),
        Bound::Excluded(e) => law_key_order_lexicographic(k, e@),
        Bound::Unbounded => {},
    }
}

/// Decides whether a key lies within a range.
pub fn key_in_range(k: &Key, start: &Bound, end: &Bound) -> (r: bool)
    ensures
        r == in_range(k@, *start, *end),
{
    let lower = match start {
        Bound::Included(s) => !k.less_than(s),
        Bound::Excluded(s) => s.less_than(k),
        Bound::Unbounded => true,
    };
    let upper = match end {
        Bound::Included(e) => !e.less_than(k),
        Bound::Excluded(e) => k.less_than(e),
        Bound::Unbounded => true,
    };
    lower && upper
}

} // verus!

verus! {

/// A raw pair as a remote store returns it: key bytes and value bytes.
pub open spec fn raw_view(p: (Vec<u8>, Vec<u8>)) -> (Seq<u8>, Seq<u8>) {
    (p.0@, p.1@)
}

/// The pairs a scan keeps from raw pairs: those whose key bytes are UTF-8,
/// with the key parsed from its text; pairs whose keys do not decode are
/// dropped.
pub open spec fn parsed_pairs(raw: Seq<(Seq<u8>, Seq<u8>)>) -> Seq<(KeyView, Seq<u8>)>
    decreases raw.len(),
{
    if raw.len() == 0 {
        Seq::empty()
    } else {
        let prev = parsed_pairs(raw.drop_last());
        let (k, v) = raw.last();
        if valid_utf8(k) {
            prev.push((key_from_text(decode_utf8(k)), v))
        } else {
            prev
        }
    }
}

/// Parsing keeps the order of the raw pairs: the pairs parsed from two runs
/// of raw pairs, one after the other, are those of the first run followed by
/// those of the second; one raw pair gives its parsed key and value where its
/// key bytes are UTF-8, and nothing otherwise. So the last pair of a page is
/// the last raw pair that parsed, where the next page of a scan starts.
pub proof fn law_parsing_keeps_scan_order(
    first: Seq<(Seq<u8>, Seq<u8>)>,
    second: Seq<(Seq<u8>, Seq<u8>)>,
    p: (Seq<u8>, Seq<u8>),
)
    ensures
        parsed_pairs(first + second) == parsed_pairs(first) + parsed_pairs(second),
        parsed_pairs(seq![p]) == if valid_utf8(p.0) {
            seq![(key_from_text(decode_utf8(p.0)), p.1)]
        } else {
            Seq::<(KeyView, Seq<u8>)>::empty()
        },
        valid_utf8(p.0) ==> parsed_pairs(first.push(p)).last() == (
            key_from_text(decode_utf8(p.0)),
            p.1,
        ),
    decreases second.len(),
{
    if second.len() == 0 {
        assert(first + second =~= first);
        assert(parsed_pairs(first) + parsed_pairs(second) =~= parsed_pairs(first));
    } else {
        law_parsing_keeps_scan_order(first, second.drop_last(), p);
        assert((first + second).drop_last() =~= first + second.drop_last());
        assert((first + second).last() == second.last());
        let x = second.last();
        if valid_utf8(x.0) {
            assert(parsed_pairs(first) + parsed_pairs(second) =~= (parsed_pairs(first)
                + parsed_pairs(second.drop_last())).push((key_from_text(decode_utf8(x.0)), x.1)));
        } else {
            assert(parsed_pairs(first) + parsed_pairs(second) =~= parsed_pairs(first)
                + parsed_pairs(second.drop_last()));
        }
    }
    let none = Seq::<(Seq<u8>, Seq<u8>)>::empty();
    assert(seq![p].drop_last() =~= none);
    assert(parsed_pairs(none) == Seq::<(KeyView, Seq<u8>)>::empty());
    assert(seq![p].last() == p);
    if valid_utf8(p.0) {
        assert(parsed_pairs(seq![p]) =~= Seq::<(KeyView, Seq<u8>)>::empty().push(
            (key_from_text(decode_utf8(p.0)), p.1),
        ));
    }
    assert(first.push(p).drop_last() =~= first);
}

/// Turns the raw pairs of a remote scan into keys and values, dropping the
/// pairs whose keys do not decode.
pub fn parse_scanned_pairs(raw: Vec<(Vec<u8>, Vec<u8>)>) -> (r: Vec<(Key, Value)>)
    requires
        forall|i: int| 0 <= i < raw@.len() ==> (#[trigger] raw@[i]).0@.len() < usize::MAX,
    ensures
        r@.map_values(|e: (Key, Value)| (e.0@, e.1@)) == parsed_pairs(
            raw@.map_values(|p: (Vec<u8>, Vec<u8>)| raw_view(p)),
        ),
{
    let ghost rv = raw@.map_values(|p: (Vec<u8>, Vec<u8>)| raw_view(p));
    let mut out: Vec<(Key, Value)> = Vec::new();
    let n = raw.len();
    let mut i: usize = 0;
    while i < n
        invariant
            n == rv.len(),
            n == raw@.len(),
            i <= n,
            forall|j: int| 0 <= j < raw@.len() ==> (#[trigger] raw@[j]).0@.len() < usize::MAX,
            rv == raw@.map_values(|p: (Vec<u8>, Vec<u8>)| raw_view(p)),
            out@.map_values(|e: (Key, Value)| (e.0@, e.1@)) == parsed_pairs(rv.take(i as int)),
        decreases n - i,
    {
        let key_bytes = raw[i].0.clone();
        let value_bytes = raw[i].1.clone();
        assert(key_bytes@ =~= raw@[i as int].0@);
        assert(value_bytes@ =~= raw@[i as int].1@);
        proof {
            assert(rv.take(i + 1).drop_last() =~= rv.take(i as int));
        }
        match Key::try_from(key_bytes) {
            Ok(key) => {
                out.push((key, Value::new(value_bytes)));
                assert(out@.map_values(|e: (Key, Value)| (e.0@, e.1@)) =~= parsed_pairs(
                    rv.take(i + 1),
                ));
            },
            Err(_) => {},
        }
        i += 1;
    }
    assert(rv.take(n as int) =~= rv);
    out
}

/// How many pairs an unlimited scan asks the remote store for at a time.
pub const SCAN_PAGE_SIZE: u32 = 1000;

/// Where the next page of an unlimited scan starts: just after the last key
/// of the page, or nowhere (`None`, the scan is done) after an empty page.
pub fn next_scan_start(page: &Vec<(Key, Value)>) -> (r: Option<Bound>)
    ensures
        page@.len() == 0 ==> r is None,
        page@.len() > 0 ==> (r matches Some(Bound::Excluded(k)) && k@ == page@.last().0@),
{
    let n = page.len();
    if n == 0 {
        None
    } else {
        Some(Bound::Excluded(page[n - 1].0.clone()))
    }
}

/// Takes one page of an unlimited scan. An empty page ends the scan
/// (`None`) and adds nothing; otherwise the page's pairs are appended to the
/// results, in order, and the next page starts just after its last key.
pub fn absorb_scan_page(results: &mut Vec<(Key, Value)>, page: Vec<(Key, Value)>) -> (r: Option<
    Bound,
>)
    ensures
        page@.len() == 0 ==> r is None && final(results)@ == old(results)@,
        page@.len() > 0 ==> final(results)@ == old(results)@ + page@ && (r matches Some(
            Bound::Excluded(k),
        ) && k@ == page@.last().0@),
{
    let next = next_scan_start(&page);
    let mut page = page;
    results.append(&mut page);
    next
}

/// The texts of a list of strings.
pub open spec fn string_texts(v: Seq<String>) -> Seq<Seq<char>> {
    v.map_values(|x: String| x@)
}

/// The endpoints named by the `TIKV_URLS` setting: its `,`-separated pieces.
pub fn tikv_endpoints(urls: &str) -> (r: Vec<String>)
    ensures
        string_texts(r@) == split_text(urls@, ','),
{
    let ghost t = urls@;
    let mut pieces: Vec<String> = Vec::new();
    let mut current = String::new();
    for c in it: urls.chars()
        invariant
            it.seq() == t,
            pieces@.len() + 1 == split_text(t.take(it.index() as int), ',').len(),
            forall|j: int| 0 <= j < pieces@.len() ==>
                (#[trigger] pieces@[j])@ == split_text(t.take(it.index() as int), ',')[j],
            current@ == split_text(t.take(it.index() as int), ',').last(),
    {
        proof {
            assert(t.take(it.index() + 1).drop_last() =~= t.take(it.index() as int));
        }
        if c == ',' {
            pieces.push(current);
            current = String::new();
        } else {
            push_char_to(&mut current, c);
        }
    }
    proof {
        assert(t.take(t.len() as int) =~= t);
    }
    pieces.push(current);
    assert(string_texts(pieces@) =~= split_text(t, ','));
    pieces
}

} // verus!
