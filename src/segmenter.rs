use crate::iterator::{texts, SegmentIterator};
use crate::width::hint_view;
use icu_segmenter::GraphemeClusterSegmenter;
use vstd::prelude::*;
use vstd::string::*;
use vstd::utf8::*;

verus! {

broadcast use {encode_utf8_valid_utf8, encode_utf8_decode_utf8, decode_utf8_encode_utf8};

/// The extended grapheme cluster boundaries of `text`, as UTF-8 byte offsets in order.
pub uninterp spec fn grapheme_breaks(text: Seq<char>) -> Seq<usize>;

/// The identifier of the one supported segmentation mode.
pub open spec fn grapheme_mode() -> Seq<char> {
    "grapheme"@
}

/// `breaks` is a usable list of boundaries of the UTF-8 text `bytes`: it starts at 0,
/// ends at the text's length, never goes back, and each offset starts a character or
/// ends the text.
pub open spec fn breaks_fit(bytes: Seq<u8>, breaks: Seq<usize>) -> bool {
    &&& breaks.len() >= 1
    &&& breaks[0] == 0
    &&& breaks.last() == bytes.len()
    &&& forall|i: int| 0 <= i < breaks.len() ==> is_char_boundary(bytes, #[trigger] breaks[i] as int)
    &&& forall|i: int, j: int|
        0 <= i <= j < breaks.len() ==> #[trigger] breaks[i] <= #[trigger] breaks[j]
}

/// The boundary that precedes the `i`-th entry of `breaks`: offset 0 before the first.
pub open spec fn prev_break(breaks: Seq<usize>, i: int) -> int {
    if i <= 0 {
        0
    } else {
        breaks[i - 1] as int
    }
}

/// The byte spans of `bytes` between successive boundaries of `breaks`, starting at
/// offset 0, with empty spans left out.
pub open spec fn cut(bytes: Seq<u8>, breaks: Seq<usize>) -> Seq<Seq<u8>>
    decreases breaks.len(),
{
    if breaks.len() == 0 {
        Seq::empty()
    } else {
        let n = breaks.len() - 1;
        let rest = cut(bytes, breaks.drop_last());
        if prev_break(breaks, n) < breaks[n] {
            rest.push(bytes.subrange(prev_break(breaks, n), breaks[n] as int))
        } else {
            rest
        }
    }
}

/// The pieces of `text` between the byte boundaries `breaks`, as characters.
pub open spec fn pieces(text: Seq<char>, breaks: Seq<usize>) -> Seq<Seq<char>> {
    cut(encode_utf8(text), breaks).map_values(|p: Seq<u8>| decode_utf8(p))
}

/// The grapheme clusters of `text`, in order.
pub open spec fn graphemes(text: Seq<char>) -> Seq<Seq<char>> {
    pieces(text, grapheme_breaks(text))
}

/// Relies on icu_segmenter's `GraphemeClusterSegmenter::new().segment_str`: the extended
/// grapheme cluster boundaries of `text` as byte offsets, each after a boundary, so on a
/// character boundary; as documented, the first is always 0, the last is the length of
/// the text, and successive ones delimit the clusters.
#[verifier::external_body]
fn grapheme_boundaries(text: &str) -> (r: Vec<usize>)
    ensures
        r@ == grapheme_breaks(text@),
        breaks_fit(text.spec_bytes(), r@),
{
    GraphemeClusterSegmenter::new().segment_str(text).collect()
}

/// UTF-8 encoding maps concatenation to concatenation.
pub proof fn encode_utf8_concat(a: Seq<char>, b: Seq<char>)
    ensures
        encode_utf8(a + b) == encode_utf8(a) + encode_utf8(b),
    decreases a.len(),
{
    if a.len() == 0 {
        assert(a + b =~= b);
        assert(encode_utf8(a) =~= Seq::<u8>::empty());
        assert(encode_utf8(a) + encode_utf8(b) =~= encode_utf8(b));
    } else {
        encode_utf8_concat(a.drop_first(), b);
        assert((a + b).drop_first() =~= a.drop_first() + b);
        assert((a + b)[0] == a[0]);
        assert(encode_utf8(a + b) =~= encode_scalar(a[0] as u32) + encode_utf8(a.drop_first() + b));
    }
}

/// Between two character boundaries `a <= b` of valid UTF-8, `a` is a character boundary
/// of the prefix that ends at `b`, and the span from `a` to `b` is valid UTF-8.
pub proof fn span_between_boundaries(bytes: Seq<u8>, a: int, b: int)
    requires
        valid_utf8(bytes),
        is_char_boundary(bytes, a),
        is_char_boundary(bytes, b),
        0 <= a <= b <= bytes.len(),
    ensures
        valid_utf8(bytes.subrange(0, b)),
        is_char_boundary(bytes.subrange(0, b), a),
        valid_utf8(bytes.subrange(a, b)),
{
    valid_utf8_split(bytes, b);
    let head = bytes.subrange(0, b);
    if a == b {
        is_char_boundary_start_end_of_seq(head);
    } else {
        is_char_boundary_iff_not_is_continuation_byte(bytes, a);
        is_char_boundary_iff_not_is_continuation_byte(head, a);
    }
    valid_utf8_split(head, a);
    assert(head.subrange(a, head.len() as int) =~= bytes.subrange(a, b));
}

/// Cutting a valid UTF-8 text at the first `n` boundaries of a usable list gives
/// non-empty valid pieces that, decoded and joined, encode the text up to the last of
/// those boundaries.
proof fn cut_prefix(bytes: Seq<u8>, breaks: Seq<usize>, n: int)
    requires
        valid_utf8(bytes),
        breaks_fit(bytes, breaks),
        0 <= n <= breaks.len(),
    ensures
        ({
            let c = cut(bytes, breaks.take(n));
            &&& forall|i: int| 0 <= i < c.len() ==> (#[trigger] c[i]).len() > 0 && valid_utf8(c[i])
            &&& encode_utf8(c.map_values(|p: Seq<u8>| decode_utf8(p)).flatten())
                == bytes.subrange(0, prev_break(breaks, n))
        }),
    decreases n,
{
    let c = cut(bytes, breaks.take(n));
    if n == 0 {
        assert(c.map_values(|p: Seq<u8>| decode_utf8(p)) =~= Seq::<Seq<char>>::empty());
        assert(bytes.subrange(0, 0) =~= Seq::<u8>::empty());
    } else {
        cut_prefix(bytes, breaks, n - 1);
        let t = breaks.take(n);
        assert(t.drop_last() =~= breaks.take(n - 1));
        assert(prev_break(t, n - 1) == prev_break(breaks, n - 1));
        let c0 = cut(bytes, breaks.take(n - 1));
        let d0 = c0.map_values(|p: Seq<u8>| decode_utf8(p));
        let a = prev_break(breaks, n - 1);
        let b = breaks[n - 1] as int;
        if n >= 2 {
            assert(breaks[n - 2] <= breaks[n - 1]);
            assert(is_char_boundary(bytes, breaks[n - 2] as int));
        }
        assert(is_char_boundary(bytes, breaks[n - 1] as int));
        assert(b <= bytes.len()) by {
            assert(breaks[n - 1] <= breaks[breaks.len() - 1]);
        }
        if a < b {
            let piece = bytes.subrange(a, b);
            span_between_boundaries(bytes, a, b);
            assert(c == c0.push(piece));
            let d = c.map_values(|p: Seq<u8>| decode_utf8(p));
            assert(d =~= d0.push(decode_utf8(piece)));
            d0.lemma_flatten_push(decode_utf8(piece));
            encode_utf8_concat(d0.flatten(), decode_utf8(piece));
            assert(bytes.subrange(0, b) =~= bytes.subrange(0, a) + piece);
        } else {
            assert(c == c0);
            assert(a == b);
        }
    }
}

/// Cutting a text at a usable list of boundaries partitions it: the pieces are non-empty
/// and, joined in order, give the text back.
pub proof fn pieces_partition(text: Seq<char>, breaks: Seq<usize>)
    requires
        breaks_fit(encode_utf8(text), breaks),
    ensures
        pieces(text, breaks).flatten() == text,
        forall|i: int|
            0 <= i < pieces(text, breaks).len() ==> (#[trigger] pieces(text, breaks)[i]).len() > 0,
{
    let bytes = encode_utf8(text);
    let n = breaks.len() as int;
    cut_prefix(bytes, breaks, n);
    assert(breaks.take(n) =~= breaks);
    assert(bytes.subrange(0, prev_break(breaks, n)) =~= bytes);
    let c = cut(bytes, breaks);
    assert forall|i: int| 0 <= i < pieces(text, breaks).len() implies (#[trigger] pieces(
        text,
        breaks,
    )[i]).len() > 0 by {
        assert(encode_utf8(decode_utf8(c[i])) == c[i]);
        if decode_utf8(c[i]).len() == 0 {
            assert(decode_utf8(c[i]) =~= Seq::<char>::empty());
            assert(encode_utf8(Seq::<char>::empty()) =~= Seq::<u8>::empty());
        }
    }
    assert(decode_utf8(encode_utf8(pieces(text, breaks).flatten())) == decode_utf8(bytes));
}

/// The pieces of `input` between successive byte offsets of `breaks`, starting at offset
/// 0, in order; a span that is empty, or that would go backwards, is left out.
pub fn split_at_breaks(input: &str, breaks: &Vec<usize>) -> (r: Vec<String>)
    requires
        forall|i: int|
            0 <= i < breaks@.len() ==> is_char_boundary(
                input.spec_bytes(),
                #[trigger] breaks@[i] as int,
            ),
    ensures
        texts(r@) == pieces(input@, breaks@),
{
    let ghost bytes = input.spec_bytes();
    let mut segments: Vec<String> = Vec::new();
    let mut start: usize = 0;
    let mut i: usize = 0;
    while i < breaks.len()
        invariant
            bytes == input.spec_bytes(),
            bytes == encode_utf8(input@),
            forall|k: int|
                0 <= k < breaks@.len() ==> is_char_boundary(bytes, #[trigger] breaks@[k] as int),
            i <= breaks.len(),
            start == prev_break(breaks@, i as int),
            is_char_boundary(bytes, start as int),
            texts(segments@) == cut(bytes, breaks@.take(i as int)).map_values(
                |p: Seq<u8>| decode_utf8(p),
            ),
        decreases breaks.len() - i,
    {
        let end = breaks[i];
        proof {
            let t = breaks@.take(i + 1);
            assert(t.drop_last() =~= breaks@.take(i as int));
            assert(prev_break(t, i as int) == prev_break(breaks@, i as int));
            assert(is_char_boundary(bytes, breaks@[i as int] as int));
        }
        if end > start {
            proof {
                span_between_boundaries(bytes, start as int, end as int);
            }
            let (head, _) = input.split_at(end);
            let (_, piece) = head.split_at(start);
            let owned = piece.to_owned();
            proof {
                let span = bytes.subrange(start as int, end as int);
                assert(piece.spec_bytes() =~= span);
                assert(owned@ == decode_utf8(span));
                assert(texts(segments@.push(owned)) =~= texts(segments@).push(owned@));
                assert(cut(bytes, breaks@.take(i + 1)).map_values(|p: Seq<u8>| decode_utf8(p))
                    =~= cut(bytes, breaks@.take(i as int)).map_values(
                    |p: Seq<u8>| decode_utf8(p),
                ).push(decode_utf8(span)));
            }
            segments.push(owned);
        }
        start = end;
        i = i + 1;
    }
    proof {
        assert(breaks@.take(breaks@.len() as int) =~= breaks@);
    }
    segments
}

/// Why a segmenter could not be built.
#[derive(Debug)]
pub enum SegmenterError {
    /// The requested segmentation mode is not supported.
    UnsupportedMode(String),
}

impl SegmenterError {
    /// The human-readable description of the error.
    pub fn message(&self) -> (r: String)
        ensures
            r@ == match self {
                SegmenterError::UnsupportedMode(m) => "Unsupported mode: "@ + m@,
            },
    {
        match self {
            SegmenterError::UnsupportedMode(m) => "Unsupported mode: ".to_owned().concat(m.as_str()),
        }
    }
}

/// Splits text into grapheme clusters; configured once with a mode and a locale hint.
#[derive(Debug)]
pub struct Segmenter {
    mode: String,
    locale: Option<String>,
}

impl Segmenter {
    #[verifier::type_invariant]
    spec fn supported(&self) -> bool {
        self.mode@ == grapheme_mode()
    }

    /// The segmentation mode.
    pub closed spec fn mode(&self) -> Seq<char> {
        self.mode@
    }

    /// The locale hint given at construction.
    pub closed spec fn locale(&self) -> Option<Seq<char>> {
        hint_view(self.locale)
    }

    /// A segmenter for `mode` (by default `grapheme`, the only supported one), keeping
    /// `locale` as a hint.
    pub fn new(mode: Option<String>, locale: Option<String>) -> (r: Result<Segmenter, SegmenterError>)
        ensures
            ({
                let requested = match mode {
                    Some(m) => m@,
                    None => grapheme_mode(),
                };
                &&& r is Ok <==> requested == grapheme_mode()
                &&& r is Ok ==> r->Ok_0.mode() == grapheme_mode() && r->Ok_0.locale()
                    == hint_view(locale)
                &&& r is Err ==> r->Err_0->UnsupportedMode_0@ == requested
            }),
    {
        let mode = match mode {
            Some(m) => m,
            None => "grapheme".to_owned(),
        };
        let grapheme = "grapheme".to_owned();
        if mode != grapheme {
            return Err(SegmenterError::UnsupportedMode(mode));
        }
        Ok(Segmenter { mode, locale })
    }

    /// The grapheme clusters of `input`, in order, as a sequence with its cursor at the
    /// start. The clusters are never empty and together give `input` back.
    pub fn segment(&self, input: String) -> (r: SegmentIterator)
        ensures
            r.items() == graphemes(input@),
            r.cursor() == 0,
            r.items().flatten() == input@,
            forall|i: int| 0 <= i < r.items().len() ==> (#[trigger] r.items()[i]).len() > 0,
    {
        let breaks = grapheme_boundaries(input.as_str());
        let segments = split_at_breaks(input.as_str(), &breaks);
        proof {
            pieces_partition(input@, breaks@);
        }
        SegmentIterator::new(segments)
    }

    /// The segmentation mode.
    pub fn get_mode(&self) -> (r: &str)
        ensures
            r@ == self.mode(),
    {
        self.mode.as_str()
    }

    /// The locale hint given at construction.
    pub fn get_locale(&self) -> (r: Option<&str>)
        ensures
            r matches Some(l) ==> self.locale() == Some(l@),
            r is None ==> self.locale() is None,
    {
        match &self.locale {
            Some(l) => Some(l.as_str()),
            None => None,
        }
    }
}

} // verus!
