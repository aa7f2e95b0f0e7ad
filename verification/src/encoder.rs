//! Content encoding: the negotiation over `Accept-Encoding`, and the
//! single-shot gzip compression of a complete body.

use vstd::prelude::*;
use vstd::std_specs::iter::IteratorSpec;
use vstd::string::StringSliceAdditionalSpecFns;
use vstd::utf8::{decode_utf8, valid_utf8};
use crate::parser::ParseError;

verus! {

/// The gzip container that `flate2` produces for `data` at its default
/// compression level. The encoder writes no timestamp and no file name, so
/// the bytes depend on `data` alone.
pub uninterp spec fn gzip_of(data: Seq<u8>) -> Seq<u8>;

/// Compresses a complete in-memory body into a gzip container. Each call
/// starts from a fresh encoder.
///
/// Trusted: runs `flate2::write::GzEncoder` over an in-memory `Vec` with
/// `Compression::default()`, feeding it with `write_all` and closing it with
/// `finish`. The contract only names the bytes that come back.
#[verifier::external_body]
pub(crate) fn compress_data(data: &[u8]) -> (out: Vec<u8>)
    ensures
        out@ == gzip_of(data@),
{
    let mut encoder = flate2::write::GzEncoder::new(Vec::new(), flate2::Compression::default());
    std::io::Write::write_all(&mut encoder, data).unwrap();
    encoder.finish().unwrap()
}

/// Reads bytes as text.
///
/// Trusted: calls `std::str::from_utf8`, which succeeds exactly on valid
/// UTF-8 and then hands back the same bytes as a string.
#[verifier::external_body]
pub(crate) fn as_text(bytes: &[u8]) -> (r: Option<&str>)
    ensures
        r is Some <==> valid_utf8(bytes@),
        r matches Some(text) ==> text.spec_bytes() == bytes@,
{
    std::str::from_utf8(bytes).ok()
}

/// The characters of a string, in order.
pub fn chars_of(text: &str) -> (chars: Vec<char>)
    ensures
        chars@ == text@,
{
    broadcast use {vstd::string::axiom_spec_iter, vstd::string::next_postcondition};

    let mut chars: Vec<char> = Vec::new();
    let mut rest = text.chars();
    loop
        invariant
            chars@ + rest.remaining() == text@,
            rest.decrease() is Some,
        decreases rest.decrease()->0,
    {
        match rest.next() {
            Some(c) => {
                chars.push(c);
                assert(chars@ + rest.remaining() =~= text@);
            },
            None => {
                assert(chars@ =~= text@);
                return chars;
            },
        }
    }
}

/// Decodes a header value as text: its characters where it is valid UTF-8,
/// nothing where it is not.
pub fn decode_text(bytes: &[u8]) -> (r: Option<Vec<char>>)
    ensures
        r is Some <==> valid_utf8(bytes@),
        r matches Some(chars) ==> chars@ == decode_utf8(bytes@),
{
    match as_text(bytes) {
        Some(text) => {
            proof {
                vstd::utf8::encode_utf8_decode_utf8(text@);
            }
            Some(chars_of(text))
        },
        None => None,
    }
}

/// Whether a character is white space: the code points with the Unicode
/// property `White_Space`.
pub open spec fn is_space(c: char) -> bool {
    let u = c as u32;
    ||| 0x09 <= u <= 0x0D
    ||| u == 0x20
    ||| u == 0x85
    ||| u == 0xA0
    ||| u == 0x1680
    ||| 0x2000 <= u <= 0x200A
    ||| u == 0x2028
    ||| u == 0x2029
    ||| u == 0x202F
    ||| u == 0x205F
    ||| u == 0x3000
}

/// Whether a character is white space.
pub fn is_whitespace(c: char) -> (r: bool)
    ensures
        r == is_space(c),
{
    let u: u32 = c as u32;
    (0x09 <= u && u <= 0x0D) || u == 0x20 || u == 0x85 || u == 0xA0 || u == 0x1680 || (0x2000 <= u
        && u <= 0x200A) || u == 0x2028 || u == 0x2029 || u == 0x202F || u == 0x205F || u == 0x3000
}

/// `s` without the white space at its start.
pub open spec fn trim_start(s: Seq<char>) -> Seq<char>
    decreases s.len(),
{
    if s.len() > 0 && is_space(s[0]) {
        trim_start(s.skip(1))
    } else {
        s
    }
}

/// `s` without the white space at its end.
pub open spec fn trim_end(s: Seq<char>) -> Seq<char>
    decreases s.len(),
{
    if s.len() > 0 && is_space(s.last()) {
        trim_end(s.drop_last())
    } else {
        s
    }
}

/// `s` without the white space around it.
pub open spec fn trimmed(s: Seq<char>) -> Seq<char> {
    trim_end(trim_start(s))
}

/// Whether `[i, j)` is one item of the comma-separated list `v`: it starts
/// at the start of `v` or behind a comma, ends at the end of `v` or before a
/// comma, and holds no comma.
pub open spec fn is_token(v: Seq<char>, i: int, j: int) -> bool {
    &&& 0 <= i <= j <= v.len()
    &&& (i == 0 || v[i - 1] == ',')
    &&& (j == v.len() || v[j] == ',')
    &&& forall|k: int| i <= k < j ==> v[k] != ','
}

/// Whether the comma-separated list `v` has an item that is exactly `word`
/// once the white space around the item is taken off.
pub open spec fn lists(v: Seq<char>, word: Seq<char>) -> bool {
    exists|i: int, j: int| #[trigger] is_token(v, i, j) && trimmed(v.subrange(i, j)) == word
}

/// What an `Accept-Encoding` value says of gzip: whether it lists the token
/// `gzip`, or that it is not text at all.
pub open spec fn negotiated(value: Seq<u8>) -> Result<bool, ParseError> {
    if valid_utf8(value) {
        Ok(lists(decode_utf8(value), "gzip"@))
    } else {
        Err(ParseError::InvalidEncoding)
    }
}

/// The bounds of `v[from..to]` without the white space around it.
pub fn trim_bounds(v: &[char], from: usize, to: usize) -> (r: (usize, usize))
    requires
        from <= to <= v@.len(),
    ensures
        from <= r.0 <= r.1 <= to,
        v@.subrange(r.0 as int, r.1 as int) == trimmed(v@.subrange(from as int, to as int)),
{
    let mut a: usize = from;
    while a < to && is_whitespace(v[a])
        invariant
            from <= a <= to <= v@.len(),
            trim_start(v@.subrange(from as int, to as int)) == trim_start(
                v@.subrange(a as int, to as int),
            ),
        decreases to - a,
    {
        assert(v@.subrange(a as int, to as int).skip(1) =~= v@.subrange(a + 1, to as int));
        a += 1;
    }
    assert(trim_start(v@.subrange(a as int, to as int)) == v@.subrange(a as int, to as int));
    let mut b: usize = to;
    while b > a && is_whitespace(v[b - 1])
        invariant
            a <= b <= to <= v@.len(),
            trim_end(v@.subrange(a as int, to as int)) == trim_end(v@.subrange(a as int, b as int)),
        decreases b - a,
    {
        assert(v@.subrange(a as int, b as int).drop_last() =~= v@.subrange(a as int, b - 1));
        b -= 1;
    }
    assert(trim_end(v@.subrange(a as int, b as int)) == v@.subrange(a as int, b as int));
    (a, b)
}

/// Whether `v[from..to]` is the word `gzip`.
fn is_gzip(v: &[char], from: usize, to: usize) -> (r: bool)
    requires
        from <= to <= v@.len(),
    ensures
        r == (v@.subrange(from as int, to as int) == "gzip"@),
{
    proof {
        reveal_strlit("gzip");
    }
    let ghost s = v@.subrange(from as int, to as int);
    assert(s.len() == to - from && "gzip"@.len() == 4);
    if to - from != 4 {
        return false;
    }
    let r = v[from] == 'g' && v[from + 1] == 'z' && v[from + 2] == 'i' && v[from + 3] == 'p';
    assert(s[0] == v@[from as int] && s[1] == v@[from + 1] && s[2] == v@[from + 2] && s[3] == v@[
        from + 3]);
    if r {
        assert(s =~= "gzip"@);
    }
    r
}

/// Whether a comma-separated list names `gzip` as one of its items. The
/// match is on the whole item: a longer word that holds `gzip` does not
/// count, nor does a wildcard.
pub fn lists_gzip(v: &[char]) -> (r: bool)
    ensures
        r == lists(v@, "gzip"@),
{
    let mut start: usize = 0;
    loop
        invariant
            start <= v@.len(),
            start == 0 || v@[start - 1] == ',',
            forall|i: int, j: int| #[trigger]
                is_token(v@, i, j) && j < start ==> trimmed(v@.subrange(i, j)) != "gzip"@,
        decreases v@.len() - start,
    {
        let mut end: usize = start;
        while end < v.len() && v[end] != ','
            invariant
                start <= end <= v@.len(),
                forall|k: int| start <= k < end ==> v@[k] != ',',
            decreases v@.len() - end,
        {
            end += 1;
        }
        assert(is_token(v@, start as int, end as int));
        assert forall|i: int, j: int| #[trigger] is_token(v@, i, j) && start <= j <= end implies i
            == start && j == end by {
            if i < start {
                assert(v@[start - 1] == ',');
            } else if i > start {
                assert(v@[i - 1] == ',');
            }
            if j < end {
                assert(v@[j] == ',');
            }
        }
        let (a, b) = trim_bounds(v, start, end);
        if is_gzip(v, a, b) {
            return true;
        }
        if end == v.len() {
            return false;
        }
        start = end + 1;
    }
}

/// Reads an `Accept-Encoding` value: whether the client takes gzip. A
/// value that is not valid UTF-8 is an error.
pub fn accepts_gzip(value: &[u8]) -> (r: Result<bool, ParseError>)
    ensures
        r == negotiated(value@),
{
    match decode_text(value) {
        Some(chars) => Ok(lists_gzip(chars.as_slice())),
        None => Err(ParseError::InvalidEncoding),
    }
}

/// Whether every character of `s` is white space.
pub open spec fn all_space(s: Seq<char>) -> bool {
    forall|i: int| 0 <= i < s.len() ==> is_space(#[trigger] s[i])
}

/// White space before a word is taken off, and nothing of the word.
pub proof fn lemma_trim_start_of_padded(pad: Seq<char>, rest: Seq<char>)
    requires
        all_space(pad),
        rest.len() == 0 || !is_space(rest[0]),
    ensures
        trim_start(pad + rest) == rest,
    decreases pad.len(),
{
    let s = pad + rest;
    if pad.len() == 0 {
        assert(s =~= rest);
    } else {
        assert(s[0] == pad[0]);
        assert(s.skip(1) =~= pad.skip(1) + rest);
        assert(all_space(pad.skip(1))) by {
            assert forall|i: int| 0 <= i < pad.skip(1).len() implies is_space(
                #[trigger] pad.skip(1)[i],
            ) by {
                assert(pad.skip(1)[i] == pad[i + 1]);
            }
        }
        lemma_trim_start_of_padded(pad.skip(1), rest);
    }
}

/// White space behind a word is taken off, and nothing of the word.
pub proof fn lemma_trim_end_of_padded(rest: Seq<char>, pad: Seq<char>)
    requires
        all_space(pad),
        rest.len() == 0 || !is_space(rest.last()),
    ensures
        trim_end(rest + pad) == rest,
    decreases pad.len(),
{
    let s = rest + pad;
    if pad.len() == 0 {
        assert(s =~= rest);
    } else {
        assert(s.last() == pad.last());
        assert(s.drop_last() =~= rest + pad.drop_last());
        assert(all_space(pad.drop_last())) by {
            assert forall|i: int| 0 <= i < pad.drop_last().len() implies is_space(
                #[trigger] pad.drop_last()[i],
            ) by {
                assert(pad.drop_last()[i] == pad[i]);
            }
        }
        lemma_trim_end_of_padded(rest, pad.drop_last());
    }
}

/// A word with white space around it trims to the word, provided the word
/// itself neither begins nor ends with white space.
pub proof fn lemma_trimmed_of_padded(before: Seq<char>, word: Seq<char>, after: Seq<char>)
    requires
        all_space(before),
        all_space(after),
        word.len() > 0,
        !is_space(word[0]),
        !is_space(word.last()),
    ensures
        trimmed(before + word + after) == word,
{
    assert(before + word + after =~= before + (word + after));
    assert((word + after)[0] == word[0]);
    lemma_trim_start_of_padded(before, word + after);
    lemma_trim_end_of_padded(word, after);
}

/// A list without a comma is a single item.
pub proof fn lemma_lists_single(v: Seq<char>, word: Seq<char>)
    requires
        forall|k: int| 0 <= k < v.len() ==> v[k] != ',',
    ensures
        lists(v, word) <==> trimmed(v) == word,
{
    assert(v.subrange(0, v.len() as int) =~= v);
    assert(is_token(v, 0, v.len() as int));
    if lists(v, word) {
        let (i, j) = choose|i: int, j: int| #[trigger]
            is_token(v, i, j) && trimmed(v.subrange(i, j)) == word;
        if i > 0 {
            assert(v[i - 1] == ',');
        }
        if j < v.len() {
            assert(v[j] == ',');
        }
    }
}

/// Joining two lists with a comma joins their items: the longer list has
/// an item for `word` exactly when one of the two has. So an item is found
/// wherever it stands in the list, and whatever stands beside it.
pub proof fn lemma_lists_joined(a: Seq<char>, b: Seq<char>, word: Seq<char>)
    ensures
        lists(a + seq![','] + b, word) <==> lists(a, word) || lists(b, word),
{
    let v = a + seq![','] + b;
    let n = a.len() as int;
    assert(v[n] == ',');
    if lists(v, word) {
        let (i, j) = choose|i: int, j: int| #[trigger]
            is_token(v, i, j) && trimmed(v.subrange(i, j)) == word;
        if i <= n && n < j {
            assert(v[n] != ',');
        }
        if j <= n {
            assert(v.subrange(i, j) =~= a.subrange(i, j));
            assert(is_token(a, i, j)) by {
                if i > 0 {
                    assert(v[i - 1] == a[i - 1]);
                }
                if j < n {
                    assert(v[j] == a[j]);
                }
                assert forall|k: int| i <= k < j implies a[k] != ',' by {
                    assert(v[k] == a[k]);
                }
            }
        } else {
            assert(v.subrange(i, j) =~= b.subrange(i - n - 1, j - n - 1));
            assert(is_token(b, i - n - 1, j - n - 1)) by {
                if i > n + 1 {
                    assert(v[i - 1] == b[i - 1 - n - 1]);
                }
                if j < v.len() {
                    assert(v[j] == b[j - n - 1]);
                }
                assert forall|k: int| i - n - 1 <= k < j - n - 1 implies b[k] != ',' by {
                    assert(v[k + n + 1] == b[k]);
                }
            }
        }
    }
    if lists(a, word) {
        let (i, j) = choose|i: int, j: int| #[trigger]
            is_token(a, i, j) && trimmed(a.subrange(i, j)) == word;
        assert(v.subrange(i, j) =~= a.subrange(i, j));
        assert(is_token(v, i, j)) by {
            if i > 0 {
                assert(v[i - 1] == a[i - 1]);
            }
            if j < n {
                assert(v[j] == a[j]);
            }
            assert forall|k: int| i <= k < j implies v[k] != ',' by {
                assert(v[k] == a[k]);
            }
        }
    }
    if lists(b, word) {
        let (i, j) = choose|i: int, j: int| #[trigger]
            is_token(b, i, j) && trimmed(b.subrange(i, j)) == word;
        assert(v.subrange(i + n + 1, j + n + 1) =~= b.subrange(i, j));
        assert(is_token(v, i + n + 1, j + n + 1)) by {
            if i > 0 {
                assert(v[i + n] == b[i - 1]);
            }
            if j < b.len() {
                assert(v[j + n + 1] == b[j]);
            }
            assert forall|k: int| i + n + 1 <= k < j + n + 1 implies v[k] != ',' by {
                assert(v[k] == b[k - n - 1]);
            }
        }
    }
}

} // verus!
