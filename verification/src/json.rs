//! A small JSON codec for the registry's documents.
//!
//! The registry speaks JSON: the metadata endpoint returns a metadata
//! document, the listing endpoint a listing document, and the engine writes
//! the metadata back out as a side-file. This module holds the pieces the
//! two document codecs share: whitespace, string encoding and decoding, and
//! a skipper for values the engine does not interpret.
//!
//! Strings are handled as sequences of characters. The accepted escapes are
//! `\" \\ \/ \b \f \n \r \t` and `\u00XX`; escapes of code points above
//! U+00FF are not accepted, and the encoder never produces them (characters
//! outside that range are written as themselves).

use vstd::prelude::*;

verus! {

/// The characters JSON treats as insignificant whitespace.
pub open spec fn is_ws(c: char) -> bool {
    c == ' ' || c == '\n' || c == '\r' || c == '\t'
}

/// First position at or after `i` that does not hold whitespace.
pub open spec fn spec_skip_ws(s: Seq<char>, i: int) -> int
    decreases s.len() - i when 0 <= i <= s.len()
{
    if i < s.len() && is_ws(s[i]) {
        spec_skip_ws(s, i + 1)
    } else {
        i
    }
}

pub proof fn lemma_skip_ws_bounds(s: Seq<char>, i: int)
    requires
        0 <= i <= s.len(),
    ensures
        i <= spec_skip_ws(s, i) <= s.len(),
    decreases s.len() - i,
{
    if i < s.len() && is_ws(s[i]) {
        lemma_skip_ws_bounds(s, i + 1);
    }
}

/// The hexadecimal digit for a value below 16, in lower case.
pub open spec fn hex_digit(v: u32) -> char {
    if v == 0 { '0' } else if v == 1 { '1' } else if v == 2 { '2' } else if v == 3 { '3' }
    else if v == 4 { '4' } else if v == 5 { '5' } else if v == 6 { '6' } else if v == 7 { '7' }
    else if v == 8 { '8' } else if v == 9 { '9' } else if v == 10 { 'a' } else if v == 11 { 'b' }
    else if v == 12 { 'c' } else if v == 13 { 'd' } else if v == 14 { 'e' } else { 'f' }
}

/// The value of a hexadecimal digit, upper or lower case.
pub open spec fn hex_val(c: char) -> Option<u32> {
    if c == '0' { Some(0u32) } else if c == '1' { Some(1u32) } else if c == '2' { Some(2u32) }
    else if c == '3' { Some(3u32) } else if c == '4' { Some(4u32) } else if c == '5' { Some(5u32) }
    else if c == '6' { Some(6u32) } else if c == '7' { Some(7u32) } else if c == '8' { Some(8u32) }
    else if c == '9' { Some(9u32) } else if c == 'a' || c == 'A' { Some(10u32) }
    else if c == 'b' || c == 'B' { Some(11u32) } else if c == 'c' || c == 'C' { Some(12u32) }
    else if c == 'd' || c == 'D' { Some(13u32) } else if c == 'e' || c == 'E' { Some(14u32) }
    else if c == 'f' || c == 'F' { Some(15u32) } else { None }
}

proof fn lemma_hex_digit_val(v: u32)
    requires
        v < 16,
    ensures
        hex_val(hex_digit(v)) == Some(v),
{
}

/// How the encoder writes one character inside a JSON string.
pub open spec fn escape_char(c: char) -> Seq<char> {
    if c == '"' {
        seq!['\\', '"']
    } else if c == '\\' {
        seq!['\\', '\\']
    } else if (c as u32) < 32 {
        seq!['\\', 'u', '0', '0', hex_digit((c as u32) / 16), hex_digit((c as u32) % 16)]
    } else {
        seq![c]
    }
}

proof fn lemma_low_char_cast(c: char)
    requires
        (c as u32) < 256,
    ensures
        (((c as u32) as u8) as char) == c,
{
}

/// Decodes one escape; `i` points at the character after the backslash.
/// Returns the decoded character and the position after the escape.
pub open spec fn spec_parse_escape(s: Seq<char>, i: int) -> Option<(char, int)> {
    if !(0 <= i < s.len()) {
        None
    } else if s[i] == '"' {
        Some(('"', i + 1))
    } else if s[i] == '\\' {
        Some(('\\', i + 1))
    } else if s[i] == '/' {
        Some(('/', i + 1))
    } else if s[i] == 'b' {
        Some(('\u{0008}', i + 1))
    } else if s[i] == 'f' {
        Some(('\u{000C}', i + 1))
    } else if s[i] == 'n' {
        Some(('\n', i + 1))
    } else if s[i] == 'r' {
        Some(('\r', i + 1))
    } else if s[i] == 't' {
        Some(('\t', i + 1))
    } else if s[i] == 'u' {
        if i + 5 <= s.len() && s[i + 1] == '0' && s[i + 2] == '0' && hex_val(s[i + 3]) is Some
            && hex_val(s[i + 4]) is Some {
            let v = hex_val(s[i + 3])->0 * 16 + hex_val(s[i + 4])->0;
            Some(((v as u8) as char, i + 5))
        } else {
            None
        }
    } else {
        None
    }
}

/// Decodes the body of a JSON string from position `i` (just after the
/// opening quote) up to and over the closing quote. Returns the decoded
/// characters and the position after the closing quote.
pub open spec fn spec_parse_str_body(s: Seq<char>, i: int) -> Option<(Seq<char>, int)>
    decreases s.len() - i when 0 <= i <= s.len()
{
    if i >= s.len() {
        None
    } else if s[i] == '"' {
        Some((Seq::empty(), i + 1))
    } else if s[i] == '\\' {
        match spec_parse_escape(s, i + 1) {
            None => None,
            Some((c, j)) => if i < j <= s.len() {
                match spec_parse_str_body(s, j) {
                    None => None,
                    Some((rest, e)) => Some((seq![c] + rest, e)),
                }
            } else {
                None
            },
        }
    } else if (s[i] as u32) < 32 {
        None
    } else {
        match spec_parse_str_body(s, i + 1) {
            None => None,
            Some((rest, e)) => Some((seq![s[i]] + rest, e)),
        }
    }
}

/// Decodes a whole JSON string whose opening quote stands at `i`.
pub open spec fn spec_parse_string(s: Seq<char>, i: int) -> Option<(Seq<char>, int)> {
    if 0 <= i < s.len() && s[i] == '"' {
        spec_parse_str_body(s, i + 1)
    } else {
        None
    }
}

/// The encoder's output for the body of a JSON string.
pub open spec fn encode_str_body(s: Seq<char>) -> Seq<char>
    decreases s.len(),
{
    if s.len() == 0 {
        Seq::empty()
    } else {
        escape_char(s[0]) + encode_str_body(s.drop_first())
    }
}

/// The encoder's output for a whole JSON string, quotes included.
pub open spec fn encode_string(s: Seq<char>) -> Seq<char> {
    seq!['"'] + encode_str_body(s) + seq!['"']
}

/// Decoding starts where encoding ended: a document that continues with the
/// encoded body of `s`, a closing quote and then `tail` decodes to `s` and
/// stops right after that quote.
pub proof fn lemma_parse_encoded_body(doc: Seq<char>, i: int, s: Seq<char>, tail: Seq<char>)
    requires
        0 <= i <= doc.len(),
        doc.subrange(i, doc.len() as int) == encode_str_body(s) + seq!['"'] + tail,
    ensures
        spec_parse_str_body(doc, i) == Some((s, i + encode_str_body(s).len() + 1)),
    decreases s.len(),
{
    let sub = doc.subrange(i, doc.len() as int);
    let whole = encode_str_body(s) + seq!['"'] + tail;
    assert(sub.len() == whole.len());
    if s.len() == 0 {
        assert(encode_str_body(s) =~= Seq::<char>::empty());
        assert(whole[0] == '"');
        assert(doc[i] == sub[0]);
    } else {
        let c = s[0];
        let esc = escape_char(c);
        let body = encode_str_body(s);
        assert(body == esc + encode_str_body(s.drop_first()));
        let j = i + esc.len();
        assert(doc.subrange(j, doc.len() as int) =~= encode_str_body(s.drop_first()) + seq!['"']
            + tail) by {
            assert forall|k: int| 0 <= k < doc.len() - j implies doc.subrange(
                j,
                doc.len() as int,
            )[k] == (encode_str_body(s.drop_first()) + seq!['"'] + tail)[k] by {
                assert(doc[j + k] == whole[esc.len() + k]);
            }
        }
        lemma_parse_encoded_body(doc, j, s.drop_first(), tail);
        assert forall|k: int| 0 <= k < esc.len() implies doc[i + k] == esc[k] by {
            assert(doc[i + k] == whole[k]);
        }
        if c == '"' || c == '\\' {
            assert(doc[i] == '\\');
            assert(spec_parse_escape(doc, i + 1) == Some((c, i + 2)));
            assert((spec_parse_str_body(doc, i)->0).0 =~= s);
        } else if (c as u32) < 32 {
            assert(doc[i] == '\\' && doc[i + 1] == 'u' && doc[i + 2] == '0' && doc[i + 3] == '0');
            let hi = (c as u32) / 16;
            let lo = (c as u32) % 16;
            assert(doc[i + 4] == hex_digit(hi) && doc[i + 5] == hex_digit(lo));
            lemma_hex_digit_val(hi);
            lemma_hex_digit_val(lo);
            assert(hex_val(doc[i + 4]) == Some(hi) && hex_val(doc[i + 5]) == Some(lo));
            assert(hi * 16 + lo == c as u32) by (nonlinear_arith)
                requires
                    hi == (c as u32) / 16,
                    lo == (c as u32) % 16,
            ;
            assert(i + 6 <= doc.len());
            let v = hi * 16 + lo;
            assert(v == c as u32);
            lemma_low_char_cast(c);
            assert(((v as u8) as char) == c);
            assert(spec_parse_escape(doc, i + 1) == Some((c, i + 6)));
            assert((spec_parse_str_body(doc, i)->0).0 =~= s);
        } else {
            assert(doc[i + 0] == esc[0]);
            assert(doc[i] == c);
            assert(doc[i] != '"' && doc[i] != '\\');
            assert((spec_parse_str_body(doc, i)->0).0 =~= s);
        }
    }
}

/// An encoded body grows one escape at a time when the plain text grows one
/// character at a time.
pub proof fn lemma_encode_body_snoc(p: Seq<char>, c: char)
    ensures
        encode_str_body(p + seq![c]) == encode_str_body(p) + escape_char(c),
    decreases p.len(),
{
    if p.len() == 0 {
        assert(p + seq![c] =~= seq![c]);
        assert((p + seq![c])[0] == c);
        assert((p + seq![c]).drop_first() =~= Seq::<char>::empty());
        assert(encode_str_body(Seq::<char>::empty()) =~= Seq::<char>::empty());
        assert(encode_str_body(p + seq![c]) =~= encode_str_body(p) + escape_char(c));
    } else {
        assert((p + seq![c])[0] == p[0]);
        assert((p + seq![c]).drop_first() =~= p.drop_first() + seq![c]);
        lemma_encode_body_snoc(p.drop_first(), c);
        assert(encode_str_body(p + seq![c]) =~= encode_str_body(p) + escape_char(c));
    }
}

/// The whole-string form of `lemma_parse_encoded_body`.
pub proof fn lemma_parse_encoded_string(doc: Seq<char>, i: int, s: Seq<char>, tail: Seq<char>)
    requires
        0 <= i <= doc.len(),
        doc.subrange(i, doc.len() as int) == encode_string(s) + tail,
    ensures
        spec_parse_string(doc, i) == Some((s, i + encode_string(s).len())),
{
    let whole = encode_string(s) + tail;
    assert(doc.len() - i == whole.len());
    assert(doc[i] == whole[0]);
    assert(doc[i] == '"');
    assert(doc.subrange(i + 1, doc.len() as int) =~= encode_str_body(s) + seq!['"'] + tail) by {
        assert forall|k: int| 0 <= k < doc.len() - i - 1 implies doc.subrange(
            i + 1,
            doc.len() as int,
        )[k] == (encode_str_body(s) + seq!['"'] + tail)[k] by {
            assert(doc[i + 1 + k] == whole[1 + k]);
        }
    }
    lemma_parse_encoded_body(doc, i + 1, s, tail);
}

/// Splitting a known suffix: when the document from `i` on reads `a` and
/// then `rest`, the document from `i + a.len()` on reads `rest`, and `a`'s
/// characters stand at `i`.
pub proof fn lemma_suffix_shift(doc: Seq<char>, i: int, a: Seq<char>, rest: Seq<char>)
    requires
        0 <= i <= doc.len(),
        doc.subrange(i, doc.len() as int) == a + rest,
    ensures
        i + a.len() <= doc.len(),
        doc.subrange(i + a.len(), doc.len() as int) == rest,
        forall|k: int| 0 <= k < a.len() ==> doc[i + k] == a[k],
        forall|k: int| 0 <= k < rest.len() ==> doc[i + a.len() + k] == rest[k],
{
    let sub = doc.subrange(i, doc.len() as int);
    assert(sub.len() == doc.len() - i);
    assert(sub.len() == (a + rest).len());
    assert forall|k: int| 0 <= k < a.len() implies doc[i + k] == a[k] by {
        assert(sub[k] == doc[i + k]);
        assert(sub[k] == (a + rest)[k]);
    }
    assert forall|k: int| 0 <= k < rest.len() implies doc[i + a.len() + k] == rest[k] by {
        assert(sub[a.len() + k] == doc[i + a.len() + k]);
        assert(sub[a.len() + k] == (a + rest)[a.len() + k]);
    }
    assert(doc.subrange(i + a.len(), doc.len() as int) =~= rest);
}

/// The characters of the literal `null`.
pub open spec fn null_chars() -> Seq<char> {
    seq!['n', 'u', 'l', 'l']
}

/// The characters of the literal `true`.
pub open spec fn true_chars() -> Seq<char> {
    seq!['t', 'r', 'u', 'e']
}

/// The characters of the literal `false`.
pub open spec fn false_chars() -> Seq<char> {
    seq!['f', 'a', 'l', 's', 'e']
}

/// The literal `lit` stands in `s` at position `i`.
pub open spec fn spec_match_lit(s: Seq<char>, i: int, lit: Seq<char>) -> bool {
    0 <= i && i + lit.len() <= s.len() && s.subrange(i, i + lit.len()) == lit
}

/// The characters that may make up a JSON number. The skipper takes any
/// run of them; it is not asked to check the number's shape.
pub open spec fn is_number_char(c: char) -> bool {
    ('0' <= c && c <= '9') || c == '-' || c == '+' || c == '.' || c == 'e' || c == 'E'
}

/// First position at or after `i` that does not hold a number character.
pub open spec fn spec_scan_number(s: Seq<char>, i: int) -> int
    decreases s.len() - i when 0 <= i <= s.len()
{
    if i < s.len() && is_number_char(s[i]) {
        spec_scan_number(s, i + 1)
    } else {
        i
    }
}

pub proof fn lemma_scan_number_bounds(s: Seq<char>, i: int)
    requires
        0 <= i <= s.len(),
    ensures
        i <= spec_scan_number(s, i) <= s.len(),
    decreases s.len() - i,
{
    if i < s.len() && is_number_char(s[i]) {
        lemma_scan_number_bounds(s, i + 1);
    }
}

/// Position after the number that starts at `i`, if one does.
pub open spec fn spec_skip_number(s: Seq<char>, i: int) -> Option<int> {
    if 0 <= i <= s.len() {
        let e = spec_scan_number(s, i);
        if e > i {
            Some(e)
        } else {
            None
        }
    } else {
        None
    }
}

/// Position after the value that starts at `i`, if a well-formed value
/// does. The engine does not interpret such values; it only needs to step
/// over them.
pub open spec fn spec_skip_value(s: Seq<char>, i: int) -> Option<int>
    decreases s.len() - i, 0int when 0 <= i <= s.len()
{
    if i >= s.len() {
        None
    } else if s[i] == '"' {
        match spec_parse_string(s, i) {
            None => None,
            Some((_, e)) => Some(e),
        }
    } else if s[i] == '{' {
        let j = spec_skip_ws(s, i + 1);
        if !(i + 1 <= j <= s.len()) {
            None
        } else if j < s.len() && s[j] == '}' {
            Some(j + 1)
        } else {
            spec_skip_members(s, j)
        }
    } else if s[i] == '[' {
        let j = spec_skip_ws(s, i + 1);
        if !(i + 1 <= j <= s.len()) {
            None
        } else if j < s.len() && s[j] == ']' {
            Some(j + 1)
        } else {
            spec_skip_elements(s, j)
        }
    } else if s[i] == 't' {
        if spec_match_lit(s, i, true_chars()) {
            Some(i + 4)
        } else {
            None
        }
    } else if s[i] == 'f' {
        if spec_match_lit(s, i, false_chars()) {
            Some(i + 5)
        } else {
            None
        }
    } else if s[i] == 'n' {
        if spec_match_lit(s, i, null_chars()) {
            Some(i + 4)
        } else {
            None
        }
    } else if is_number_char(s[i]) {
        spec_skip_number(s, i)
    } else {
        None
    }
}

/// Position after the member list (and the closing brace) that starts at
/// `i`, where `i` points at the first member's opening quote.
pub open spec fn spec_skip_members(s: Seq<char>, i: int) -> Option<int>
    decreases s.len() - i, 2int when 0 <= i <= s.len()
{
    match spec_parse_string(s, i) {
        None => None,
        Some((_, e)) => if !(i < e <= s.len()) {
            None
        } else {
            let j = spec_skip_ws(s, e);
            if !(e <= j <= s.len()) {
                None
            } else if j < s.len() && s[j] == ':' {
                let k = spec_skip_ws(s, j + 1);
                if !(j + 1 <= k <= s.len()) {
                    None
                } else {
                    match spec_skip_value(s, k) {
                        None => None,
                        Some(ve) => if !(k <= ve <= s.len()) {
                            None
                        } else {
                            let m = spec_skip_ws(s, ve);
                            if !(ve <= m <= s.len()) {
                                None
                            } else if m < s.len() && s[m] == ',' {
                                let n = spec_skip_ws(s, m + 1);
                                if !(m + 1 <= n <= s.len()) {
                                    None
                                } else {
                                    spec_skip_members(s, n)
                                }
                            } else if m < s.len() && s[m] == '}' {
                                Some(m + 1)
                            } else {
                                None
                            }
                        },
                    }
                }
            } else {
                None
            }
        },
    }
}

/// The text of one whole well-formed value and nothing more: the skipper
/// consumes it exactly.
pub open spec fn spec_valid_value(raw: Seq<char>) -> bool {
    spec_skip_value(raw, 0) == Some(raw.len() as int)
}

/// The characters of `orig[i..j)` stand in `doc` from `p` on.
pub open spec fn range_copied(orig: Seq<char>, i: int, j: int, doc: Seq<char>, p: int) -> bool {
    &&& 0 <= i <= j <= orig.len()
    &&& 0 <= p
    &&& p + (j - i) <= doc.len()
    &&& forall|k: int| 0 <= k < j - i ==> #[trigger] doc[p + k] == orig[i + k]
}

/// Skipping whitespace lands at the same distance in a copy of the run and
/// its terminating non-whitespace character.
proof fn lemma_skip_ws_local(orig: Seq<char>, i: int, j: int, doc: Seq<char>, p: int)
    requires
        0 <= i <= j,
        spec_skip_ws(orig, i) == j,
        j < orig.len(),
        !is_ws(orig[j]),
        range_copied(orig, i, j + 1, doc, p),
    ensures
        spec_skip_ws(doc, p) == p + (j - i),
    decreases j - i,
{
    if i < j {
        assert(doc[p + 0] == orig[i]);
        assert forall|k: int| 0 <= k < j - i implies #[trigger] doc[p + 1 + k] == orig[i + 1
            + k] by {
            assert(doc[p + (k + 1)] == orig[i + (k + 1)]);
        }
        lemma_skip_ws_local(orig, i + 1, j, doc, p + 1);
    } else {
        assert(doc[p + 0] == orig[j]);
    }
}

/// Decoding one escape gives the same character at the same distance in a
/// copy of its characters.
proof fn lemma_parse_escape_local(
    orig: Seq<char>,
    i: int,
    c: char,
    e: int,
    doc: Seq<char>,
    p: int,
)
    requires
        0 <= i,
        spec_parse_escape(orig, i) == Some((c, e)),
        e <= orig.len(),
        range_copied(orig, i, e, doc, p),
    ensures
        spec_parse_escape(doc, p) == Some((c, p + (e - i))),
{
    assert(doc[p + 0] == orig[i]);
    if orig[i] == 'u' {
        assert(doc[p + 1] == orig[i + 1]);
        assert(doc[p + 2] == orig[i + 2]);
        assert(doc[p + 3] == orig[i + 3]);
        assert(doc[p + 4] == orig[i + 4]);
    }
}

/// A decoded string body ends past where it began and inside the text.
proof fn lemma_parse_str_body_bounds(s: Seq<char>, i: int)
    requires
        0 <= i <= s.len(),
        spec_parse_str_body(s, i) is Some,
    ensures
        i < (spec_parse_str_body(s, i)->0).1 <= s.len(),
    decreases s.len() - i,
{
    if s[i] == '"' {
    } else if s[i] == '\\' {
        let (c, j) = spec_parse_escape(s, i + 1)->0;
        lemma_parse_str_body_bounds(s, j);
    } else {
        lemma_parse_str_body_bounds(s, i + 1);
    }
}

/// Decoding a string body gives the same text at the same distance in a
/// copy of its characters.
proof fn lemma_parse_str_body_local(
    orig: Seq<char>,
    i: int,
    v: Seq<char>,
    e: int,
    doc: Seq<char>,
    p: int,
)
    requires
        0 <= i <= orig.len(),
        spec_parse_str_body(orig, i) == Some((v, e)),
        i < e <= orig.len(),
        range_copied(orig, i, e, doc, p),
    ensures
        spec_parse_str_body(doc, p) == Some((v, p + (e - i))),
    decreases e - i,
{
    assert(doc[p + 0] == orig[i]);
    if orig[i] == '"' {
        assert(e == i + 1);
    } else if orig[i] == '\\' {
        let (c, j) = spec_parse_escape(orig, i + 1)->0;
        let (rest, e2) = spec_parse_str_body(orig, j)->0;
        assert(e2 == e);
        assert(j <= orig.len());
        lemma_parse_str_body_bounds(orig, j);
        assert(j < e);
        assert forall|k: int| 0 <= k < j - (i + 1) implies #[trigger] doc[p + 1 + k] == orig[i + 1
            + k] by {
            assert(doc[p + (k + 1)] == orig[i + (k + 1)]);
        }
        lemma_parse_escape_local(orig, i + 1, c, j, doc, p + 1);
        assert forall|k: int| 0 <= k < e - j implies #[trigger] doc[p + (j - i) + k] == orig[j + k] by {
            assert(doc[p + ((j - i) + k)] == orig[i + ((j - i) + k)]);
        }
        lemma_parse_str_body_local(orig, j, rest, e, doc, p + (j - i));
        assert(spec_parse_escape(doc, p + 1) == Some((c, p + (j - i))));
    } else {
        let (rest, e2) = spec_parse_str_body(orig, i + 1)->0;
        assert(e2 == e);
        lemma_parse_str_body_bounds(orig, i + 1);
        assert(i + 1 < e);
        assert forall|k: int| 0 <= k < e - (i + 1) implies #[trigger] doc[p + 1 + k] == orig[i + 1
            + k] by {
            assert(doc[p + (k + 1)] == orig[i + (k + 1)]);
        }
        lemma_parse_str_body_local(orig, i + 1, rest, e, doc, p + 1);
    }
}

/// Decoding a whole string gives the same text at the same distance in a
/// copy of its characters.
proof fn lemma_parse_string_local(
    orig: Seq<char>,
    i: int,
    v: Seq<char>,
    e: int,
    doc: Seq<char>,
    p: int,
)
    requires
        0 <= i <= orig.len(),
        spec_parse_string(orig, i) == Some((v, e)),
        i < e <= orig.len(),
        range_copied(orig, i, e, doc, p),
    ensures
        spec_parse_string(doc, p) == Some((v, p + (e - i))),
{
    assert(doc[p + 0] == orig[i]);
    lemma_parse_str_body_bounds(orig, i + 1);
    assert(i + 1 < e);
    assert forall|k: int| 0 <= k < e - (i + 1) implies #[trigger] doc[p + 1 + k] == orig[i + 1
            + k] by {
            assert(doc[p + (k + 1)] == orig[i + (k + 1)]);
        }
    lemma_parse_str_body_local(orig, i + 1, v, e, doc, p + 1);
}

/// A literal stands at the same distance in a copy of its characters.
proof fn lemma_match_lit_local(
    orig: Seq<char>,
    i: int,
    lit: Seq<char>,
    doc: Seq<char>,
    p: int,
)
    requires
        spec_match_lit(orig, i, lit),
        range_copied(orig, i, i + lit.len(), doc, p),
    ensures
        spec_match_lit(doc, p, lit),
{
    assert(doc.subrange(p, p + lit.len()) =~= lit) by {
        assert forall|k: int| 0 <= k < lit.len() implies doc.subrange(p, p + lit.len())[k]
            == lit[k] by {
            assert(doc[p + k] == orig[i + k]);
            assert(orig.subrange(i, i + lit.len())[k] == orig[i + k]);
        }
    }
}

/// Scanning a number lands at the same distance in a copy of the run when
/// the copy's next character, if any, is no number character.
proof fn lemma_scan_number_local(orig: Seq<char>, i: int, e: int, doc: Seq<char>, p: int)
    requires
        0 <= i <= e,
        spec_scan_number(orig, i) == e,
        e <= orig.len(),
        range_copied(orig, i, e, doc, p),
        p + (e - i) == doc.len() || !is_number_char(doc[p + (e - i)]),
    ensures
        spec_scan_number(doc, p) == p + (e - i),
    decreases e - i,
{
    if i < e {
        assert(doc[p + 0] == orig[i]);
        assert forall|k: int| 0 <= k < e - (i + 1) implies #[trigger] doc[p + 1 + k] == orig[i + 1
            + k] by {
            assert(doc[p + (k + 1)] == orig[i + (k + 1)]);
        }
        lemma_scan_number_local(orig, i + 1, e, doc, p + 1);
    }
}

/// A part of a copied range is itself a copied range.
proof fn lemma_range_copied_sub(
    orig: Seq<char>,
    i: int,
    j: int,
    doc: Seq<char>,
    p: int,
    i2: int,
    j2: int,
)
    requires
        range_copied(orig, i, j, doc, p),
        i <= i2 <= j2 <= j,
    ensures
        range_copied(orig, i2, j2, doc, p + (i2 - i)),
{
    assert forall|k: int| 0 <= k < j2 - i2 implies #[trigger] doc[p + (i2 - i) + k] == orig[i2
        + k] by {
        assert(doc[p + ((i2 - i) + k)] == orig[i + ((i2 - i) + k)]);
    }
}

/// A value starts at a character the skipper knows, never at whitespace.
pub proof fn lemma_value_start_not_ws(s: Seq<char>, i: int)
    requires
        0 <= i <= s.len(),
        spec_skip_value(s, i) is Some,
    ensures
        i < s.len(),
        !is_ws(s[i]),
{
}

/// A skipped value ends past where it began and inside the text.
proof fn lemma_skip_value_bounds(s: Seq<char>, i: int)
    requires
        0 <= i <= s.len(),
        spec_skip_value(s, i) is Some,
    ensures
        i < spec_skip_value(s, i)->0 <= s.len(),
    decreases s.len() - i, 0int,
{
    let c = s[i];
    if c == '"' {
        let (v, e) = spec_parse_string(s, i)->0;
        lemma_parse_str_body_bounds(s, i + 1);
    } else if c == '{' {
        let j = spec_skip_ws(s, i + 1);
        if j < s.len() && s[j] == '}' {
        } else {
            lemma_skip_members_bounds(s, j);
        }
    } else if c == '[' {
        let j = spec_skip_ws(s, i + 1);
        if j < s.len() && s[j] == ']' {
        } else {
            lemma_skip_elements_bounds(s, j);
        }
    } else if c == 't' || c == 'f' || c == 'n' {
    } else {
        lemma_scan_number_bounds(s, i);
    }
}

/// A skipped member list ends past where it began and inside the text.
proof fn lemma_skip_members_bounds(s: Seq<char>, i: int)
    requires
        0 <= i <= s.len(),
        spec_skip_members(s, i) is Some,
    ensures
        i < spec_skip_members(s, i)->0 <= s.len(),
    decreases s.len() - i, 2int,
{
    let (key, e1) = spec_parse_string(s, i)->0;
    let j = spec_skip_ws(s, e1);
    let k = spec_skip_ws(s, j + 1);
    let ve = spec_skip_value(s, k)->0;
    lemma_skip_value_bounds(s, k);
    let m = spec_skip_ws(s, ve);
    if m < s.len() && s[m] == ',' {
        let n = spec_skip_ws(s, m + 1);
        lemma_skip_members_bounds(s, n);
    }
}

/// A skipped element list ends past where it began and inside the text.
proof fn lemma_skip_elements_bounds(s: Seq<char>, i: int)
    requires
        0 <= i <= s.len(),
        spec_skip_elements(s, i) is Some,
    ensures
        i < spec_skip_elements(s, i)->0 <= s.len(),
    decreases s.len() - i, 1int,
{
    let ve = spec_skip_value(s, i)->0;
    lemma_skip_value_bounds(s, i);
    let m = spec_skip_ws(s, ve);
    if m < s.len() && s[m] == ',' {
        let n = spec_skip_ws(s, m + 1);
        lemma_skip_elements_bounds(s, n);
    }
}

/// Skipping a value lands at the same distance in a copy of its
/// characters, when the copy's next character, if any, is no number
/// character.
pub proof fn lemma_skip_value_local(orig: Seq<char>, i: int, e: int, doc: Seq<char>, p: int)
    requires
        0 <= i <= orig.len(),
        spec_skip_value(orig, i) == Some(e),
        e <= orig.len(),
        range_copied(orig, i, e, doc, p),
        p + (e - i) == doc.len() || !is_number_char(doc[p + (e - i)]),
    ensures
        spec_skip_value(doc, p) == Some(p + (e - i)),
    decreases orig.len() - i, 0int,
{
    lemma_skip_value_bounds(orig, i);
    assert(doc[p + 0] == orig[i]);
    let c = orig[i];
    if c == '"' {
        let (v, e2) = spec_parse_string(orig, i)->0;
        lemma_parse_string_local(orig, i, v, e, doc, p);
    } else if c == '{' || c == '[' {
        let close = if c == '{' { '}' } else { ']' };
        let j = spec_skip_ws(orig, i + 1);
        lemma_skip_ws_bounds(orig, i + 1);
        if j < orig.len() && orig[j] == close {
            assert(e == j + 1);
            lemma_range_copied_sub(orig, i, e, doc, p, i + 1, j + 1);
            lemma_skip_ws_local(orig, i + 1, j, doc, p + 1);
            assert(doc[p + (j - i) + 0] == orig[j]) by {
                assert(doc[p + (j - i)] == orig[i + (j - i)]);
            }
        } else {
            let inner = if c == '{' {
                spec_skip_members(orig, j)
            } else {
                spec_skip_elements(orig, j)
            };
            assert(inner == Some(e));
            if c == '{' {
                lemma_skip_members_bounds(orig, j);
            } else {
                lemma_skip_elements_bounds(orig, j);
            }
            assert(j < e);
            // The first member's key or element starts with a non-blank
            // character, so the whitespace run ends inside the copy.
            assert(j < orig.len() && !is_ws(orig[j])) by {
                if c == '{' {
                    let (key, e1) = spec_parse_string(orig, j)->0;
                } else {
                    lemma_value_start_not_ws(orig, j);
                }
            }
            lemma_range_copied_sub(orig, i, e, doc, p, i + 1, j + 1);
            lemma_skip_ws_local(orig, i + 1, j, doc, p + 1);
            lemma_range_copied_sub(orig, i, e, doc, p, j, e);
            if c == '{' {
                lemma_skip_members_local(orig, j, e, doc, p + (j - i));
            } else {
                lemma_skip_elements_local(orig, j, e, doc, p + (j - i));
            }
        }
    } else if c == 't' {
        lemma_range_copied_sub(orig, i, e, doc, p, i, i + 4);
        lemma_match_lit_local(orig, i, true_chars(), doc, p);
    } else if c == 'f' {
        lemma_range_copied_sub(orig, i, e, doc, p, i, i + 5);
        lemma_match_lit_local(orig, i, false_chars(), doc, p);
    } else if c == 'n' {
        lemma_range_copied_sub(orig, i, e, doc, p, i, i + 4);
        lemma_match_lit_local(orig, i, null_chars(), doc, p);
    } else {
        lemma_scan_number_bounds(orig, i);
        lemma_scan_number_local(orig, i, e, doc, p);
    }
}

/// Skipping a member list lands at the same distance in a copy of its
/// characters.
proof fn lemma_skip_members_local(orig: Seq<char>, i: int, e: int, doc: Seq<char>, p: int)
    requires
        0 <= i <= orig.len(),
        spec_skip_members(orig, i) == Some(e),
        e <= orig.len(),
        range_copied(orig, i, e, doc, p),
    ensures
        spec_skip_members(doc, p) == Some(p + (e - i)),
    decreases orig.len() - i, 2int,
{
    let (key, e1) = spec_parse_string(orig, i)->0;
    let j = spec_skip_ws(orig, e1);
    let k = spec_skip_ws(orig, j + 1);
    assert(spec_skip_value(orig, k) is Some);
    let ve = spec_skip_value(orig, k)->0;
    lemma_skip_value_bounds(orig, k);
    let m = spec_skip_ws(orig, ve);
    assert(m < orig.len() && (orig[m] == ',' || orig[m] == '}'));
    assert(m < e) by {
        if orig[m] == ',' {
            let n = spec_skip_ws(orig, m + 1);
            lemma_skip_ws_bounds(orig, m + 1);
            lemma_skip_members_bounds(orig, n);
        }
    }
    lemma_range_copied_sub(orig, i, e, doc, p, i, e1);
    lemma_parse_string_local(orig, i, key, e1, doc, p);
    lemma_range_copied_sub(orig, i, e, doc, p, e1, j + 1);
    lemma_skip_ws_local(orig, e1, j, doc, p + (e1 - i));
    assert(doc[p + (j - i)] == orig[i + (j - i)]);
    lemma_value_start_not_ws(orig, k);
    lemma_range_copied_sub(orig, i, e, doc, p, j + 1, k + 1);
    lemma_skip_ws_local(orig, j + 1, k, doc, p + (j + 1 - i));
    // The value's copy is followed by the separator or the whitespace
    // before it, never by a number character.
    assert(!is_number_char(orig[ve])) by {
        if ve < m {
            assert(is_ws(orig[ve]));
        }
    }
    assert(doc[p + (ve - i)] == orig[i + (ve - i)]);
    lemma_range_copied_sub(orig, i, e, doc, p, k, ve);
    lemma_skip_value_local(orig, k, ve, doc, p + (k - i));
    lemma_range_copied_sub(orig, i, e, doc, p, ve, m + 1);
    lemma_skip_ws_local(orig, ve, m, doc, p + (ve - i));
    assert(doc[p + (m - i)] == orig[i + (m - i)]);
    if orig[m] == ',' {
        let n = spec_skip_ws(orig, m + 1);
        lemma_skip_ws_bounds(orig, m + 1);
        assert(spec_parse_string(orig, n) is Some);
        assert(n < orig.len() && orig[n] == '"');
        lemma_skip_members_bounds(orig, n);
        lemma_range_copied_sub(orig, i, e, doc, p, m + 1, n + 1);
        lemma_skip_ws_local(orig, m + 1, n, doc, p + (m + 1 - i));
        lemma_range_copied_sub(orig, i, e, doc, p, n, e);
        lemma_skip_members_local(orig, n, e, doc, p + (n - i));
    } else {
        assert(e == m + 1);
    }
}

/// Skipping an element list lands at the same distance in a copy of its
/// characters.
proof fn lemma_skip_elements_local(orig: Seq<char>, i: int, e: int, doc: Seq<char>, p: int)
    requires
        0 <= i <= orig.len(),
        spec_skip_elements(orig, i) == Some(e),
        e <= orig.len(),
        range_copied(orig, i, e, doc, p),
    ensures
        spec_skip_elements(doc, p) == Some(p + (e - i)),
    decreases orig.len() - i, 1int,
{
    assert(spec_skip_value(orig, i) is Some);
    let ve = spec_skip_value(orig, i)->0;
    lemma_skip_value_bounds(orig, i);
    let m = spec_skip_ws(orig, ve);
    assert(m < orig.len() && (orig[m] == ',' || orig[m] == ']'));
    assert(m < e) by {
        if orig[m] == ',' {
            let n = spec_skip_ws(orig, m + 1);
            lemma_skip_ws_bounds(orig, m + 1);
            lemma_skip_elements_bounds(orig, n);
        }
    }
    assert(!is_number_char(orig[ve])) by {
        if ve < m {
            assert(is_ws(orig[ve]));
        }
    }
    assert(doc[p + (ve - i)] == orig[i + (ve - i)]);
    lemma_range_copied_sub(orig, i, e, doc, p, i, ve);
    lemma_skip_value_local(orig, i, ve, doc, p);
    lemma_range_copied_sub(orig, i, e, doc, p, ve, m + 1);
    lemma_skip_ws_local(orig, ve, m, doc, p + (ve - i));
    assert(doc[p + (m - i)] == orig[i + (m - i)]);
    if orig[m] == ',' {
        let n = spec_skip_ws(orig, m + 1);
        lemma_skip_ws_bounds(orig, m + 1);
        assert(spec_skip_value(orig, n) is Some);
        lemma_value_start_not_ws(orig, n);
        lemma_skip_elements_bounds(orig, n);
        lemma_range_copied_sub(orig, i, e, doc, p, m + 1, n + 1);
        lemma_skip_ws_local(orig, m + 1, n, doc, p + (m + 1 - i));
        lemma_range_copied_sub(orig, i, e, doc, p, n, e);
        lemma_skip_elements_local(orig, n, e, doc, p + (n - i));
    } else {
        assert(e == m + 1);
    }
}

/// Relies on String::push: appends exactly one character to the string.
#[verifier::external_body]
pub(crate) fn push_char(s: &mut String, c: char)
    ensures
        final(s)@ == old(s)@.push(c),
{
    s.push(c);
}

/// The characters of a string slice, one vector entry per character.
pub fn chars_of(s: &str) -> (r: Vec<char>)
    ensures
        r@ == s@,
{
    let n = s.unicode_len();
    let mut v: Vec<char> = Vec::new();
    let mut i: usize = 0;
    while i < n
        invariant
            i <= n,
            n == s@.len(),
            v@ == s@.subrange(0, i as int),
        decreases n - i,
    {
        v.push(s.get_char(i));
        assert(v@ =~= s@.subrange(0, i as int + 1));
        i += 1;
    }
    assert(v@ =~= s@);
    v
}

/// The characters `s[i..j]` gathered into a string.
pub fn string_of_range(s: &Vec<char>, i: usize, j: usize) -> (r: String)
    requires
        i <= j <= s@.len(),
    ensures
        r@ == s@.subrange(i as int, j as int),
{
    let mut out = String::new();
    let mut k = i;
    while k < j
        invariant
            i <= k <= j <= s@.len(),
            out@ == s@.subrange(i as int, k as int),
        decreases j - k,
    {
        push_char(&mut out, s[k]);
        assert(out@ =~= s@.subrange(i as int, k as int + 1));
        k += 1;
    }
    out
}

fn is_ws_char(c: char) -> (r: bool)
    ensures
        r == is_ws(c),
{
    c == ' ' || c == '\n' || c == '\r' || c == '\t'
}

fn hex_val_of(c: char) -> (r: Option<u32>)
    ensures
        r == hex_val(c),
        r matches Some(v) ==> v < 16,
{
    if c == '0' { Some(0u32) } else if c == '1' { Some(1u32) } else if c == '2' { Some(2u32) }
    else if c == '3' { Some(3u32) } else if c == '4' { Some(4u32) } else if c == '5' { Some(5u32) }
    else if c == '6' { Some(6u32) } else if c == '7' { Some(7u32) } else if c == '8' { Some(8u32) }
    else if c == '9' { Some(9u32) } else if c == 'a' || c == 'A' { Some(10u32) }
    else if c == 'b' || c == 'B' { Some(11u32) } else if c == 'c' || c == 'C' { Some(12u32) }
    else if c == 'd' || c == 'D' { Some(13u32) } else if c == 'e' || c == 'E' { Some(14u32) }
    else if c == 'f' || c == 'F' { Some(15u32) } else { None }
}

fn hex_digit_of(v: u32) -> (r: char)
    requires
        v < 16,
    ensures
        r == hex_digit(v),
{
    if v == 0 { '0' } else if v == 1 { '1' } else if v == 2 { '2' } else if v == 3 { '3' }
    else if v == 4 { '4' } else if v == 5 { '5' } else if v == 6 { '6' } else if v == 7 { '7' }
    else if v == 8 { '8' } else if v == 9 { '9' } else if v == 10 { 'a' } else if v == 11 { 'b' }
    else if v == 12 { 'c' } else if v == 13 { 'd' } else if v == 14 { 'e' } else { 'f' }
}

/// Steps over whitespace.
pub fn skip_ws(s: &Vec<char>, i: usize) -> (r: usize)
    requires
        i <= s@.len(),
    ensures
        r as int == spec_skip_ws(s@, i as int),
        i <= r <= s@.len(),
{
    let mut j = i;
    while j < s.len() && is_ws_char(s[j])
        invariant
            i <= j <= s@.len(),
            spec_skip_ws(s@, i as int) == spec_skip_ws(s@, j as int),
        decreases s@.len() - j,
    {
        j += 1;
    }
    j
}

/// Decodes one escape; `i` points at the character after the backslash.
fn parse_escape(s: &Vec<char>, i: usize) -> (r: Option<(char, usize)>)
    requires
        i <= s@.len(),
    ensures
        r matches Some(p) ==> spec_parse_escape(s@, i as int) == Some((p.0, p.1 as int)) && i < p.1
            <= s@.len(),
        r is None ==> spec_parse_escape(s@, i as int) is None,
{
    if i >= s.len() {
        return None;
    }
    let c = s[i];
    if c == '"' {
        Some(('"', i + 1))
    } else if c == '\\' {
        Some(('\\', i + 1))
    } else if c == '/' {
        Some(('/', i + 1))
    } else if c == 'b' {
        Some(('\u{0008}', i + 1))
    } else if c == 'f' {
        Some(('\u{000C}', i + 1))
    } else if c == 'n' {
        Some(('\n', i + 1))
    } else if c == 'r' {
        Some(('\r', i + 1))
    } else if c == 't' {
        Some(('\t', i + 1))
    } else if c == 'u' {
        if s.len() - i >= 5 && s[i + 1] == '0' && s[i + 2] == '0' {
            let h3 = hex_val_of(s[i + 3]);
            let h4 = hex_val_of(s[i + 4]);
            match (h3, h4) {
                (Some(hi), Some(lo)) => {
                    let v = hi * 16 + lo;
                    Some((((v as u8)) as char, i + 5))
                },
                _ => None,
            }
        } else {
            None
        }
    } else {
        None
    }
}

/// Decodes a whole JSON string whose opening quote stands at `i`, returning
/// the decoded text and the position after the closing quote.
pub fn parse_string(s: &Vec<char>, i: usize) -> (r: Option<(String, usize)>)
    requires
        i <= s@.len(),
    ensures
        r matches Some(p) ==> spec_parse_string(s@, i as int) == Some((p.0@, p.1 as int)) && i
            < p.1 <= s@.len(),
        r is None ==> spec_parse_string(s@, i as int) is None,
{
    if i >= s.len() || s[i] != '"' {
        return None;
    }
    let mut j = i + 1;
    let mut acc = String::new();
    proof {
        if let Some((r2, e)) = spec_parse_str_body(s@, i as int + 1) {
            assert(acc@ + r2 =~= r2);
        }
    }
    loop
        invariant
            i + 1 <= j <= s@.len(),
            i < s@.len(),
            s@[i as int] == '"',
            spec_parse_str_body(s@, i as int + 1) == (match spec_parse_str_body(s@, j as int) {
                Some((r2, e)) => Some((acc@ + r2, e)),
                None => None::<(Seq<char>, int)>,
            }),
        decreases s@.len() - j,
    {
        if j >= s.len() {
            return None;
        }
        let c = s[j];
        if c == '"' {
            assert(acc@ + Seq::<char>::empty() =~= acc@);
            return Some((acc, j + 1));
        } else if c == '\\' {
            match parse_escape(s, j + 1) {
                None => {
                    return None;
                },
                Some((d, j2)) => {
                    let ghost pre = acc@;
                    push_char(&mut acc, d);
                    proof {
                        if let Some((r2, e)) = spec_parse_str_body(s@, j2 as int) {
                            assert(pre + (seq![d] + r2) =~= acc@ + r2);
                        }
                    }
                    j = j2;
                },
            }
        } else if (c as u32) < 32 {
            return None;
        } else {
            let ghost pre = acc@;
            push_char(&mut acc, c);
            proof {
                if let Some((r2, e)) = spec_parse_str_body(s@, j as int + 1) {
                    assert(pre + (seq![c] + r2) =~= acc@ + r2);
                }
            }
            j += 1;
        }
    }
}

/// Appends the encoded form of `v`, quotes included, to `out`.
pub fn append_encoded(out: &mut String, v: &str)
    ensures
        final(out)@ == old(out)@ + encode_string(v@),
{
    push_char(out, '"');
    let n = v.unicode_len();
    let mut k: usize = 0;
    while k < n
        invariant
            k <= n,
            n == v@.len(),
            out@ == old(out)@ + seq!['"'] + encode_str_body(v@.subrange(0, k as int)),
        decreases n - k,
    {
        let c = v.get_char(k);
        let ghost pre = v@.subrange(0, k as int);
        let ghost outpre = out@;
        if c == '"' {
            push_char(out, '\\');
            push_char(out, '"');
        } else if c == '\\' {
            push_char(out, '\\');
            push_char(out, '\\');
        } else if (c as u32) < 32 {
            push_char(out, '\\');
            push_char(out, 'u');
            push_char(out, '0');
            push_char(out, '0');
            let u = c as u32;
            push_char(out, hex_digit_of(u / 16));
            push_char(out, hex_digit_of(u % 16));
        } else {
            push_char(out, c);
        }
        proof {
            assert(out@ =~= outpre + escape_char(c));
            lemma_encode_body_snoc(pre, c);
            assert(pre + seq![c] =~= v@.subrange(0, k as int + 1));
            assert(out@ =~= old(out)@ + seq!['"'] + encode_str_body(v@.subrange(0, k as int + 1)));
        }
        k += 1;
    }
    assert(v@.subrange(0, n as int) =~= v@);
    push_char(out, '"');
    assert(out@ =~= old(out)@ + encode_string(v@));
}

fn match_true(s: &Vec<char>, i: usize) -> (r: bool)
    requires
        i <= s@.len(),
    ensures
        r == spec_match_lit(s@, i as int, true_chars()),
{
    if s.len() - i >= 4 && s[i] == 't' && s[i + 1] == 'r' && s[i + 2] == 'u' && s[i + 3] == 'e' {
        assert(s@.subrange(i as int, i as int + 4) =~= true_chars());
        true
    } else {
        proof {
            if spec_match_lit(s@, i as int, true_chars()) {
                let sub = s@.subrange(i as int, i as int + 4);
                assert(sub[0] == s@[i as int]);
                assert(sub[1] == s@[i as int + 1]);
                assert(sub[2] == s@[i as int + 2]);
                assert(sub[3] == s@[i as int + 3]);
            }
        }
        false
    }
}

fn match_false(s: &Vec<char>, i: usize) -> (r: bool)
    requires
        i <= s@.len(),
    ensures
        r == spec_match_lit(s@, i as int, false_chars()),
{
    if s.len() - i >= 5 && s[i] == 'f' && s[i + 1] == 'a' && s[i + 2] == 'l' && s[i + 3] == 's'
        && s[i + 4] == 'e' {
        assert(s@.subrange(i as int, i as int + 5) =~= false_chars());
        true
    } else {
        proof {
            if spec_match_lit(s@, i as int, false_chars()) {
                let sub = s@.subrange(i as int, i as int + 5);
                assert(sub[0] == s@[i as int]);
                assert(sub[1] == s@[i as int + 1]);
                assert(sub[2] == s@[i as int + 2]);
                assert(sub[3] == s@[i as int + 3]);
                assert(sub[4] == s@[i as int + 4]);
            }
        }
        false
    }
}

/// Tests for the literal `null` at position `i`.
pub fn match_null(s: &Vec<char>, i: usize) -> (r: bool)
    requires
        i <= s@.len(),
    ensures
        r == spec_match_lit(s@, i as int, null_chars()),
{
    if s.len() - i >= 4 && s[i] == 'n' && s[i + 1] == 'u' && s[i + 2] == 'l' && s[i + 3] == 'l' {
        assert(s@.subrange(i as int, i as int + 4) =~= null_chars());
        true
    } else {
        proof {
            if spec_match_lit(s@, i as int, null_chars()) {
                let sub = s@.subrange(i as int, i as int + 4);
                assert(sub[0] == s@[i as int]);
                assert(sub[1] == s@[i as int + 1]);
                assert(sub[2] == s@[i as int + 2]);
                assert(sub[3] == s@[i as int + 3]);
            }
        }
        false
    }
}

fn scan_number(s: &Vec<char>, i: usize) -> (r: usize)
    requires
        i <= s@.len(),
    ensures
        r as int == spec_scan_number(s@, i as int),
        i <= r <= s@.len(),
{
    let mut j = i;
    while j < s.len() && is_number_char_of(s[j])
        invariant
            i <= j <= s@.len(),
            spec_scan_number(s@, i as int) == spec_scan_number(s@, j as int),
        decreases s@.len() - j,
    {
        j += 1;
    }
    j
}

fn is_number_char_of(c: char) -> (r: bool)
    ensures
        r == is_number_char(c),
{
    ('0' <= c && c <= '9') || c == '-' || c == '+' || c == '.' || c == 'e' || c == 'E'
}

/// Steps over the value that starts at `i`, if a well-formed one does.
pub fn skip_value(s: &Vec<char>, i: usize) -> (r: Option<usize>)
    requires
        i <= s@.len(),
    ensures
        r matches Some(e) ==> spec_skip_value(s@, i as int) == Some(e as int) && i < e <= s@.len(),
        r is None ==> spec_skip_value(s@, i as int) is None,
    decreases s@.len() - i, 0int,
{
    if i >= s.len() {
        return None;
    }
    let c = s[i];
    if c == '"' {
        match parse_string(s, i) {
            Some((_, e)) => Some(e),
            None => None,
        }
    } else if c == '{' {
        let j = skip_ws(s, i + 1);
        if j < s.len() && s[j] == '}' {
            Some(j + 1)
        } else {
            skip_members(s, j)
        }
    } else if c == '[' {
        let j = skip_ws(s, i + 1);
        if j < s.len() && s[j] == ']' {
            Some(j + 1)
        } else {
            skip_elements(s, j)
        }
    } else if c == 't' {
        if match_true(s, i) {
            Some(i + 4)
        } else {
            None
        }
    } else if c == 'f' {
        if match_false(s, i) {
            Some(i + 5)
        } else {
            None
        }
    } else if c == 'n' {
        if match_null(s, i) {
            Some(i + 4)
        } else {
            None
        }
    } else if is_number_char_of(c) {
        let e = scan_number(s, i);
        if e > i {
            Some(e)
        } else {
            None
        }
    } else {
        None
    }
}

/// Steps over an object's members from the first member's key on, and over
/// the closing brace.
fn skip_members(s: &Vec<char>, i: usize) -> (r: Option<usize>)
    requires
        i <= s@.len(),
    ensures
        r matches Some(e) ==> spec_skip_members(s@, i as int) == Some(e as int) && i < e
            <= s@.len(),
        r is None ==> spec_skip_members(s@, i as int) is None,
    decreases s@.len() - i, 2int,
{
    match parse_string(s, i) {
        None => None,
        Some((_, e)) => {
            let j = skip_ws(s, e);
            if j < s.len() && s[j] == ':' {
                let k = skip_ws(s, j + 1);
                match skip_value(s, k) {
                    None => None,
                    Some(ve) => {
                        let m = skip_ws(s, ve);
                        if m < s.len() && s[m] == ',' {
                            let n = skip_ws(s, m + 1);
                            skip_members(s, n)
                        } else if m < s.len() && s[m] == '}' {
                            Some(m + 1)
                        } else {
                            None
                        }
                    },
                }
            } else {
                None
            }
        },
    }
}

/// Steps over an array's elements from the first element on, and over the
/// closing bracket.
fn skip_elements(s: &Vec<char>, i: usize) -> (r: Option<usize>)
    requires
        i <= s@.len(),
    ensures
        r matches Some(e) ==> spec_skip_elements(s@, i as int) == Some(e as int) && i < e
            <= s@.len(),
        r is None ==> spec_skip_elements(s@, i as int) is None,
    decreases s@.len() - i, 1int,
{
    match skip_value(s, i) {
        None => None,
        Some(ve) => {
            let m = skip_ws(s, ve);
            if m < s.len() && s[m] == ',' {
                let n = skip_ws(s, m + 1);
                skip_elements(s, n)
            } else if m < s.len() && s[m] == ']' {
                Some(m + 1)
            } else {
                None
            }
        },
    }
}

/// Position after the element list (and the closing bracket) that starts
/// at `i`, where `i` points at the first element's value.
pub open spec fn spec_skip_elements(s: Seq<char>, i: int) -> Option<int>
    decreases s.len() - i, 1int when 0 <= i <= s.len()
{
    match spec_skip_value(s, i) {
        None => None,
        Some(ve) => if !(i < ve <= s.len()) {
            None
        } else {
            let m = spec_skip_ws(s, ve);
            if !(ve <= m <= s.len()) {
                None
            } else if m < s.len() && s[m] == ',' {
                let n = spec_skip_ws(s, m + 1);
                if !(m + 1 <= n <= s.len()) {
                    None
                } else {
                    spec_skip_elements(s, n)
                }
            } else if m < s.len() && s[m] == ']' {
                Some(m + 1)
            } else {
                None
            }
        },
    }
}

} // verus!
