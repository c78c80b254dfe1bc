//! Which documents are handed to feed-rs. Its time parser (`parse_npt`,
//! reached from iTunes `duration` elements and Media RSS `start`, `end` and
//! `time` attributes) matches Unicode decimal digits, unwraps their parse as
//! `u64` (and of a fraction as `f32`), and multiplies and adds the parts, so
//! it panics unless every number it meets is made of ASCII digits and is
//! small enough. A document is admitted when that is certain: it is a JSON
//! feed or has no root at all, or it is XML read as UTF-8, windows-1252 or
//! ISO-8859-15 that either binds neither of those two namespaces or writes
//! no decimal digit outside ASCII (directly or as a character reference),
//! declares no document type, and has no text or attribute value that can
//! hold 16 ASCII digits in a row.
//! The scan follows the XML reader's own rules for where tags, comments,
//! CDATA sections and processing instructions end, and the parser's
//! gathering of one text from text, CDATA and references across comments
//! and processing instructions.

use vstd::prelude::*;

verus! {

/// The iTunes podcast namespace, as feed-rs recognises it.
pub open spec fn itunes_namespace() -> Seq<u8> {
    seq![104u8, 116u8, 116u8, 112u8, 58u8, 47u8, 47u8, 119u8, 119u8, 119u8, 46u8, 105u8, 116u8, 117u8, 110u8, 101u8, 115u8, 46u8, 99u8, 111u8, 109u8, 47u8, 100u8, 116u8, 100u8, 115u8, 47u8, 112u8, 111u8, 100u8, 99u8, 97u8, 115u8, 116u8, 45u8, 49u8, 46u8, 48u8, 46u8, 100u8, 116u8, 100u8]
}

/// The Media RSS namespace, as feed-rs recognises it.
pub open spec fn media_rss_namespace() -> Seq<u8> {
    seq![104u8, 116u8, 116u8, 112u8, 58u8, 47u8, 47u8, 115u8, 101u8, 97u8, 114u8, 99u8, 104u8, 46u8, 121u8, 97u8, 104u8, 111u8, 111u8, 46u8, 99u8, 111u8, 109u8, 47u8, 109u8, 114u8, 115u8, 115u8, 47u8]
}

pub open spec fn xml_decl_open() -> Seq<u8> {
    seq![60u8, 63u8, 120u8, 109u8, 108u8]
}

pub open spec fn encoding_word() -> Seq<u8> {
    seq![101u8, 110u8, 99u8, 111u8, 100u8, 105u8, 110u8, 103u8]
}

pub open spec fn cdata_open() -> Seq<u8> {
    seq![60u8, 33u8, 91u8, 67u8, 68u8, 65u8, 84u8, 65u8, 91u8]
}

/// A Unicode decimal digit (general category Nd, Unicode 16), which the
/// regular expression `\d` of feed-rs's time parser matches.
pub open spec fn is_decimal_digit_code(cp: int) -> bool {
    (0x30 <= cp && cp <= 0x39) || (0x660 <= cp && cp <= 0x669) || (0x6f0 <= cp && cp <= 0x6f9) || (0x7c0 <= cp && cp <= 0x7c9) || (0x966 <= cp && cp <= 0x96f) || (0x9e6 <= cp && cp <= 0x9ef) || (0xa66 <= cp && cp <= 0xa6f) || (0xae6 <= cp && cp <= 0xaef) || (0xb66 <= cp && cp <= 0xb6f) || (0xbe6 <= cp && cp <= 0xbef) || (0xc66 <= cp && cp <= 0xc6f) || (0xce6 <= cp && cp <= 0xcef) || (0xd66 <= cp && cp <= 0xd6f) || (0xde6 <= cp && cp <= 0xdef) || (0xe50 <= cp && cp <= 0xe59) || (0xed0 <= cp && cp <= 0xed9) || (0xf20 <= cp && cp <= 0xf29) || (0x1040 <= cp && cp <= 0x1049) || (0x1090 <= cp && cp <= 0x1099) || (0x17e0 <= cp && cp <= 0x17e9) || (0x1810 <= cp && cp <= 0x1819) || (0x1946 <= cp && cp <= 0x194f) || (0x19d0 <= cp && cp <= 0x19d9) || (0x1a80 <= cp && cp <= 0x1a89) || (0x1a90 <= cp && cp <= 0x1a99) || (0x1b50 <= cp && cp <= 0x1b59) || (0x1bb0 <= cp && cp <= 0x1bb9) || (0x1c40 <= cp && cp <= 0x1c49) || (0x1c50 <= cp && cp <= 0x1c59) || (0xa620 <= cp && cp <= 0xa629) || (0xa8d0 <= cp && cp <= 0xa8d9) || (0xa900 <= cp && cp <= 0xa909) || (0xa9d0 <= cp && cp <= 0xa9d9) || (0xa9f0 <= cp && cp <= 0xa9f9) || (0xaa50 <= cp && cp <= 0xaa59) || (0xabf0 <= cp && cp <= 0xabf9) || (0xff10 <= cp && cp <= 0xff19) || (0x104a0 <= cp && cp <= 0x104a9) || (0x10d30 <= cp && cp <= 0x10d39) || (0x10d40 <= cp && cp <= 0x10d49) || (0x11066 <= cp && cp <= 0x1106f) || (0x110f0 <= cp && cp <= 0x110f9) || (0x11136 <= cp && cp <= 0x1113f) || (0x111d0 <= cp && cp <= 0x111d9) || (0x112f0 <= cp && cp <= 0x112f9) || (0x11450 <= cp && cp <= 0x11459) || (0x114d0 <= cp && cp <= 0x114d9) || (0x11650 <= cp && cp <= 0x11659) || (0x116c0 <= cp && cp <= 0x116c9) || (0x116d0 <= cp && cp <= 0x116e3) || (0x11730 <= cp && cp <= 0x11739) || (0x118e0 <= cp && cp <= 0x118e9) || (0x11950 <= cp && cp <= 0x11959) || (0x11bf0 <= cp && cp <= 0x11bf9) || (0x11c50 <= cp && cp <= 0x11c59) || (0x11d50 <= cp && cp <= 0x11d59) || (0x11da0 <= cp && cp <= 0x11da9) || (0x11f50 <= cp && cp <= 0x11f59) || (0x16130 <= cp && cp <= 0x16139) || (0x16a60 <= cp && cp <= 0x16a69) || (0x16ac0 <= cp && cp <= 0x16ac9) || (0x16b50 <= cp && cp <= 0x16b59) || (0x16d70 <= cp && cp <= 0x16d79) || (0x1ccf0 <= cp && cp <= 0x1ccf9) || (0x1d7ce <= cp && cp <= 0x1d7ff) || (0x1e140 <= cp && cp <= 0x1e149) || (0x1e2f0 <= cp && cp <= 0x1e2f9) || (0x1e4f0 <= cp && cp <= 0x1e4f9) || (0x1e5f1 <= cp && cp <= 0x1e5fa) || (0x1e950 <= cp && cp <= 0x1e959) || (0x1fbf0 <= cp && cp <= 0x1fbf9)
}

fn decimal_digit_code(cp: u32) -> (r: bool)
    ensures
        r == is_decimal_digit_code(cp as int),
{
    (0x30 <= cp && cp <= 0x39) || (0x660 <= cp && cp <= 0x669) || (0x6f0 <= cp && cp <= 0x6f9) || (0x7c0 <= cp && cp <= 0x7c9) || (0x966 <= cp && cp <= 0x96f) || (0x9e6 <= cp && cp <= 0x9ef) || (0xa66 <= cp && cp <= 0xa6f) || (0xae6 <= cp && cp <= 0xaef) || (0xb66 <= cp && cp <= 0xb6f) || (0xbe6 <= cp && cp <= 0xbef) || (0xc66 <= cp && cp <= 0xc6f) || (0xce6 <= cp && cp <= 0xcef) || (0xd66 <= cp && cp <= 0xd6f) || (0xde6 <= cp && cp <= 0xdef) || (0xe50 <= cp && cp <= 0xe59) || (0xed0 <= cp && cp <= 0xed9) || (0xf20 <= cp && cp <= 0xf29) || (0x1040 <= cp && cp <= 0x1049) || (0x1090 <= cp && cp <= 0x1099) || (0x17e0 <= cp && cp <= 0x17e9) || (0x1810 <= cp && cp <= 0x1819) || (0x1946 <= cp && cp <= 0x194f) || (0x19d0 <= cp && cp <= 0x19d9) || (0x1a80 <= cp && cp <= 0x1a89) || (0x1a90 <= cp && cp <= 0x1a99) || (0x1b50 <= cp && cp <= 0x1b59) || (0x1bb0 <= cp && cp <= 0x1bb9) || (0x1c40 <= cp && cp <= 0x1c49) || (0x1c50 <= cp && cp <= 0x1c59) || (0xa620 <= cp && cp <= 0xa629) || (0xa8d0 <= cp && cp <= 0xa8d9) || (0xa900 <= cp && cp <= 0xa909) || (0xa9d0 <= cp && cp <= 0xa9d9) || (0xa9f0 <= cp && cp <= 0xa9f9) || (0xaa50 <= cp && cp <= 0xaa59) || (0xabf0 <= cp && cp <= 0xabf9) || (0xff10 <= cp && cp <= 0xff19) || (0x104a0 <= cp && cp <= 0x104a9) || (0x10d30 <= cp && cp <= 0x10d39) || (0x10d40 <= cp && cp <= 0x10d49) || (0x11066 <= cp && cp <= 0x1106f) || (0x110f0 <= cp && cp <= 0x110f9) || (0x11136 <= cp && cp <= 0x1113f) || (0x111d0 <= cp && cp <= 0x111d9) || (0x112f0 <= cp && cp <= 0x112f9) || (0x11450 <= cp && cp <= 0x11459) || (0x114d0 <= cp && cp <= 0x114d9) || (0x11650 <= cp && cp <= 0x11659) || (0x116c0 <= cp && cp <= 0x116c9) || (0x116d0 <= cp && cp <= 0x116e3) || (0x11730 <= cp && cp <= 0x11739) || (0x118e0 <= cp && cp <= 0x118e9) || (0x11950 <= cp && cp <= 0x11959) || (0x11bf0 <= cp && cp <= 0x11bf9) || (0x11c50 <= cp && cp <= 0x11c59) || (0x11d50 <= cp && cp <= 0x11d59) || (0x11da0 <= cp && cp <= 0x11da9) || (0x11f50 <= cp && cp <= 0x11f59) || (0x16130 <= cp && cp <= 0x16139) || (0x16a60 <= cp && cp <= 0x16a69) || (0x16ac0 <= cp && cp <= 0x16ac9) || (0x16b50 <= cp && cp <= 0x16b59) || (0x16d70 <= cp && cp <= 0x16d79) || (0x1ccf0 <= cp && cp <= 0x1ccf9) || (0x1d7ce <= cp && cp <= 0x1d7ff) || (0x1e140 <= cp && cp <= 0x1e149) || (0x1e2f0 <= cp && cp <= 0x1e2f9) || (0x1e4f0 <= cp && cp <= 0x1e4f9) || (0x1e5f1 <= cp && cp <= 0x1e5fa) || (0x1e950 <= cp && cp <= 0x1e959) || (0x1fbf0 <= cp && cp <= 0x1fbf9)
}

/// `b[i] == c`, with `i` in range.
pub open spec fn byte_is(b: Seq<u8>, i: int, c: u8) -> bool {
    0 <= i < b.len() && b[i] == c
}

/// `pat` occurs in `b` at `i`.
pub open spec fn bytes_at(b: Seq<u8>, i: int, pat: Seq<u8>) -> bool {
    0 <= i && i + pat.len() <= b.len() && b.subrange(i, i + pat.len()) == pat
}

/// `pat` occurs somewhere in `b`.
pub open spec fn contains_bytes(b: Seq<u8>, pat: Seq<u8>) -> bool {
    exists|i: int| bytes_at(b, i, pat)
}

/// The first `<` or `{` of `b` from `i` on: feed-rs reads a document that
/// starts with `{` as JSON and one that starts with `<` as XML.
pub open spec fn first_root_from(b: Seq<u8>, i: int) -> Option<u8>
    decreases b.len() - i,
{
    if i < 0 || i >= b.len() {
        None
    } else if b[i] == 0x3c || b[i] == 0x7b {
        Some(b[i])
    } else {
        first_root_from(b, i + 1)
    }
}

/// The document does not open in a way that makes the XML reader decode it
/// as UTF-16 (a UTF-16 byte order mark, or `<?` in UTF-16).
pub open spec fn no_utf16_start(b: Seq<u8>) -> bool {
    &&& !(byte_is(b, 0, 0xfe) && byte_is(b, 1, 0xff))
    &&& !(byte_is(b, 0, 0xff) && byte_is(b, 1, 0xfe))
    &&& !(byte_is(b, 0, 0x00) && byte_is(b, 1, 0x3c))
    &&& !(byte_is(b, 0, 0x3c) && byte_is(b, 1, 0x00))
}

pub open spec fn is_xml_space(c: u8) -> bool {
    c == 0x20 || c == 0x09 || c == 0x0d || c == 0x0a
}

/// The first position from `k` on that is not XML white space.
pub open spec fn skip_space(b: Seq<u8>, k: int) -> int
    decreases b.len() - k,
{
    if 0 <= k < b.len() && is_xml_space(b[k]) {
        skip_space(b, k + 1)
    } else {
        k
    }
}

pub open spec fn lower(c: u8) -> u8 {
    if 0x41 <= c <= 0x5a {
        (c + 0x20) as u8
    } else {
        c
    }
}

/// The lower-case bytes from `k` on spell `lab`.
pub open spec fn label_matches(b: Seq<u8>, k: int, lab: Seq<u8>) -> bool {
    0 <= k && k + lab.len() <= b.len() && b.subrange(k, k + lab.len()).map_values(|c: u8| lower(c))
        == lab
}

/// At `q` a quote, then `lab` (in any case of its letters), then the same
/// quote.
pub open spec fn quoted_label(b: Seq<u8>, q: int, lab: Seq<u8>) -> bool {
    &&& 0 <= q < b.len()
    &&& (b[q] == 0x22 || b[q] == 0x27)
    &&& label_matches(b, q + 1, lab)
    &&& byte_is(b, q + 1 + lab.len(), b[q])
}

/// The encoding labels accepted in a declaration: those that encoding_rs
/// maps to UTF-8, windows-1252 or ISO-8859-15. In these every byte below
/// 0x80 is the ASCII character it codes, and no other character they can
/// decode to is a decimal digit outside ASCII except through UTF-8, which
/// the scan for wide digits reads.
pub open spec fn accepted_labels() -> Seq<Seq<u8>> {
    seq![seq![117u8, 116u8, 102u8, 45u8, 56u8], seq![117u8, 116u8, 102u8, 56u8], seq![105u8, 115u8, 111u8, 45u8, 56u8, 56u8, 53u8, 57u8, 45u8, 49u8], seq![105u8, 115u8, 111u8, 45u8, 56u8, 56u8, 53u8, 57u8, 45u8, 49u8, 53u8], seq![119u8, 105u8, 110u8, 100u8, 111u8, 119u8, 115u8, 45u8, 49u8, 50u8, 53u8, 50u8], seq![117u8, 115u8, 45u8, 97u8, 115u8, 99u8, 105u8, 105u8], seq![108u8, 97u8, 116u8, 105u8, 110u8, 49u8]]
}

/// After the word `encoding` at `k`: `=` (with white space around it) and a
/// quoted accepted label.
pub open spec fn accepted_label_at(b: Seq<u8>, k: int) -> bool {
    let e = skip_space(b, k);
    let q = skip_space(b, e + 1);
    &&& byte_is(b, e, 0x3d)
    &&& exists|n: int| 0 <= n < accepted_labels().len() && quoted_label(b, q, #[trigger] accepted_labels()[n])
}

/// From `j` to the end of the declaration (the first `>` after `?`), every
/// `encoding` names an accepted label.
pub open spec fn decl_ok_from(b: Seq<u8>, j: int) -> bool
    decreases b.len() - j,
{
    if j < 1 || j >= b.len() {
        true
    } else if b[j] == 0x3e && b[j - 1] == 0x3f {
        true
    } else {
        (bytes_at(b, j, encoding_word()) ==> accepted_label_at(b, j + 8)) && decl_ok_from(b, j + 1)
    }
}

/// Every `<?xml` from `i` on declares no encoding or an accepted one, so the
/// XML reader decodes with UTF-8, windows-1252 or ISO-8859-15.
pub open spec fn decls_ok_from(b: Seq<u8>, i: int) -> bool
    decreases b.len() - i,
{
    if i < 0 || i >= b.len() {
        true
    } else {
        (bytes_at(b, i, xml_decl_open()) ==> decl_ok_from(b, i + 5)) && decls_ok_from(b, i + 1)
    }
}

fn bytes_at_exec(b: &[u8], i: usize, pat: &Vec<u8>) -> (r: bool)
    ensures
        r == bytes_at(b@, i as int, pat@),
{
    if pat.len() > b.len() || i > b.len() - pat.len() {
        return false;
    }
    let mut k: usize = 0;
    while k < pat.len()
        invariant
            k <= pat.len(),
            i + pat.len() <= b.len(),
            forall|m: int| 0 <= m < k ==> b@[i + m] == pat@[m],
        decreases pat.len() - k,
    {
        if b[i + k] != pat[k] {
            assert(b@.subrange(i as int, i + pat.len())[k as int] != pat@[k as int]);
            return false;
        }
        k = k + 1;
    }
    assert(b@.subrange(i as int, i + pat.len()) =~= pat@);
    true
}

fn contains_exec(b: &[u8], pat: &Vec<u8>) -> (r: bool)
    requires
        pat.len() > 0,
    ensures
        r == contains_bytes(b@, pat@),
{
    let mut i: usize = 0;
    while i < b.len()
        invariant
            i <= b.len(),
            forall|j: int| 0 <= j < i ==> !bytes_at(b@, j, pat@),
        decreases b.len() - i,
    {
        if bytes_at_exec(b, i, pat) {
            return true;
        }
        i = i + 1;
    }
    assert forall|j: int| !bytes_at(b@, j, pat@) by {
        if 0 <= j < b.len() {
        }
    }
    false
}

fn first_root_exec(b: &[u8]) -> (r: Option<u8>)
    ensures
        r == first_root_from(b@, 0),
{
    let mut i: usize = 0;
    while i < b.len()
        invariant
            i <= b.len(),
            first_root_from(b@, 0) == first_root_from(b@, i as int),
        decreases b.len() - i,
    {
        if b[i] == 0x3c || b[i] == 0x7b {
            return Some(b[i]);
        }
        i = i + 1;
    }
    None
}

fn skip_space_exec(b: &[u8], k: usize) -> (r: usize)
    ensures
        r as int == skip_space(b@, k as int),
{
    let mut j = k;
    while j < b.len() && (b[j] == 0x20 || b[j] == 0x09 || b[j] == 0x0d || b[j] == 0x0a)
        invariant
            k <= j,
            skip_space(b@, k as int) == skip_space(b@, j as int),
        decreases b.len() - j,
    {
        j = j + 1;
    }
    j
}

fn lower_exec(c: u8) -> (r: u8)
    ensures
        r == lower(c),
{
    if 0x41 <= c && c <= 0x5a {
        c + 0x20
    } else {
        c
    }
}

fn label_matches_exec(b: &[u8], k: usize, lab: &Vec<u8>) -> (r: bool)
    ensures
        r == label_matches(b@, k as int, lab@),
{
    if k > b.len() || lab.len() > b.len() - k {
        return false;
    }
    let mut j: usize = 0;
    while j < lab.len()
        invariant
            j <= lab.len(),
            k + lab.len() <= b.len(),
            forall|m: int| 0 <= m < j ==> lower(b@[k + m]) == lab@[m],
        decreases lab.len() - j,
    {
        if lower_exec(b[k + j]) != lab[j] {
            assert(b@.subrange(k as int, k + lab.len()).map_values(|c: u8| lower(c))[j as int]
                != lab@[j as int]);
            return false;
        }
        j = j + 1;
    }
    assert(b@.subrange(k as int, k + lab.len()).map_values(|c: u8| lower(c)) =~= lab@);
    true
}

fn quoted_label_exec(b: &[u8], q: usize, lab: &Vec<u8>) -> (r: bool)
    ensures
        r == quoted_label(b@, q as int, lab@),
{
    if q >= b.len() || !(b[q] == 0x22 || b[q] == 0x27) || !label_matches_exec(b, q + 1, lab) {
        return false;
    }
    let end = q + 1 + lab.len();
    end < b.len() && b[end] == b[q]
}

fn accepted_label_exec(b: &[u8], k: usize, labels: &Vec<Vec<u8>>) -> (r: bool)
    requires
        labels@.map_values(|l: Vec<u8>| l@) == accepted_labels(),
    ensures
        r == accepted_label_at(b@, k as int),
{
    let e = skip_space_exec(b, k);
    if e >= b.len() || b[e] != 0x3d {
        return false;
    }
    let q = skip_space_exec(b, e + 1);
    let mut n: usize = 0;
    while n < labels.len()
        invariant
            n <= labels.len(),
            labels@.map_values(|l: Vec<u8>| l@) == accepted_labels(),
            e as int == skip_space(b@, k as int),
            q as int == skip_space(b@, e + 1),
            byte_is(b@, e as int, 0x3d),
            forall|m: int| 0 <= m < n ==> !quoted_label(b@, q as int, #[trigger] accepted_labels()[m]),
        decreases labels.len() - n,
    {
        assert(labels@.map_values(|l: Vec<u8>| l@)[n as int] == labels@[n as int]@);
        if quoted_label_exec(b, q, &labels[n]) {
            assert(quoted_label(b@, q as int, accepted_labels()[n as int]));
            return true;
        }
        n = n + 1;
    }
    false
}

fn accepted_label_list() -> (labels: Vec<Vec<u8>>)
    ensures
        labels@.map_values(|l: Vec<u8>| l@) == accepted_labels(),
{
    let labels = vec![vec![117u8, 116, 102, 45, 56], vec![117u8, 116, 102, 56], vec![105u8, 115, 111, 45, 56, 56, 53, 57, 45, 49], vec![105u8, 115, 111, 45, 56, 56, 53, 57, 45, 49, 53], vec![119u8, 105, 110, 100, 111, 119, 115, 45, 49, 50, 53, 50], vec![117u8, 115, 45, 97, 115, 99, 105, 105], vec![108u8, 97, 116, 105, 110, 49]];
    assert(labels@.map_values(|l: Vec<u8>| l@) =~= accepted_labels());
    labels
}

fn decl_ok_exec(b: &[u8], start: usize, word: &Vec<u8>, labels: &Vec<Vec<u8>>) -> (r: bool)
    requires
        start >= 1,
        word@ == encoding_word(),
        labels@.map_values(|l: Vec<u8>| l@) == accepted_labels(),
    ensures
        r == decl_ok_from(b@, start as int),
{
    let mut j = start;
    while j < b.len()
        invariant
            j >= 1,
            word@ == encoding_word(),
            labels@.map_values(|l: Vec<u8>| l@) == accepted_labels(),
            decl_ok_from(b@, start as int) == decl_ok_from(b@, j as int),
        decreases b.len() - j,
    {
        if b[j] == 0x3e && b[j - 1] == 0x3f {
            return true;
        }
        if bytes_at_exec(b, j, word) && !accepted_label_exec(b, j + 8, labels) {
            return false;
        }
        j = j + 1;
    }
    true
}

fn decls_ok_exec(b: &[u8]) -> (r: bool)
    ensures
        r == decls_ok_from(b@, 0),
{
    let open = vec![0x3cu8, 0x3f, 0x78, 0x6d, 0x6c];
    let word = vec![0x65u8, 0x6e, 0x63, 0x6f, 0x64, 0x69, 0x6e, 0x67];
    assert(open@ =~= xml_decl_open());
    assert(word@ =~= encoding_word());
    let labels = accepted_label_list();
    let mut i: usize = 0;
    while i < b.len()
        invariant
            i <= b.len(),
            open@ == xml_decl_open(),
            word@ == encoding_word(),
            labels@.map_values(|l: Vec<u8>| l@) == accepted_labels(),
            decls_ok_from(b@, 0) == decls_ok_from(b@, i as int),
        decreases b.len() - i,
    {
        if bytes_at_exec(b, i, &open) && !decl_ok_exec(b, i + 5, &word, &labels) {
            return false;
        }
        i = i + 1;
    }
    true
}

/// The value of `c` as a digit (hexadecimal when `hex`), or -1.
pub open spec fn digit_value(c: u8, hex: bool) -> int {
    if 0x30 <= c <= 0x39 {
        c - 0x30
    } else if hex && 0x61 <= c <= 0x66 {
        c - 0x61 + 10
    } else if hex && 0x41 <= c <= 0x46 {
        c - 0x41 + 10
    } else {
        -1
    }
}

/// The number written by the digits from `k` on, added to `acc`; values
/// past the last Unicode scalar value are all taken as `0x110000`.
pub open spec fn number_from(b: Seq<u8>, k: int, hex: bool, acc: int) -> int
    decreases b.len() - k,
{
    if 0 <= k < b.len() && digit_value(b[k], hex) >= 0 {
        let next = acc * (if hex {
            16int
        } else {
            10int
        }) + digit_value(b[k], hex);
        number_from(b, k + 1, hex, if next > 0x110000 {
            0x110000
        } else {
            next
        })
    } else {
        acc
    }
}

/// The character that a reference `&#...;` whose number starts at `k`
/// stands for (`x` introduces hexadecimal).
pub open spec fn char_ref_value(b: Seq<u8>, k: int) -> int {
    if byte_is(b, k, 0x78) {
        number_from(b, k + 1, true, 0)
    } else {
        number_from(b, k, false, 0)
    }
}

/// No character reference from `i` on stands for a decimal digit.
pub open spec fn refs_ok_from(b: Seq<u8>, i: int) -> bool
    decreases b.len() - i,
{
    if i < 0 || i >= b.len() {
        true
    } else {
        ((b[i] == 0x26 && byte_is(b, i + 1, 0x23)) ==> !is_decimal_digit_code(
            char_ref_value(b, i + 2),
        )) && refs_ok_from(b, i + 1)
    }
}

pub open spec fn is_cont(c: u8) -> bool {
    0x80 <= c <= 0xbf
}

/// The bytes at `i` read as UTF-8 (two, three or four bytes long) give a
/// decimal digit outside ASCII.
pub open spec fn wide_digit_at(b: Seq<u8>, i: int) -> bool {
    ||| (0 <= i && i + 1 < b.len() && 0xc0 <= b[i] <= 0xdf && is_cont(b[i + 1])
        && is_decimal_digit_code((b[i] - 0xc0) * 64 + (b[i + 1] - 0x80)))
    ||| (0 <= i && i + 2 < b.len() && 0xe0 <= b[i] <= 0xef && is_cont(b[i + 1]) && is_cont(
        b[i + 2],
    ) && is_decimal_digit_code((b[i] - 0xe0) * 4096 + (b[i + 1] - 0x80) * 64 + (b[i + 2] - 0x80)))
    ||| (0 <= i && i + 3 < b.len() && 0xf0 <= b[i] <= 0xf7 && is_cont(b[i + 1]) && is_cont(
        b[i + 2],
    ) && is_cont(b[i + 3]) && is_decimal_digit_code(
        (b[i] - 0xf0) * 262144 + (b[i + 1] - 0x80) * 4096 + (b[i + 2] - 0x80) * 64 + (b[i + 3]
            - 0x80),
    ))
}

/// No decimal digit outside ASCII is written from `i` on.
pub open spec fn wide_ok_from(b: Seq<u8>, i: int) -> bool
    decreases b.len() - i,
{
    if i < 0 || i >= b.len() {
        true
    } else {
        !wide_digit_at(b, i) && wide_ok_from(b, i + 1)
    }
}

fn number_exec(b: &[u8], k: usize, hex: bool) -> (r: u32)
    ensures
        r as int == number_from(b@, k as int, hex, 0),
{
    let mut acc: u32 = 0;
    let mut j = k;
    while j < b.len()
        invariant
            k <= j,
            acc <= 0x110000,
            number_from(b@, k as int, hex, 0) == number_from(b@, j as int, hex, acc as int),
        decreases b.len() - j,
    {
        let c = b[j];
        let d: u32 = if 0x30 <= c && c <= 0x39 {
            (c - 0x30) as u32
        } else if hex && 0x61 <= c && c <= 0x66 {
            (c - 0x61 + 10) as u32
        } else if hex && 0x41 <= c && c <= 0x46 {
            (c - 0x41 + 10) as u32
        } else {
            return acc;
        };
        let next: u32 = if hex {
            acc * 16 + d
        } else {
            acc * 10 + d
        };
        acc = if next > 0x110000 {
            0x110000
        } else {
            next
        };
        j = j + 1;
    }
    acc
}

fn refs_ok_exec(b: &[u8]) -> (r: bool)
    ensures
        r == refs_ok_from(b@, 0),
{
    let mut i: usize = 0;
    while i < b.len()
        invariant
            i <= b.len(),
            refs_ok_from(b@, 0) == refs_ok_from(b@, i as int),
        decreases b.len() - i,
    {
        if b[i] == 0x26 && i + 1 < b.len() && b[i + 1] == 0x23 {
            let v = if i + 2 < b.len() && b[i + 2] == 0x78 {
                number_exec(b, i + 3, true)
            } else {
                number_exec(b, i + 2, false)
            };
            if decimal_digit_code(v) {
                return false;
            }
        }
        i = i + 1;
    }
    true
}

fn wide_digit_exec(b: &[u8], i: usize) -> (r: bool)
    requires
        i < b.len(),
    ensures
        r == wide_digit_at(b@, i as int),
{
    let n = b.len();
    let two = n - i > 1 && 0xc0 <= b[i] && b[i] <= 0xdf && 0x80 <= b[i + 1] && b[i + 1] <= 0xbf
        && decimal_digit_code((b[i] - 0xc0) as u32 * 64 + (b[i + 1] - 0x80) as u32);
    let three = n - i > 2 && 0xe0 <= b[i] && b[i] <= 0xef && 0x80 <= b[i + 1] && b[i + 1] <= 0xbf
        && 0x80 <= b[i + 2] && b[i + 2] <= 0xbf && decimal_digit_code(
        (b[i] - 0xe0) as u32 * 4096 + (b[i + 1] - 0x80) as u32 * 64 + (b[i + 2] - 0x80) as u32,
    );
    let four = n - i > 3 && 0xf0 <= b[i] && b[i] <= 0xf7 && 0x80 <= b[i + 1] && b[i + 1] <= 0xbf
        && 0x80 <= b[i + 2] && b[i + 2] <= 0xbf && 0x80 <= b[i + 3] && b[i + 3] <= 0xbf
        && decimal_digit_code(
        (b[i] - 0xf0) as u32 * 262144 + (b[i + 1] - 0x80) as u32 * 4096 + (b[i + 2] - 0x80) as u32
            * 64 + (b[i + 3] - 0x80) as u32,
    );
    two || three || four
}

fn wide_ok_exec(b: &[u8]) -> (r: bool)
    ensures
        r == wide_ok_from(b@, 0),
{
    let mut i: usize = 0;
    while i < b.len()
        invariant
            i <= b.len(),
            wide_ok_from(b@, 0) == wide_ok_from(b@, i as int),
        decreases b.len() - i,
    {
        if wide_digit_exec(b, i) {
            return false;
        }
        i = i + 1;
    }
    true
}

pub open spec fn is_ascii_digit(c: u8) -> bool {
    0x30 <= c <= 0x39
}

/// One byte of the scan for runs of ASCII digits that can reach one text
/// or attribute value of the parsed document. The scan state is
/// `(mode, quote, start, run)`: mode 0 is text, 1 inside a tag (with the
/// open quote of an attribute value, or 0), 2 a comment, 3 a CDATA section
/// and 4 a processing instruction or declaration, each opened at `start`;
/// `run` counts the digits of the current run. Comments, processing
/// instructions and the CDATA brackets vanish from the text the parser
/// builds, so they end no run; a tag ends the text. The last component says
/// whether the scan may go on: a run reaches 16 digits, or `<!` opens
/// something other than a comment or a CDATA section (a document type
/// declaration may define entities).
pub open spec fn lex_step(b: Seq<u8>, i: int, mode: int, quote: int, start: int, run: int) -> (
    int,
    int,
    int,
    int,
    bool,
) {
    let c = b[i];
    if mode == 0 {
        if c == 0x3c {
            if byte_is(b, i + 1, 0x21) {
                if byte_is(b, i + 2, 0x2d) && byte_is(b, i + 3, 0x2d) {
                    (2, 0, i, run, true)
                } else if bytes_at(b, i, cdata_open()) {
                    (3, 0, i, run, true)
                } else {
                    (0, 0, start, run, false)
                }
            } else if byte_is(b, i + 1, 0x3f) {
                (4, 0, i, run, true)
            } else {
                (1, 0, i, 0, true)
            }
        } else if is_ascii_digit(c) {
            (0, 0, start, run + 1, run + 1 < 16)
        } else {
            (0, 0, start, 0, true)
        }
    } else if mode == 1 {
        if quote == 0 && c == 0x3e {
            (0, 0, start, 0, true)
        } else if quote == 0 && (c == 0x22 || c == 0x27) {
            (1, c as int, start, 0, true)
        } else if quote != 0 && c == quote {
            (1, 0, start, 0, true)
        } else if is_ascii_digit(c) {
            (1, quote, start, run + 1, run + 1 < 16)
        } else {
            (1, quote, start, 0, true)
        }
    } else if mode == 2 {
        if c == 0x3e && i >= start + 6 && b[i - 1] == 0x2d && b[i - 2] == 0x2d {
            (0, 0, start, run, true)
        } else {
            (2, 0, start, run, true)
        }
    } else if mode == 3 {
        if i < start + 9 {
            (3, 0, start, run, true)
        } else if c == 0x3e && i >= start + 11 && b[i - 1] == 0x5d && b[i - 2] == 0x5d {
            (0, 0, start, run, true)
        } else if is_ascii_digit(c) {
            (3, 0, start, run + 1, run + 1 < 16)
        } else if c == 0x5d {
            (3, 0, start, run, true)
        } else {
            (3, 0, start, 0, true)
        }
    } else {
        if c == 0x3e && i >= start + 2 && b[i - 1] == 0x3f {
            (0, 0, start, run, true)
        } else {
            (4, 0, start, run, true)
        }
    }
}

/// The scan from `i` on, in the given state, never stops.
pub open spec fn lex_ok_from(b: Seq<u8>, i: int, mode: int, quote: int, start: int, run: int) -> bool
    decreases b.len() - i,
{
    if i < 0 || i >= b.len() {
        true
    } else {
        let t = lex_step(b, i, mode, quote, start, run);
        t.4 && lex_ok_from(b, i + 1, t.0, t.1, t.2, t.3)
    }
}

/// No text or attribute value of the document can hold 16 ASCII digits in
/// a row, and the document declares no document type.
pub open spec fn digit_runs_ok(b: Seq<u8>) -> bool {
    lex_ok_from(b, 0, 0, 0, 0, 0)
}

fn lex_step_exec(b: &[u8], i: usize, mode: u8, quote: u8, start: usize, run: usize, cdata: &Vec<
    u8,
>) -> (r: (u8, u8, usize, usize, bool))
    requires
        i < b.len(),
        start <= i,
        run < 16,
        cdata@ == cdata_open(),
    ensures
        (r.0 as int, r.1 as int, r.2 as int, r.3 as int, r.4) == lex_step(
            b@,
            i as int,
            mode as int,
            quote as int,
            start as int,
            run as int,
        ),
        r.2 <= i,
        r.4 ==> r.3 < 16,
{
    let c = b[i];
    let n = b.len();
    if mode == 0 {
        if c == 0x3c {
            if n - i > 1 && b[i + 1] == 0x21 {
                if n - i > 3 && b[i + 2] == 0x2d && b[i + 3] == 0x2d {
                    (2, 0, i, run, true)
                } else if bytes_at_exec(b, i, cdata) {
                    (3, 0, i, run, true)
                } else {
                    (0, 0, start, run, false)
                }
            } else if n - i > 1 && b[i + 1] == 0x3f {
                (4, 0, i, run, true)
            } else {
                (1, 0, i, 0, true)
            }
        } else if 0x30 <= c && c <= 0x39 {
            (0, 0, start, run + 1, run + 1 < 16)
        } else {
            (0, 0, start, 0, true)
        }
    } else if mode == 1 {
        if quote == 0 && c == 0x3e {
            (0, 0, start, 0, true)
        } else if quote == 0 && (c == 0x22 || c == 0x27) {
            (1, c, start, 0, true)
        } else if quote != 0 && c == quote {
            (1, 0, start, 0, true)
        } else if 0x30 <= c && c <= 0x39 {
            (1, quote, start, run + 1, run + 1 < 16)
        } else {
            (1, quote, start, 0, true)
        }
    } else if mode == 2 {
        if c == 0x3e && i - start >= 6 && b[i - 1] == 0x2d && b[i - 2] == 0x2d {
            (0, 0, start, run, true)
        } else {
            (2, 0, start, run, true)
        }
    } else if mode == 3 {
        if i - start < 9 {
            (3, 0, start, run, true)
        } else if c == 0x3e && i - start >= 11 && b[i - 1] == 0x5d && b[i - 2] == 0x5d {
            (0, 0, start, run, true)
        } else if 0x30 <= c && c <= 0x39 {
            (3, 0, start, run + 1, run + 1 < 16)
        } else if c == 0x5d {
            (3, 0, start, run, true)
        } else {
            (3, 0, start, 0, true)
        }
    } else {
        if c == 0x3e && i - start >= 2 && b[i - 1] == 0x3f {
            (0, 0, start, run, true)
        } else {
            (4, 0, start, run, true)
        }
    }
}

fn digit_runs_exec(b: &[u8]) -> (r: bool)
    ensures
        r == digit_runs_ok(b@),
{
    let cdata = vec![0x3cu8, 0x21, 0x5b, 0x43, 0x44, 0x41, 0x54, 0x41, 0x5b];
    assert(cdata@ =~= cdata_open());
    let mut mode: u8 = 0;
    let mut quote: u8 = 0;
    let mut start: usize = 0;
    let mut run: usize = 0;
    let mut i: usize = 0;
    while i < b.len()
        invariant
            i <= b.len(),
            start <= i,
            run < 16,
            cdata@ == cdata_open(),
            digit_runs_ok(b@) == lex_ok_from(
                b@,
                i as int,
                mode as int,
                quote as int,
                start as int,
                run as int,
            ),
        decreases b.len() - i,
    {
        let t = lex_step_exec(b, i, mode, quote, start, run, &cdata);
        if !t.4 {
            return false;
        }
        mode = t.0;
        quote = t.1;
        start = t.2;
        run = t.3;
        i = i + 1;
    }
    true
}

fn no_utf16_start_exec(b: &[u8]) -> (r: bool)
    ensures
        r == no_utf16_start(b@),
{
    if b.len() < 2 {
        return true;
    }
    let (x, y) = (b[0], b[1]);
    !(x == 0xfe && y == 0xff) && !(x == 0xff && y == 0xfe) && !(x == 0x00 && y == 0x3c) && !(x
        == 0x3c && y == 0x00)
}

/// An XML document is admitted when it does not start as UTF-16, every
/// declaration in it names an accepted encoding (or none), and it either
/// binds neither the iTunes nor the Media RSS namespace (the XML
/// reader compares the raw bytes of a namespace declaration, so a binding
/// shows the address literally), or none of its character references and
/// multi-byte characters is a decimal digit and no text or attribute value
/// can hold 16 ASCII digits in a row.
pub open spec fn xml_feed_admitted(b: Seq<u8>) -> bool {
    &&& no_utf16_start(b)
    &&& decls_ok_from(b, 0)
    &&& (contains_bytes(b, itunes_namespace()) || contains_bytes(b, media_rss_namespace())) ==> (
    refs_ok_from(b, 0) && wide_ok_from(b, 0) && digit_runs_ok(b))
}

/// The documents handed to feed-rs: a JSON feed, bytes with no root at all
/// (which feed-rs refuses), or an admitted XML document.
pub open spec fn feed_bytes_admitted(b: Seq<u8>) -> bool {
    match first_root_from(b, 0) {
        Some(c) => c == 0x7b || xml_feed_admitted(b),
        None => true,
    }
}

/// Decides `feed_bytes_admitted`.
pub fn admits_feed_bytes(bytes: &[u8]) -> (r: bool)
    ensures
        r == feed_bytes_admitted(bytes@),
{
    match first_root_exec(bytes) {
        None => true,
        Some(c) => {
            if c == 0x7b {
                return true;
            }
            if !no_utf16_start_exec(bytes) || !decls_ok_exec(bytes) {
                return false;
            }
            let itunes: Vec<u8> = vec![104u8, 116, 116, 112, 58, 47, 47, 119, 119, 119, 46, 105, 116, 117, 110, 101, 115, 46, 99, 111, 109, 47, 100, 116, 100, 115, 47, 112, 111, 100, 99, 97, 115, 116, 45, 49, 46, 48, 46, 100, 116, 100];
            let media: Vec<u8> = vec![104u8, 116, 116, 112, 58, 47, 47, 115, 101, 97, 114, 99, 104, 46, 121, 97, 104, 111, 111, 46, 99, 111, 109, 47, 109, 114, 115, 115, 47];
            assert(itunes@ =~= itunes_namespace());
            assert(media@ =~= media_rss_namespace());
            if !contains_exec(bytes, &itunes) && !contains_exec(bytes, &media) {
                return true;
            }
            refs_ok_exec(bytes) && wide_ok_exec(bytes) && digit_runs_exec(bytes)
        },
    }
}

} // verus!
