//! File names from the answer to a download request.
//!
//! The name comes from the `Content-Disposition` header where it has one,
//! the extended parameter `filename*=` before the plain `filename=`, and
//! else from the last segment of the address. Whatever its origin it is
//! then made safe for every file system.

use vstd::prelude::*;
use vstd::utf8::{decode_utf8, encode_utf8, valid_utf8};
use crate::text::{chars_of, ends_with, find_char, first_index, has_prefix, has_suffix, opt_str, slice_of, split, split_on, starts_with, string_of, trim, trimmed, views};

verus! {

/// The text that the bytes are in UTF-8, if they are valid. Wraps
/// `String::from_utf8`, which fails exactly on bytes that are not UTF-8.
#[verifier::external_body]
fn text_from_utf8(bytes: Vec<u8>) -> (r: Option<String>)
    ensures
        match r {
            Some(s) => valid_utf8(bytes@) && s@ == decode_utf8(bytes@),
            None => !valid_utf8(bytes@),
        },
{
    String::from_utf8(bytes).ok()
}

/// A character of a header is the given character of a lowercase pattern,
/// letter case aside.
pub open spec fn same_folded(c: char, p: char) -> bool {
    c == p || ('a' <= p <= 'z' && c as int + 32 == p as int)
}

/// The lowercase pattern stands in `s` at `at`, letter case aside.
pub open spec fn folded_at(s: Seq<char>, p: Seq<char>, at: int) -> bool {
    &&& 0 <= at
    &&& at + p.len() <= s.len()
    &&& forall|k: int| 0 <= k < p.len() ==> same_folded(#[trigger] s[at + k], p[k])
}

/// The first position at or after `from` where the pattern stands, letter
/// case aside, and which `skip_starred` does not rule out; the length of
/// `s` if there is none. A position is ruled out if a `*` stands before it.
pub open spec fn parameter_at(s: Seq<char>, p: Seq<char>, from: int, skip_starred: bool) -> int
    decreases s.len() - from,
{
    if from < 0 || from >= s.len() {
        s.len() as int
    } else if folded_at(s, p, from) && !(skip_starred && from > 0 && s[from - 1] == '*') {
        from
    } else {
        parameter_at(s, p, from + 1, skip_starred)
    }
}

fn folds_to(c: char, p: char) -> (r: bool)
    ensures
        r == same_folded(c, p),
{
    c == p || (p >= 'a' && p <= 'z' && c as u32 + 32 == p as u32)
}

fn is_folded_at(s: &Vec<char>, p: &Vec<char>, at: usize) -> (r: bool)
    ensures
        r == folded_at(s@, p@, at as int),
{
    if at > s.len() || p.len() > s.len() - at {
        return false;
    }
    let mut k: usize = 0;
    while k < p.len()
        invariant
            k <= p.len(),
            at + p.len() <= s.len(),
            forall|j: int| 0 <= j < k ==> same_folded(#[trigger] s@[at + j], p@[j]),
        decreases p.len() - k,
    {
        let same = folds_to(s[at + k], p[k]);
        if !same {
            assert(!same_folded(s@[at + k], p@[k as int]));
            return false;
        }
        k = k + 1;
    }
    true
}

fn find_parameter(s: &Vec<char>, p: &Vec<char>, skip_starred: bool) -> (r: usize)
    ensures
        r == parameter_at(s@, p@, 0, skip_starred),
        r <= s.len(),
{
    let mut i: usize = 0;
    while i < s.len()
        invariant
            i <= s.len(),
            parameter_at(s@, p@, 0, skip_starred) == parameter_at(s@, p@, i as int, skip_starred),
        decreases s.len() - i,
    {
        if is_folded_at(s, p, i) && !(skip_starred && i > 0 && s[i - 1] == '*') {
            return i;
        }
        i = i + 1;
    }
    i
}

/// `s` without the double quotes at its start.
pub open spec fn unquoted_start(s: Seq<char>) -> Seq<char>
    decreases s.len(),
{
    if s.len() > 0 && s[0] == '"' {
        unquoted_start(s.drop_first())
    } else {
        s
    }
}

/// `s` without the double quotes at its end.
pub open spec fn unquoted_end(s: Seq<char>) -> Seq<char>
    decreases s.len(),
{
    if s.len() > 0 && s.last() == '"' {
        unquoted_end(s.drop_last())
    } else {
        s
    }
}

/// `s` without the double quotes at either end.
pub open spec fn unquoted(s: Seq<char>) -> Seq<char> {
    unquoted_end(unquoted_start(s))
}

fn strip_quotes(v: &Vec<char>) -> (r: Vec<char>)
    ensures
        r@ == unquoted(v@),
{
    let mut a: usize = 0;
    assert(v@.skip(0) == v@);
    while a < v.len() && v[a] == '"'
        invariant
            a <= v.len(),
            unquoted_start(v@) == unquoted_start(v@.skip(a as int)),
        decreases v.len() - a,
    {
        assert(v@.skip(a as int).drop_first() == v@.skip(a + 1));
        a = a + 1;
    }
    let mut b: usize = v.len();
    assert(v@.subrange(a as int, b as int) == v@.skip(a as int));
    while b > a && v[b - 1] == '"'
        invariant
            a <= b <= v.len(),
            unquoted_start(v@) == v@.skip(a as int),
            unquoted_end(v@.skip(a as int)) == unquoted_end(v@.subrange(a as int, b as int)),
        decreases b,
    {
        assert(v@.subrange(a as int, b as int).drop_last() == v@.subrange(a as int, b - 1));
        b = b - 1;
    }
    slice_of(v, a, b)
}

/// The value of a hexadecimal digit, if the byte is one.
pub open spec fn hex_value(b: u8) -> Option<u8> {
    if 48 <= b <= 57 {
        Some((b - 48) as u8)
    } else if 97 <= b <= 102 {
        Some((b - 87) as u8)
    } else if 65 <= b <= 70 {
        Some((b - 55) as u8)
    } else {
        None
    }
}

/// The byte that two bytes after a `%` stand for: two hexadecimal digits,
/// or a `+` and one digit.
pub open spec fn escaped_byte(b1: u8, b2: u8) -> Option<u8> {
    match (hex_value(b1), hex_value(b2)) {
        (Some(h), Some(l)) => Some((16 * h + l) as u8),
        (None, Some(l)) => if b1 == 43 {
            Some(l)
        } else {
            None
        },
        _ => None,
    }
}

/// Two bytes are text by themselves: two ASCII characters or one character
/// of two bytes.
pub open spec fn pair_is_text(b1: u8, b2: u8) -> bool {
    (b1 < 128 && b2 < 128) || (194 <= b1 <= 223 && 128 <= b2 <= 191)
}

/// The bytes from `i` on with every escape replaced by its byte. An escape
/// is a `%` with at least three bytes from it to the end, of which the two
/// after it stand for a byte. Nothing is returned if the two bytes after
/// such a `%` are not text by themselves.
pub open spec fn unescaped(b: Seq<u8>, i: int) -> Option<Seq<u8>>
    decreases b.len() - i,
{
    if i < 0 || i >= b.len() {
        Some(Seq::empty())
    } else if b[i] == 37 && i + 2 < b.len() && !pair_is_text(b[i + 1], b[i + 2]) {
        None
    } else if b[i] == 37 && i + 2 < b.len() && escaped_byte(b[i + 1], b[i + 2]) is Some {
        match unescaped(b, i + 3) {
            Some(rest) => Some(seq![escaped_byte(b[i + 1], b[i + 2])->0] + rest),
            None => None,
        }
    } else {
        match unescaped(b, i + 1) {
            Some(rest) => Some(seq![b[i]] + rest),
            None => None,
        }
    }
}

/// A percent-encoded text decoded: the text that its unescaped bytes are in
/// UTF-8, if they are.
pub open spec fn percent_decoded(s: Seq<char>) -> Option<Seq<char>> {
    match unescaped(encode_utf8(s), 0) {
        Some(bytes) => if valid_utf8(bytes) {
            Some(decode_utf8(bytes))
        } else {
            None
        },
        None => None,
    }
}

fn hex_digit_value(b: u8) -> (r: Option<u8>)
    ensures
        r == hex_value(b),
{
    if b >= 48 && b <= 57 {
        Some(b - 48)
    } else if b >= 97 && b <= 102 {
        Some(b - 87)
    } else if b >= 65 && b <= 70 {
        Some(b - 55)
    } else {
        None
    }
}

fn escape_value(b1: u8, b2: u8) -> (r: Option<u8>)
    ensures
        r == escaped_byte(b1, b2),
{
    match hex_digit_value(b2) {
        Some(l) => match hex_digit_value(b1) {
            Some(h) => Some(16 * h + l),
            None => if b1 == 43 {
                Some(l)
            } else {
                None
            },
        },
        None => None,
    }
}

/// How the bytes read so far and the rest make up the whole.
spec fn joined(done: Seq<u8>, rest: Option<Seq<u8>>) -> Option<Seq<u8>> {
    match rest {
        Some(r) => Some(done + r),
        None => None,
    }
}

/// Decodes a percent-encoded text.
pub fn percent_decode(s: &str) -> (r: Option<String>)
    ensures
        crate::text::opt_text(r) == percent_decoded(s@),
{
    let bytes = s.as_bytes();
    let mut out: Vec<u8> = Vec::new();
    let mut i: usize = 0;
    assert(joined(out@, unescaped(bytes@, 0)) == unescaped(bytes@, 0)) by {
        if let Some(r) = unescaped(bytes@, 0) {
            assert(out@ + r =~= r);
        }
    }
    while i < bytes.len()
        invariant
            i <= bytes.len(),
            bytes@ == encode_utf8(s@),
            unescaped(bytes@, 0) == joined(out@, unescaped(bytes@, i as int)),
        decreases bytes.len() - i,
    {
        let ghost before = out@;
        if bytes[i] == 37 && bytes.len() - i > 2 {
            let b1 = bytes[i + 1];
            let b2 = bytes[i + 2];
            let text = (b1 < 128 && b2 < 128) || (b1 >= 194 && b1 <= 223 && b2 >= 128 && b2 <= 191);
            if !text {
                return None;
            }
            if let Some(v) = escape_value(b1, b2) {
                out.push(v);
                proof {
                    if let Some(r) = unescaped(bytes@, i + 3) {
                        assert(before + (seq![v] + r) =~= before.push(v) + r);
                    }
                }
                i = i + 3;
                continue ;
            }
        }
        out.push(bytes[i]);
        proof {
            if let Some(r) = unescaped(bytes@, i + 1) {
                assert(before + (seq![bytes@[i as int]] + r) =~= before.push(bytes@[i as int]) + r);
            }
        }
        i = i + 1;
    }
    assert(out@ + Seq::<u8>::empty() =~= out@);
    text_from_utf8(out)
}

/// The part of a header after a parameter name, up to the next `;`,
/// without surrounding white space.
pub open spec fn parameter_value(header: Seq<char>, after: int) -> Seq<char> {
    let rest = header.skip(after);
    trimmed(rest.take(first_index(rest, ';')))
}

fn value_after(header: &Vec<char>, after: usize) -> (r: Vec<char>)
    requires
        after <= header.len(),
    ensures
        r@ == parameter_value(header@, after as int),
{
    let rest = slice_of(header, after, header.len());
    assert(header@.subrange(after as int, header@.len() as int) == header@.skip(after as int));
    let cut = find_char(&rest, ';');
    let value = slice_of(&rest, 0, cut);
    assert(rest@.subrange(0, cut as int) == rest@.take(cut as int));
    trim(&value)
}

/// The file name that the extended parameter `filename*=` of a header
/// gives. Its value has the form `charset'language'name`, the name
/// percent-encoded; a value without any `'` is taken as the name itself,
/// without its quotes.
pub open spec fn star_filename(header: Seq<char>) -> Option<Seq<char>> {
    let at = parameter_at(header, "filename*="@, 0, false);
    if !(0 <= at < header.len()) {
        None
    } else {
        let value = parameter_value(header, at + 10);
        let q1 = first_index(value, '\'');
        if q1 == value.len() {
            Some(unquoted(value))
        } else {
            let tail = value.skip(q1 + 1);
            let q2 = first_index(tail, '\'');
            if q2 == tail.len() {
                None
            } else {
                percent_decoded(tail.skip(q2 + 1))
            }
        }
    }
}

/// The file name that the plain parameter `filename=` of a header gives:
/// its value without quotes, unless that is a MIME encoded word.
pub open spec fn basic_filename(header: Seq<char>) -> Option<Seq<char>> {
    let at = parameter_at(header, "filename="@, 0, true);
    if !(0 <= at < header.len()) {
        None
    } else {
        let value = unquoted(parameter_value(header, at + 9));
        if starts_with(value, "=?"@) && ends_with(value, "?="@) {
            None
        } else {
            Some(value)
        }
    }
}

/// Reads the extended parameter `filename*=` of a `Content-Disposition`
/// header.
pub fn extract_filename_star(header: &str) -> (r: Option<String>)
    ensures
        crate::text::opt_text(r) == star_filename(header@),
{
    let h = chars_of(header);
    let name = chars_of("filename*=");
    proof {
        reveal_strlit("filename*=");
    }
    let at = find_parameter(&h, &name, false);
    if at >= h.len() {
        return None;
    }
    proof {
        lemma_parameter_found(h@, name@, 0, false);
    }
    let value = value_after(&h, at + 10);
    let q1 = find_char(&value, '\'');
    if q1 == value.len() {
        let name = strip_quotes(&value);
        return Some(string_of(&name));
    }
    let tail = slice_of(&value, q1 + 1, value.len());
    assert(value@.subrange(q1 + 1, value@.len() as int) == value@.skip(q1 + 1));
    let q2 = find_char(&tail, '\'');
    if q2 == tail.len() {
        return None;
    }
    let encoded = slice_of(&tail, q2 + 1, tail.len());
    assert(tail@.subrange(q2 + 1, tail@.len() as int) == tail@.skip(q2 + 1));
    percent_decode(string_of(&encoded).as_str())
}

/// Where a parameter is found it stands in full.
proof fn lemma_parameter_found(s: Seq<char>, p: Seq<char>, from: int, skip_starred: bool)
    requires
        0 <= from,
    ensures
        parameter_at(s, p, from, skip_starred) <= s.len(),
        from <= s.len() ==> from <= parameter_at(s, p, from, skip_starred),
        parameter_at(s, p, from, skip_starred) < s.len() ==> parameter_at(s, p, from, skip_starred)
            + p.len() <= s.len(),
    decreases s.len() - from,
{
    if from < s.len() {
        if !(folded_at(s, p, from) && !(skip_starred && from > 0 && s[from - 1] == '*')) {
            lemma_parameter_found(s, p, from + 1, skip_starred);
        }
    }
}

/// Reads the plain parameter `filename=` of a `Content-Disposition` header.
pub fn extract_filename_basic(header: &str) -> (r: Option<String>)
    ensures
        crate::text::opt_text(r) == basic_filename(header@),
{
    let h = chars_of(header);
    let name = chars_of("filename=");
    proof {
        reveal_strlit("filename=");
    }
    let at = find_parameter(&h, &name, true);
    if at >= h.len() {
        return None;
    }
    proof {
        lemma_parameter_found(h@, name@, 0, true);
    }
    let value = strip_quotes(&value_after(&h, at + 9));
    let open = chars_of("=?");
    let close = chars_of("?=");
    if has_prefix(&value, &open) && has_suffix(&value, &close) {
        return None;
    }
    Some(string_of(&value))
}

/// Whether a character is a control character: below the space, or from
/// the delete character up to the end of the second control block.
pub open spec fn is_control(c: char) -> bool {
    (c as int) < 32 || 127 <= (c as int) <= 159
}

/// Whether a character may not stand in a file name.
pub open spec fn is_unsafe(c: char) -> bool {
    c == '<' || c == '>' || c == ':' || c == '"' || c == '/' || c == '\\' || c == '|' || c == '?'
        || c == '*' || is_control(c)
}

/// A file name with every unsafe character replaced by `_`.
pub open spec fn sanitized(name: Seq<char>) -> Seq<char> {
    name.map_values(|c: char| if is_unsafe(c) { '_' } else { c })
}

fn is_unsafe_char(c: char) -> (r: bool)
    ensures
        r == is_unsafe(c),
{
    let n = c as u32;
    c == '<' || c == '>' || c == ':' || c == '"' || c == '/' || c == '\\' || c == '|' || c == '?'
        || c == '*' || n < 32 || (n >= 127 && n <= 159)
}

fn sanitize_chars(name: &Vec<char>) -> (r: Vec<char>)
    ensures
        r@ == sanitized(name@),
{
    let mut out: Vec<char> = Vec::new();
    let mut i: usize = 0;
    while i < name.len()
        invariant
            i <= name.len(),
            out@.len() == i,
            forall|k: int| 0 <= k < i ==> out@[k] == (if is_unsafe(name@[k]) { '_' } else { name@[k] }),
        decreases name.len() - i,
    {
        let c = name[i];
        out.push(if is_unsafe_char(c) { '_' } else { c });
        i = i + 1;
    }
    assert(out@ =~= sanitized(name@));
    out
}

/// Replaces the characters that some file system refuses in a file name,
/// and control characters, by `_`.
pub fn sanitize_filename(filename: &str) -> (r: String)
    ensures
        r@ == sanitized(filename@),
{
    let chars = chars_of(filename);
    string_of(&sanitize_chars(&chars))
}

/// The file name that an address ends in: its last segment, without a
/// query.
pub open spec fn url_filename(url: Seq<char>) -> Seq<char> {
    let last = split_on(url, '/').last();
    last.take(first_index(last, '?'))
}

fn filename_from_url(url: &str) -> (r: Vec<char>)
    ensures
        r@ == url_filename(url@),
{
    let chars = chars_of(url);
    let parts = split(&chars, '/');
    let last = &parts[parts.len() - 1];
    assert(views(parts@).last() == last@);
    let cut = find_char(last, '?');
    let name = slice_of(last, 0, cut);
    assert(last@.subrange(0, cut as int) == last@.take(cut as int));
    name
}

/// The file name for a download, before it is made safe.
pub open spec fn raw_filename(content_disposition: Option<Seq<char>>, url: Seq<char>) -> Seq<char> {
    match content_disposition {
        Some(header) => match star_filename(header) {
            Some(name) => name,
            None => match basic_filename(header) {
                Some(name) => name,
                None => url_filename(url),
            },
        },
        None => url_filename(url),
    }
}

/// The file name for a download: from the `Content-Disposition` header if
/// it names one, else from the address; made safe in either case.
pub fn extract_filename(content_disposition: Option<&str>, url: &str) -> (r: String)
    ensures
        r@ == sanitized(raw_filename(opt_str(content_disposition), url@)),
{
    if let Some(header) = content_disposition {
        if let Some(name) = extract_filename_star(header) {
            return sanitize_filename(name.as_str());
        }
        if let Some(name) = extract_filename_basic(header) {
            return sanitize_filename(name.as_str());
        }
    }
    let name = filename_from_url(url);
    string_of(&sanitize_chars(&name))
}

/// `p` stands somewhere in `s`.
pub open spec fn contains_text(s: Seq<char>, p: Seq<char>) -> bool {
    exists|k: int| 0 <= k && #[trigger] crate::text::occurs_at(s, p, k)
}

/// The content type of an answer, in lowercase, if its header was given.
pub fn get_content_type(content_type: Option<&str>) -> (r: Option<String>)
    ensures
        crate::text::opt_text(r) == (match content_type {
            Some(ct) => Some(crate::text::lowercase(ct@)),
            None => None,
        }),
{
    match content_type {
        Some(ct) => Some(crate::text::to_lowercase(ct)),
        None => None,
    }
}

/// Whether the content type of an answer, letter case aside, holds the
/// expected text.
pub fn has_content_type(content_type: Option<&str>, expected: &str) -> (r: bool)
    ensures
        r == (content_type matches Some(ct) && contains_text(crate::text::lowercase(ct@), expected@)),
{
    match content_type {
        Some(ct) => {
            let lower = chars_of(crate::text::to_lowercase(ct).as_str());
            let wanted = chars_of(expected);
            match crate::text::find_from(&lower, &wanted, 0) {
                Some(at) => {
                    assert(crate::text::occurs_at(lower@, wanted@, at as int));
                    true
                },
                None => false,
            }
        },
        None => false,
    }
}

/// The file name to use for a download: the one that was extracted, unless
/// it is empty or the placeholder `download.jar`; then the default.
pub fn filename_or_default(extracted: &str, default_filename: &str) -> (r: String)
    ensures
        r@ == (if extracted@.len() == 0 || extracted@ == "download.jar"@ {
            default_filename@
        } else {
            extracted@
        }),
{
    if extracted.unicode_len() == 0 || crate::text::same_text(extracted, "download.jar") {
        default_filename.to_string()
    } else {
        extracted.to_string()
    }
}

} // verus!
