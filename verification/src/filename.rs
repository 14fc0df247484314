//! Download file names: sanitising a suggested name and building the attachment header text.

use vstd::prelude::*;
use vstd::string::StringExecFns;
use crate::text::{chars_of, push_char, push_str_chars, string_from_chars, sub_chars};

verus! {

/// Longest file name, in characters, that a download is offered under.
pub const MAX_FILENAME_CHARS: usize = 120;

/// Length of the stem kept in front of an added `.mp4` extension.
pub const STEM_LIMIT: usize = 116;

/// Whether Unicode classifies `c`, a character beyond ASCII, as alphabetic or numeric.
pub uninterp spec fn unicode_alphanumeric(c: char) -> bool;

/// Whether `c` is alphanumeric in the sense of std `char::is_alphanumeric`: an ASCII letter or
/// digit among the ASCII characters, and alphabetic or numeric by Unicode beyond them.
pub open spec fn spec_is_alphanumeric(c: char) -> bool {
    if c <= '\u{7f}' {
        is_ascii_alphanumeric(c)
    } else {
        unicode_alphanumeric(c)
    }
}

/// std `char::is_alphanumeric`: whether `c` has the Unicode Alphabetic property or a numeric
/// general category. Among ASCII characters these are exactly the letters and digits; beyond
/// ASCII the result is named by `unicode_alphanumeric` and the Unicode tables are not stated.
#[verifier::external_body]
fn char_is_alphanumeric(c: char) -> (r: bool)
    ensures
        c <= '\u{7f}' ==> r == is_ascii_alphanumeric(c),
        '\u{7f}' < c ==> r == unicode_alphanumeric(c),
{
    c.is_alphanumeric()
}

/// Punctuation that a file name may keep.
pub open spec fn is_name_punctuation(c: char) -> bool {
    c == ' ' || c == '-' || c == '_' || c == '.'
}

/// `c` as it may stand in a sanitised name: kept when alphanumeric or allowed punctuation,
/// otherwise `_`.
pub open spec fn spec_sanitize_character(c: char) -> char {
    if spec_is_alphanumeric(c) || is_name_punctuation(c) {
        c
    } else {
        '_'
    }
}

/// The first `n` elements of `s`, or all of `s` when it is shorter.
pub open spec fn take_at_most(s: Seq<char>, n: nat) -> Seq<char> {
    if s.len() <= n {
        s
    } else {
        s.take(n as int)
    }
}

/// Replaces the second dot of each `..` pair by `_`, scanning from the left; `prev_dot` tells
/// whether the character just before `s` was a kept dot.
pub open spec fn spec_remove_parent_markers(s: Seq<char>, prev_dot: bool) -> Seq<char>
    decreases s.len(),
{
    if s.len() == 0 {
        s
    } else if s[0] == '.' && prev_dot {
        seq!['_'] + spec_remove_parent_markers(s.drop_first(), false)
    } else {
        seq![s[0]] + spec_remove_parent_markers(s.drop_first(), s[0] == '.')
    }
}

/// Characters trimmed from both ends of a name.
pub open spec fn is_trim_char(c: char) -> bool {
    c == ' ' || c == '.' || c == '_'
}

/// `s` without its leading trim characters.
pub open spec fn trim_start(s: Seq<char>) -> Seq<char>
    decreases s.len(),
{
    if s.len() > 0 && is_trim_char(s[0]) {
        trim_start(s.drop_first())
    } else {
        s
    }
}

/// `s` without its trailing trim characters.
pub open spec fn trim_end(s: Seq<char>) -> Seq<char>
    decreases s.len(),
{
    if s.len() > 0 && is_trim_char(s.last()) {
        trim_end(s.drop_last())
    } else {
        s
    }
}

/// `s` without trim characters at either end.
pub open spec fn spec_trim(s: Seq<char>) -> Seq<char> {
    trim_end(trim_start(s))
}

/// ASCII lower case of `c`; other characters unchanged.
pub open spec fn ascii_lower(c: char) -> char {
    if 'A' <= c && c <= 'Z' {
        ((c as u32) + 32) as char
    } else {
        c
    }
}

/// Equality up to ASCII case.
pub open spec fn eq_ignore_ascii_case(a: Seq<char>, b: Seq<char>) -> bool {
    a.len() == b.len() && forall|i: int| 0 <= i < a.len() ==> ascii_lower(a[i]) == ascii_lower(b[i])
}

/// Extensions that a download keeps as they are.
pub open spec fn is_safe_extension(e: Seq<char>) -> bool {
    eq_ignore_ascii_case(e, seq!['m', 'p', '4']) || eq_ignore_ascii_case(e, seq!['w', 'e', 'b', 'm'])
        || eq_ignore_ascii_case(e, seq!['m', 'k', 'v']) || eq_ignore_ascii_case(
        e,
        seq!['m', 'o', 'v'],
    )
}

/// `i` is the position of the last `c` in `s`.
pub open spec fn is_last_index(s: Seq<char>, c: char, i: int) -> bool {
    &&& 0 <= i < s.len()
    &&& s[i] == c
    &&& forall|j: int| i < j < s.len() ==> s[j] != c
}

/// What follows the last `.` of `s`, if `s` holds a dot.
pub open spec fn extension_of(s: Seq<char>) -> Option<Seq<char>> {
    if exists|i: int| is_last_index(s, '.', i) {
        Some(s.skip((choose|i: int| is_last_index(s, '.', i)) + 1))
    } else {
        None
    }
}

/// `.mp4`.
pub open spec fn default_extension() -> Seq<char> {
    seq!['.', 'm', 'p', '4']
}

/// `video.mp4`.
pub open spec fn default_filename() -> Seq<char> {
    seq!['v', 'i', 'd', 'e', 'o', '.', 'm', 'p', '4']
}

/// `v` when it already ends in a safe media extension, else its first 116 characters followed by
/// `.mp4`.
pub open spec fn spec_ensure_media_extension(v: Seq<char>) -> Seq<char> {
    match extension_of(v) {
        Some(e) if is_safe_extension(e) => v,
        _ => take_at_most(v, STEM_LIMIT as nat) + default_extension(),
    }
}

/// The sanitised download name of `s`.
pub open spec fn spec_sanitize_filename(s: Seq<char>) -> Seq<char> {
    let trimmed = sanitized_core(s);
    if trimmed.len() == 0 {
        default_filename()
    } else {
        spec_ensure_media_extension(trimmed)
    }
}

/// `c` sanitised: kept when alphanumeric or one of space, `-`, `_`, `.`, else `_`.
pub fn sanitize_character(c: char) -> (r: char)
    ensures
        r == spec_sanitize_character(c),
{
    if char_is_alphanumeric(c) || c == ' ' || c == '-' || c == '_' || c == '.' {
        return c;
    }
    '_'
}

/// Breaks every `..` by turning its second dot into `_`.
pub fn remove_parent_markers(value: &Vec<char>) -> (r: Vec<char>)
    ensures
        r@ == spec_remove_parent_markers(value@, false),
{
    let mut cleaned: Vec<char> = Vec::new();
    let mut previous_was_dot = false;
    let mut i: usize = 0;
    assert(value@.skip(0) =~= value@);
    assert(cleaned@ + spec_remove_parent_markers(value@, false) =~= spec_remove_parent_markers(value@, false));
    while i < value.len()
        invariant
            i <= value.len(),
            cleaned@ + spec_remove_parent_markers(value@.skip(i as int), previous_was_dot)
                == spec_remove_parent_markers(value@, false),
        decreases value.len() - i,
    {
        let character = value[i];
        let ghost rest = value@.skip(i as int);
        let ghost prev_before = previous_was_dot;
        let ghost cleaned_before = cleaned@;
        assert(rest.drop_first() == value@.skip(i + 1));
        assert(rest[0] == character);
        if character == '.' && previous_was_dot {
            cleaned.push('_');
            previous_was_dot = false;
        } else {
            cleaned.push(character);
            previous_was_dot = character == '.';
        }
        proof {
            let tail = spec_remove_parent_markers(value@.skip(i + 1), previous_was_dot);
            assert(spec_remove_parent_markers(rest, prev_before) == seq![cleaned@.last()] + tail);
            assert(cleaned@ + tail =~= cleaned_before + (seq![cleaned@.last()] + tail));
        }
        i = i + 1;
    }
    assert(value@.skip(value.len() as int) =~= Seq::<char>::empty());
    cleaned
}

/// Whether `c` is trimmed from the ends of a name.
fn is_trim_character(c: char) -> (r: bool)
    ensures
        r == is_trim_char(c),
{
    c == ' ' || c == '.' || c == '_'
}

/// `v` without spaces, dots and underscores at either end.
pub fn trim_name(v: &Vec<char>) -> (r: Vec<char>)
    ensures
        r@ == spec_trim(v@),
{
    let mut start: usize = 0;
    assert(v@.skip(0) =~= v@);
    while start < v.len() && is_trim_character(v[start])
        invariant
            start <= v.len(),
            trim_start(v@) == trim_start(v@.skip(start as int)),
        decreases v.len() - start,
    {
        assert(v@.skip(start as int).drop_first() =~= v@.skip(start + 1));
        start = start + 1;
    }
    let ghost front = v@.skip(start as int);
    assert(trim_start(v@) == front) by {
        if start < v.len() {
            assert(front[0] == v@[start as int]);
        }
    }
    let mut end: usize = v.len();
    assert(front =~= v@.subrange(start as int, end as int));
    while end > start && is_trim_character(v[end - 1])
        invariant
            start <= end <= v.len(),
            trim_end(front) == trim_end(v@.subrange(start as int, end as int)),
        decreases end - start,
    {
        let ghost cur = v@.subrange(start as int, end as int);
        assert(cur.last() == v@[end - 1]);
        assert(cur.drop_last() =~= v@.subrange(start as int, end - 1));
        end = end - 1;
    }
    let r = sub_chars(v, start, end);
    assert(trim_end(r@) == r@) by {
        if r@.len() > 0 {
            assert(r@.last() == v@[end - 1]);
        }
    }
    r
}

/// Position of the last `c` in `v`.
fn rfind_char(v: &Vec<char>, c: char) -> (r: Option<usize>)
    ensures
        match r {
            Some(i) => i < v.len() && is_last_index(v@, c, i as int),
            None => forall|j: int| 0 <= j < v.len() ==> v@[j] != c,
        },
{
    let mut k: usize = v.len();
    while k > 0
        invariant
            k <= v.len(),
            forall|j: int| k <= j < v.len() ==> v@[j] != c,
        decreases k,
    {
        if v[k - 1] == c {
            return Some(k - 1);
        }
        k = k - 1;
    }
    None
}

/// There is at most one last position.
proof fn lemma_last_index_unique(s: Seq<char>, c: char, i: int, k: int)
    requires
        is_last_index(s, c, i),
        is_last_index(s, c, k),
    ensures
        i == k,
{
    if i < k {
        assert(s[k] != c);
    } else if k < i {
        assert(s[i] != c);
    }
}

/// ASCII lower case of `c`.
fn to_ascii_lower(c: char) -> (r: char)
    ensures
        r == ascii_lower(c),
{
    if 'A' <= c && c <= 'Z' {
        ((c as u32) + 32) as u8 as char
    } else {
        c
    }
}

/// Whether `a` equals the literal `b` up to ASCII case.
pub fn eq_ignore_case(a: &Vec<char>, b: &Vec<char>) -> (r: bool)
    ensures
        r == eq_ignore_ascii_case(a@, b@),
{
    if a.len() != b.len() {
        return false;
    }
    let mut i: usize = 0;
    while i < a.len()
        invariant
            i <= a.len() == b.len(),
            forall|j: int| 0 <= j < i ==> ascii_lower(a@[j]) == ascii_lower(b@[j]),
        decreases a.len() - i,
    {
        if to_ascii_lower(a[i]) != to_ascii_lower(b[i]) {
            return false;
        }
        i = i + 1;
    }
    true
}

/// Whether `e` is one of `mp4`, `webm`, `mkv`, `mov`, in any ASCII case.
fn safe_extension(e: &Vec<char>) -> (r: bool)
    ensures
        r == is_safe_extension(e@),
{
    let mp4 = vec!['m', 'p', '4'];
    let webm = vec!['w', 'e', 'b', 'm'];
    let mkv = vec!['m', 'k', 'v'];
    let mov = vec!['m', 'o', 'v'];
    assert(mp4@ =~= seq!['m', 'p', '4']);
    assert(webm@ =~= seq!['w', 'e', 'b', 'm']);
    assert(mkv@ =~= seq!['m', 'k', 'v']);
    assert(mov@ =~= seq!['m', 'o', 'v']);
    eq_ignore_case(e, &mp4) || eq_ignore_case(e, &webm) || eq_ignore_case(e, &mkv)
        || eq_ignore_case(e, &mov)
}

/// The first `n` characters of `v`, or all of them.
fn take_chars(v: &Vec<char>, n: usize) -> (r: Vec<char>)
    ensures
        r@ == take_at_most(v@, n as nat),
{
    if v.len() <= n {
        let r = sub_chars(v, 0, v.len());
        assert(r@ =~= v@);
        r
    } else {
        sub_chars(v, 0, n)
    }
}

/// Keeps a safe media extension, or cuts the stem to 116 characters and adds `.mp4`.
pub fn ensure_media_extension(value: &Vec<char>) -> (r: Vec<char>)
    ensures
        r@ == spec_ensure_media_extension(value@),
{
    let keep = match rfind_char(value, '.') {
        Some(i) => {
            let extension = sub_chars(value, i + 1, value.len());
            proof {
                let k = choose|k: int| is_last_index(value@, '.', k);
                lemma_last_index_unique(value@, '.', i as int, k);
                assert(extension@ =~= value@.skip(i + 1));
            }
            safe_extension(&extension)
        },
        None => {
            assert(!exists|k: int| is_last_index(value@, '.', k));
            false
        },
    };
    if keep {
        let r = sub_chars(value, 0, value.len());
        assert(r@ =~= value@);
        return r;
    }
    let mut stem = take_chars(value, STEM_LIMIT);
    let ghost stem0 = stem@;
    stem.push('.');
    stem.push('m');
    stem.push('p');
    stem.push('4');
    assert(stem@ =~= stem0 + default_extension());
    stem
}

/// The sanitised download name of `value`: at most 120 characters kept, each unsafe character
/// replaced by `_`, `..` broken, spaces, dots and underscores trimmed from both ends, and a safe
/// media extension ensured; `video.mp4` when nothing is left.
pub fn sanitize_filename(value: &str) -> (r: String)
    ensures
        r@ == spec_sanitize_filename(value@),
{
    let chars = chars_of(value);
    let limited = take_chars(&chars, MAX_FILENAME_CHARS);
    let mut cleaned: Vec<char> = Vec::new();
    let mut i: usize = 0;
    while i < limited.len()
        invariant
            i <= limited.len(),
            cleaned@ == limited@.take(i as int).map_values(|c: char| spec_sanitize_character(c)),
        decreases limited.len() - i,
    {
        cleaned.push(sanitize_character(limited[i]));
        assert(limited@.take(i + 1).map_values(|c: char| spec_sanitize_character(c))
            =~= limited@.take(i as int).map_values(|c: char| spec_sanitize_character(c)).push(
            spec_sanitize_character(limited@[i as int]),
        ));
        i = i + 1;
    }
    assert(limited@.take(limited.len() as int) =~= limited@);
    let without_parent_markers = remove_parent_markers(&cleaned);
    let trimmed = trim_name(&without_parent_markers);
    if trimmed.len() == 0 {
        let r = String::from_str("video.mp4");
        proof {
            reveal_strlit("video.mp4");
        }
        assert(r@ =~= default_filename());
        return r;
    }
    let named = ensure_media_extension(&trimmed);
    string_from_chars(&named)
}

/// ASCII letter or digit.
pub open spec fn is_ascii_alphanumeric(c: char) -> bool {
    ('a' <= c && c <= 'z') || ('A' <= c && c <= 'Z') || ('0' <= c && c <= '9')
}

/// `c` as it may stand in the plain ASCII `filename` parameter.
pub open spec fn ascii_fallback_character(c: char) -> char {
    if is_ascii_alphanumeric(c) || is_name_punctuation(c) {
        c
    } else {
        '_'
    }
}

/// The ASCII-only fallback name for an already sanitised name.
pub open spec fn spec_ascii_fallback(s: Seq<char>) -> Seq<char> {
    let trimmed = spec_trim(s.map_values(|c: char| ascii_fallback_character(c)));
    if trimmed.len() == 0 {
        default_filename()
    } else {
        trimmed
    }
}

/// A byte that RFC 5987 allows unescaped in an extended parameter value.
pub open spec fn spec_is_attribute_character(b: u8) -> bool {
    (97 <= b && b <= 122) || (65 <= b && b <= 90) || (48 <= b && b <= 57) || b == 33 || b == 35
        || b == 36 || b == 38 || b == 43 || b == 45 || b == 46 || b == 94 || b == 95 || b == 96
        || b == 124 || b == 126
}

/// Upper-case hexadecimal digit for `n` below sixteen.
pub open spec fn hex_digit(n: nat) -> char {
    if n < 10 {
        ((48 + n) as u32) as char
    } else {
        ((55 + n) as u32) as char
    }
}

/// One byte of an extended value: itself, or `%` and two hexadecimal digits.
pub open spec fn encode_byte(b: u8) -> Seq<char> {
    if spec_is_attribute_character(b) {
        seq![b as char]
    } else {
        seq!['%', hex_digit((b / 16) as nat), hex_digit((b % 16) as nat)]
    }
}

/// The percent-encoded extended value of the bytes `b`.
pub open spec fn spec_encode_extended_value(b: Seq<u8>) -> Seq<char>
    decreases b.len(),
{
    if b.len() == 0 {
        Seq::empty()
    } else {
        encode_byte(b[0]) + spec_encode_extended_value(b.drop_first())
    }
}

/// The `Content-Disposition` text for a download offered as `filename`.
pub open spec fn spec_attachment_content_disposition(filename: Seq<char>) -> Seq<char> {
    let sanitized = spec_sanitize_filename(filename);
    "attachment; filename=\""@ + spec_ascii_fallback(sanitized) + "\"; filename*=UTF-8''"@
        + spec_encode_extended_value(vstd::utf8::encode_utf8(sanitized))
}

/// `c` for the ASCII fallback name.
fn ascii_fallback_char(c: char) -> (r: char)
    ensures
        r == ascii_fallback_character(c),
{
    if ('a' <= c && c <= 'z') || ('A' <= c && c <= 'Z') || ('0' <= c && c <= '9') || c == ' '
        || c == '-' || c == '_' || c == '.' {
        return c;
    }
    '_'
}

/// The ASCII-only name that goes in the plain `filename` parameter.
pub fn ascii_fallback(value: &Vec<char>) -> (r: Vec<char>)
    ensures
        r@ == spec_ascii_fallback(value@),
{
    let mut mapped: Vec<char> = Vec::new();
    let mut i: usize = 0;
    while i < value.len()
        invariant
            i <= value.len(),
            mapped@ == value@.take(i as int).map_values(|c: char| ascii_fallback_character(c)),
        decreases value.len() - i,
    {
        mapped.push(ascii_fallback_char(value[i]));
        assert(value@.take(i + 1).map_values(|c: char| ascii_fallback_character(c))
            =~= value@.take(i as int).map_values(|c: char| ascii_fallback_character(c)).push(
            ascii_fallback_character(value@[i as int]),
        ));
        i = i + 1;
    }
    assert(value@.take(value.len() as int) =~= value@);
    let trimmed = trim_name(&mapped);
    if trimmed.len() == 0 {
        let r = vec!['v', 'i', 'd', 'e', 'o', '.', 'm', 'p', '4'];
        assert(r@ =~= default_filename());
        return r;
    }
    trimmed
}

/// Whether RFC 5987 allows the byte unescaped.
pub fn is_attribute_character(byte: u8) -> (r: bool)
    ensures
        r == spec_is_attribute_character(byte),
{
    (97 <= byte && byte <= 122) || (65 <= byte && byte <= 90) || (48 <= byte && byte <= 57)
        || byte == 33 || byte == 35 || byte == 36 || byte == 38 || byte == 43 || byte == 45
        || byte == 46 || byte == 94 || byte == 95 || byte == 96 || byte == 124 || byte == 126
}

/// Hexadecimal digit character for `n` below sixteen.
fn hex_char(n: u8) -> (r: char)
    requires
        n < 16,
    ensures
        r == hex_digit(n as nat),
{
    if n < 10 {
        (48u8 + n) as char
    } else {
        (55u8 + n) as char
    }
}

/// Percent-encodes the UTF-8 bytes of `value` for an RFC 5987 extended parameter.
pub fn encode_extended_value(value: &str) -> (r: Vec<char>)
    ensures
        r@ == spec_encode_extended_value(vstd::utf8::encode_utf8(value@)),
{
    let bytes = value.as_bytes();
    let ghost all = bytes@;
    let mut encoded: Vec<char> = Vec::new();
    let mut i: usize = 0;
    assert(all.skip(0) =~= all);
    while i < bytes.len()
        invariant
            i <= bytes.len(),
            bytes@ == all,
            encoded@ + spec_encode_extended_value(all.skip(i as int)) == spec_encode_extended_value(all),
        decreases bytes.len() - i,
    {
        let byte = bytes[i];
        let ghost before = encoded@;
        let ghost rest = all.skip(i as int);
        assert(rest[0] == byte);
        assert(rest.drop_first() =~= all.skip(i + 1));
        if is_attribute_character(byte) {
            encoded.push(byte as char);
        } else {
            encoded.push('%');
            encoded.push(hex_char(byte / 16));
            encoded.push(hex_char(byte % 16));
        }
        assert(encoded@ =~= before + encode_byte(byte));
        assert(encoded@ + spec_encode_extended_value(all.skip(i + 1)) =~= before + (encode_byte(byte)
            + spec_encode_extended_value(rest.drop_first())));
        i = i + 1;
    }
    assert(all.skip(bytes.len() as int) =~= Seq::<u8>::empty());
    assert(encoded@ + Seq::<char>::empty() =~= encoded@);
    encoded
}

/// The `Content-Disposition` header text for a download offered as `filename`: an ASCII
/// fallback name and the UTF-8 name percent-encoded, both taken from the sanitised name.
pub fn attachment_content_disposition(filename: &str) -> (r: String)
    ensures
        r@ == spec_attachment_content_disposition(filename@),
{
    let sanitized = sanitize_filename(filename);
    let sanitized_chars = chars_of(sanitized.as_str());
    let fallback = ascii_fallback(&sanitized_chars);
    let encoded = encode_extended_value(sanitized.as_str());
    let mut out: Vec<char> = Vec::new();
    push_str_chars(&mut out, "attachment; filename=\"");
    crate::text::push_all(&mut out, &fallback);
    push_str_chars(&mut out, "\"; filename*=UTF-8''");
    crate::text::push_all(&mut out, &encoded);
    string_from_chars(&out)
}

/// Breaking `..` keeps the length.
pub proof fn lemma_remove_parent_markers_len(s: Seq<char>, prev_dot: bool)
    ensures
        spec_remove_parent_markers(s, prev_dot).len() == s.len(),
    decreases s.len(),
{
    if s.len() > 0 {
        lemma_remove_parent_markers_len(s.drop_first(), false);
        lemma_remove_parent_markers_len(s.drop_first(), s[0] == '.');
    }
}

/// Trimming the front leaves a suffix.
pub proof fn lemma_trim_start_suffix(s: Seq<char>)
    ensures
        trim_start(s).len() <= s.len(),
        trim_start(s) == s.skip(s.len() - trim_start(s).len()),
    decreases s.len(),
{
    if s.len() > 0 && is_trim_char(s[0]) {
        lemma_trim_start_suffix(s.drop_first());
        assert(s.drop_first().skip(s.drop_first().len() - trim_start(s).len()) =~= s.skip(
            s.len() - trim_start(s).len(),
        ));
    } else {
        assert(s.skip(0) =~= s);
    }
}

/// Trimming the back leaves a prefix.
pub proof fn lemma_trim_end_prefix(s: Seq<char>)
    ensures
        trim_end(s).len() <= s.len(),
        trim_end(s) == s.take(trim_end(s).len() as int),
    decreases s.len(),
{
    if s.len() > 0 && is_trim_char(s.last()) {
        lemma_trim_end_prefix(s.drop_last());
        assert(s.drop_last().take(trim_end(s).len() as int) =~= s.take(trim_end(s).len() as int));
    } else {
        assert(s.take(s.len() as int) =~= s);
    }
}

/// Every character left after trimming was a character of the input.
pub proof fn lemma_trim_within(s: Seq<char>)
    ensures
        spec_trim(s).len() <= s.len(),
        forall|i: int| 0 <= i < spec_trim(s).len() ==> s.contains(#[trigger] spec_trim(s)[i]),
{
    lemma_trim_start_suffix(s);
    let a = trim_start(s);
    lemma_trim_end_prefix(a);
    let k = s.len() - a.len();
    assert forall|i: int| 0 <= i < spec_trim(s).len() implies s.contains(#[trigger] spec_trim(s)[i]) by {
        assert(spec_trim(s)[i] == a[i]);
        assert(a[i] == s[k + i]);
    }
}

/// A name ending in `.` and a three-letter safe extension without dots has that extension.
proof fn lemma_extension_after_last_dot(stem: Seq<char>, ext: Seq<char>)
    requires
        !ext.contains('.'),
    ensures
        extension_of(stem + seq!['.'] + ext) == Some(ext),
{
    let v = stem + seq!['.'] + ext;
    let i = stem.len() as int;
    assert(v[i] == '.');
    assert forall|j: int| i < j < v.len() implies v[j] != '.' by {
        assert(v[j] == ext[j - i - 1]);
    }
    assert(is_last_index(v, '.', i));
    let k = choose|k: int| is_last_index(v, '.', k);
    lemma_last_index_unique(v, '.', i, k);
    assert(v.skip(i + 1) =~= ext);
}

/// Law: a sanitised download name is never empty, has at most `MAX_FILENAME_CHARS` characters,
/// and ends in a safe media extension.
pub proof fn lemma_sanitized_filename_shape(s: Seq<char>)
    ensures
        1 <= spec_sanitize_filename(s).len() <= MAX_FILENAME_CHARS,
        extension_of(spec_sanitize_filename(s)) matches Some(e) && is_safe_extension(e),
{
    let cleaned = take_at_most(s, MAX_FILENAME_CHARS as nat).map_values(
        |c: char| spec_sanitize_character(c),
    );
    let w = spec_remove_parent_markers(cleaned, false);
    lemma_remove_parent_markers_len(cleaned, false);
    lemma_trim_within(w);
    let t = spec_trim(w);
    let mp4 = seq!['m', 'p', '4'];
    assert(is_safe_extension(mp4)) by {
        assert(eq_ignore_ascii_case(mp4, seq!['m', 'p', '4']));
    }
    assert(!mp4.contains('.')) by {
        assert forall|j: int| 0 <= j < mp4.len() implies mp4[j] != '.' by {}
    }
    if t.len() == 0 {
        assert(default_filename() =~= seq!['v', 'i', 'd', 'e', 'o'] + seq!['.'] + mp4);
        lemma_extension_after_last_dot(seq!['v', 'i', 'd', 'e', 'o'], mp4);
    } else {
        match extension_of(t) {
            Some(e) if is_safe_extension(e) => {},
            _ => {
                let stem = take_at_most(t, STEM_LIMIT as nat);
                assert(stem + default_extension() =~= stem + seq!['.'] + mp4);
                lemma_extension_after_last_dot(stem, mp4);
            },
        }
    }
}

/// `c` comes through sanitising unchanged.
pub open spec fn is_kept_character(c: char) -> bool {
    spec_is_alphanumeric(c) || is_name_punctuation(c)
}

/// Every character of `s` comes through sanitising unchanged.
pub open spec fn all_kept(s: Seq<char>) -> bool {
    forall|i: int| 0 <= i < s.len() ==> is_kept_character(#[trigger] s[i])
}

/// No two dots stand side by side in `s`.
pub open spec fn no_double_dot(s: Seq<char>) -> bool {
    forall|i: int, j: int|
        0 <= i && j == i + 1 && j < s.len() ==> !(#[trigger] s[i] == '.' && #[trigger] s[j] == '.')
}

/// Whether the last character that breaking `..` in `s` kept was a dot, starting from `prev_dot`.
pub open spec fn parent_marker_state(s: Seq<char>, prev_dot: bool) -> bool
    decreases s.len(),
{
    if s.len() == 0 {
        prev_dot
    } else if s[0] == '.' && prev_dot {
        parent_marker_state(s.drop_first(), false)
    } else {
        parent_marker_state(s.drop_first(), s[0] == '.')
    }
}

/// Breaking `..` keeps each character or turns it into `_`, leaves no two dots side by side, and
/// never starts with a dot after a kept dot.
proof fn lemma_remove_parent_markers_shape(s: Seq<char>, prev_dot: bool)
    ensures
        spec_remove_parent_markers(s, prev_dot).len() == s.len(),
        forall|i: int| 0 <= i < s.len() ==> #[trigger] spec_remove_parent_markers(s, prev_dot)[i] == s[i]
            || spec_remove_parent_markers(s, prev_dot)[i] == '_',
        no_double_dot(spec_remove_parent_markers(s, prev_dot)),
        prev_dot && s.len() > 0 ==> spec_remove_parent_markers(s, prev_dot)[0] != '.',
    decreases s.len(),
{
    if s.len() > 0 {
        let tail = s.drop_first();
        let r = spec_remove_parent_markers(s, prev_dot);
        let next = if s[0] == '.' && prev_dot { false } else { s[0] == '.' };
        lemma_remove_parent_markers_shape(tail, next);
        let rest = spec_remove_parent_markers(tail, next);
        assert(r == seq![r[0]] + rest);
        assert forall|i: int| 0 <= i < s.len() implies #[trigger] r[i] == s[i] || r[i] == '_' by {
            if i > 0 {
                assert(r[i] == rest[i - 1]);
                assert(tail[i - 1] == s[i]);
            }
        }
        assert forall|i: int, j: int| 0 <= i && j == i + 1 && j < r.len() implies !(#[trigger] r[i] == '.'
            && #[trigger] r[j] == '.') by {
            if i > 0 {
                assert(r[i] == rest[i - 1] && r[j] == rest[j - 1]);
            } else {
                assert(r[j] == rest[0]);
            }
        }
    }
}

/// Breaking `..` leaves alone a text without two dots side by side that does not start with a dot
/// after a kept dot, and ends in the state its last character gives.
proof fn lemma_remove_parent_markers_fixed(s: Seq<char>, prev_dot: bool)
    requires
        no_double_dot(s),
        !(prev_dot && s.len() > 0 && s[0] == '.'),
    ensures
        spec_remove_parent_markers(s, prev_dot) == s,
        parent_marker_state(s, prev_dot) == if s.len() == 0 { prev_dot } else { s.last() == '.' },
    decreases s.len(),
{
    if s.len() > 0 {
        let tail = s.drop_first();
        assert forall|i: int, j: int| 0 <= i && j == i + 1 && j < tail.len() implies !(#[trigger] tail[i] == '.'
            && #[trigger] tail[j] == '.') by {
            assert(tail[i] == s[i + 1] && tail[j] == s[j + 1]);
        }
        if tail.len() > 0 {
            assert(tail[0] == s[1]);
        }
        lemma_remove_parent_markers_fixed(tail, s[0] == '.');
        assert(s == seq![s[0]] + tail);
        if tail.len() > 0 {
            assert(tail.last() == s.last());
        }
    }
}

/// Breaking `..` in `a + b` breaks it in `a`, then in `b` from the state `a` ends in.
proof fn lemma_remove_parent_markers_concat(a: Seq<char>, b: Seq<char>, prev_dot: bool)
    ensures
        spec_remove_parent_markers(a + b, prev_dot) == spec_remove_parent_markers(a, prev_dot)
            + spec_remove_parent_markers(b, parent_marker_state(a, prev_dot)),
    decreases a.len(),
{
    if a.len() == 0 {
        assert(a + b =~= b);
    } else {
        let next = if a[0] == '.' && prev_dot { false } else { a[0] == '.' };
        lemma_remove_parent_markers_concat(a.drop_first(), b, next);
        assert((a + b).drop_first() =~= a.drop_first() + b);
        assert((a + b)[0] == a[0]);
    }
}

/// Trimming the front leaves no trim character in front.
proof fn lemma_trim_start_head(s: Seq<char>)
    ensures
        trim_start(s).len() > 0 ==> !is_trim_char(trim_start(s)[0]),
    decreases s.len(),
{
    if s.len() > 0 && is_trim_char(s[0]) {
        lemma_trim_start_head(s.drop_first());
    }
}

/// Trimming the back leaves no trim character at the back.
proof fn lemma_trim_end_last(s: Seq<char>)
    ensures
        trim_end(s).len() > 0 ==> !is_trim_char(trim_end(s).last()),
    decreases s.len(),
{
    if s.len() > 0 && is_trim_char(s.last()) {
        lemma_trim_end_last(s.drop_last());
    }
}

/// A trimmed text is a run of the input with no trim character at either end.
proof fn lemma_trim_run(s: Seq<char>)
    ensures
        exists|k: int| 0 <= k && k + spec_trim(s).len() <= s.len() && #[trigger] s.subrange(k, k + spec_trim(s).len()) == spec_trim(s),
        spec_trim(s).len() > 0 ==> !is_trim_char(spec_trim(s)[0]) && !is_trim_char(spec_trim(s).last()),
{
    lemma_trim_start_suffix(s);
    let a = trim_start(s);
    lemma_trim_end_prefix(a);
    lemma_trim_start_head(s);
    lemma_trim_end_last(a);
    let t = spec_trim(s);
    let k = s.len() - a.len();
    assert(s.subrange(k, k + t.len()) =~= t);
    if t.len() > 0 {
        assert(t[0] == a[0]);
    }
}

/// Trimming leaves alone a non-empty text with no trim character at either end.
proof fn lemma_trim_fixed(s: Seq<char>)
    requires
        s.len() > 0,
        !is_trim_char(s[0]),
        !is_trim_char(s.last()),
    ensures
        spec_trim(s) == s,
{
}

/// A run of a text keeps what holds of each character and of each neighbouring pair.
proof fn lemma_run_keeps(s: Seq<char>, k: int, n: int)
    requires
        0 <= k,
        0 <= n,
        k + n <= s.len(),
        all_kept(s),
        no_double_dot(s),
    ensures
        all_kept(s.subrange(k, k + n)),
        no_double_dot(s.subrange(k, k + n)),
{
    let r = s.subrange(k, k + n);
    assert forall|i: int| 0 <= i < r.len() implies is_kept_character(#[trigger] r[i]) by {
        assert(r[i] == s[k + i]);
    }
    assert forall|i: int, j: int| 0 <= i && j == i + 1 && j < r.len() implies !(#[trigger] r[i] == '.'
        && #[trigger] r[j] == '.') by {
        assert(r[i] == s[k + i] && r[j] == s[k + j]);
    }
}

/// A name that is short enough, made of kept characters, without `..`, without trim characters at
/// either end and with a safe media extension comes through sanitising unchanged.
proof fn lemma_sanitize_fixed(y: Seq<char>)
    requires
        0 < y.len() <= MAX_FILENAME_CHARS,
        all_kept(y),
        no_double_dot(y),
        !is_trim_char(y[0]),
        !is_trim_char(y.last()),
        extension_of(y) matches Some(e) && is_safe_extension(e),
    ensures
        spec_sanitize_filename(y) == y,
{
    let cleaned = take_at_most(y, MAX_FILENAME_CHARS as nat).map_values(|c: char| spec_sanitize_character(c));
    assert(cleaned =~= y) by {
        assert forall|i: int| 0 <= i < y.len() implies cleaned[i] == y[i] by {
            assert(is_kept_character(y[i]));
        }
    }
    lemma_remove_parent_markers_fixed(y, false);
    lemma_trim_fixed(y);
}

/// The name `video.mp4`, and any name `stem.mp4`, has the extension `mp4`.
proof fn lemma_mp4_safe(stem: Seq<char>)
    ensures
        extension_of(stem + default_extension()) == Some(seq!['m', 'p', '4']),
        is_safe_extension(seq!['m', 'p', '4']),
{
    let mp4 = seq!['m', 'p', '4'];
    assert(eq_ignore_ascii_case(mp4, seq!['m', 'p', '4']));
    assert(!mp4.contains('.')) by {
        assert forall|j: int| 0 <= j < mp4.len() implies mp4[j] != '.' by {}
    }
    assert(stem + default_extension() =~= stem + seq!['.'] + mp4);
    lemma_extension_after_last_dot(stem, mp4);
}

/// What is left of `s` once it is cut, cleaned, rid of `..` and trimmed.
pub open spec fn sanitized_core(s: Seq<char>) -> Seq<char> {
    spec_trim(spec_remove_parent_markers(
        take_at_most(s, MAX_FILENAME_CHARS as nat).map_values(|c: char| spec_sanitize_character(c)),
        false,
    ))
}

/// What is left after cleaning is made of kept characters, holds no `..`, and has no trim
/// character at either end.
proof fn lemma_core_shape(s: Seq<char>)
    ensures
        all_kept(sanitized_core(s)),
        no_double_dot(sanitized_core(s)),
        sanitized_core(s).len() > 0 ==> !is_trim_char(sanitized_core(s)[0]) && !is_trim_char(
            sanitized_core(s).last(),
        ),
{
    let limited = take_at_most(s, MAX_FILENAME_CHARS as nat);
    let cleaned = limited.map_values(|c: char| spec_sanitize_character(c));
    let w = spec_remove_parent_markers(cleaned, false);
    let t = spec_trim(w);
    assert(all_kept(cleaned)) by {
        assert forall|i: int| 0 <= i < cleaned.len() implies is_kept_character(#[trigger] cleaned[i]) by {
            assert(cleaned[i] == spec_sanitize_character(limited[i]));
        }
    }
    lemma_remove_parent_markers_shape(cleaned, false);
    assert(all_kept(w)) by {
        assert forall|i: int| 0 <= i < w.len() implies is_kept_character(#[trigger] w[i]) by {
            assert(w[i] == cleaned[i] || w[i] == '_');
        }
    }
    lemma_trim_run(w);
    let k = choose|k: int| 0 <= k && k + t.len() <= w.len() && #[trigger] w.subrange(k, k + t.len()) == t;
    lemma_run_keeps(w, k, t.len() as int);
}

/// `video.mp4` comes through sanitising unchanged.
proof fn lemma_default_name_fixed()
    ensures
        spec_sanitize_filename(default_filename()) == default_filename(),
{
    let y = default_filename();
    let video = seq!['v', 'i', 'd', 'e', 'o'];
    lemma_mp4_safe(video);
    assert(video + default_extension() =~= y);
    assert(all_kept(y)) by {
        assert forall|i: int| 0 <= i < y.len() implies is_kept_character(#[trigger] y[i]) by {
            assert(0 <= i < 9);
        }
    }
    assert(no_double_dot(y)) by {
        assert forall|i: int, j: int| 0 <= i && j == i + 1 && j < y.len() implies !(#[trigger] y[i] == '.'
            && #[trigger] y[j] == '.') by {
            assert(0 <= i < 8);
        }
    }
    lemma_sanitize_fixed(y);
}

/// A stem of kept characters without `..` that starts with no trim character and does not end
/// in a dot, followed by `.mp4`, comes through sanitising unchanged.
proof fn lemma_stem_name_fixed(stem: Seq<char>)
    requires
        0 < stem.len() <= STEM_LIMIT,
        all_kept(stem),
        no_double_dot(stem),
        !is_trim_char(stem[0]),
        stem.last() != '.',
    ensures
        spec_sanitize_filename(stem + default_extension()) == stem + default_extension(),
{
    let y = stem + default_extension();
    let ext = default_extension();
    lemma_mp4_safe(stem);
    assert(all_kept(y)) by {
        assert forall|i: int| 0 <= i < y.len() implies is_kept_character(#[trigger] y[i]) by {
            if i < stem.len() {
                assert(y[i] == stem[i]);
            } else {
                assert(y[i] == ext[i - stem.len()]);
            }
        }
    }
    assert(no_double_dot(y)) by {
        assert forall|i: int, j: int| 0 <= i && j == i + 1 && j < y.len() implies !(#[trigger] y[i] == '.'
            && #[trigger] y[j] == '.') by {
            if j < stem.len() {
                assert(y[i] == stem[i] && y[j] == stem[j]);
            } else if i < stem.len() {
                assert(y[i] == stem.last());
            } else {
                assert(y[j] == ext[j - stem.len()]);
            }
        }
    }
    assert(y[0] == stem[0]);
    lemma_sanitize_fixed(y);
}

/// A full-length stem of kept characters without `..` that starts with no trim character and ends
/// in a dot, followed by `.mp4`, comes through sanitising unchanged: the second pass breaks the
/// added dot and then cuts the same stem again.
proof fn lemma_dotted_stem_name_fixed(stem: Seq<char>)
    requires
        stem.len() == STEM_LIMIT,
        all_kept(stem),
        no_double_dot(stem),
        !is_trim_char(stem[0]),
        stem.last() == '.',
    ensures
        spec_sanitize_filename(stem + default_extension()) == stem + default_extension(),
{
    let y = stem + default_extension();
    let ext = default_extension();
    let mp4 = seq!['m', 'p', '4'];
    let broken = seq!['_', 'm', 'p', '4'];
    assert(take_at_most(y, MAX_FILENAME_CHARS as nat) == y);
    assert(y.map_values(|c: char| spec_sanitize_character(c)) =~= y) by {
        assert forall|i: int| 0 <= i < y.len() implies spec_sanitize_character(y[i]) == y[i] by {
            if i < stem.len() {
                assert(y[i] == stem[i]);
                assert(is_kept_character(stem[i]));
            } else {
                assert(y[i] == ext[i - stem.len()]);
            }
        }
    }
    lemma_remove_parent_markers_concat(stem, ext, false);
    lemma_remove_parent_markers_fixed(stem, false);
    assert(spec_remove_parent_markers(ext, true) =~= broken) by {
        reveal_with_fuel(spec_remove_parent_markers, 5);
        assert(ext.drop_first() =~= mp4);
        assert(mp4.drop_first() =~= seq!['p', '4']);
        assert(seq!['p', '4'].drop_first() =~= seq!['4']);
        assert(seq!['4'].drop_first() =~= Seq::<char>::empty());
    }
    let y2 = stem + broken;
    assert(spec_remove_parent_markers(y, false) == y2);
    assert(y2[0] == stem[0]);
    lemma_trim_fixed(y2);
    assert(!broken.contains('.')) by {
        assert forall|j: int| 0 <= j < broken.len() implies broken[j] != '.' by {}
    }
    assert(y2 =~= stem.drop_last() + seq!['.'] + broken);
    lemma_extension_after_last_dot(stem.drop_last(), broken);
    assert(!is_safe_extension(broken)) by {
        assert(ascii_lower(broken[0]) != ascii_lower('w'));
    }
    assert(take_at_most(y2, STEM_LIMIT as nat) =~= stem);
}

/// Law: sanitising a sanitised download name gives it back unchanged.
pub proof fn lemma_sanitize_filename_idempotent(s: Seq<char>)
    ensures
        spec_sanitize_filename(spec_sanitize_filename(s)) == spec_sanitize_filename(s),
{
    let t = sanitized_core(s);
    let y = spec_sanitize_filename(s);
    lemma_core_shape(s);
    if t.len() == 0 {
        lemma_default_name_fixed();
    } else {
        match extension_of(t) {
            Some(e) if is_safe_extension(e) => {
                lemma_sanitized_filename_shape(s);
                lemma_sanitize_fixed(y);
            },
            _ => {
                let stem = take_at_most(t, STEM_LIMIT as nat);
                assert(y == stem + default_extension());
                lemma_run_keeps(t, 0, stem.len() as int);
                assert(t.subrange(0, stem.len() as int) =~= stem);
                assert(stem[0] == t[0]);
                if stem.last() != '.' {
                    lemma_stem_name_fixed(stem);
                } else {
                    assert(stem.len() == STEM_LIMIT) by {
                        if t.len() <= STEM_LIMIT {
                            assert(stem == t);
                        }
                    }
                    lemma_dotted_stem_name_fixed(stem);
                }
            },
        }
    }
}

/// The value of an upper-case hexadecimal digit character: `0` to `9` are worth 0 to 9 and `A`
/// to `F` are worth 10 to 15; any other character is no digit.
pub open spec fn hex_digit_value(c: char) -> Option<nat> {
    if '0' <= c && c <= '9' {
        Some((c as int - '0' as int) as nat)
    } else if 'A' <= c && c <= 'F' {
        Some((c as int - 'A' as int + 10) as nat)
    } else {
        None
    }
}

/// Percent-decoding of an extended parameter value: `%` and two upper-case hexadecimal digits
/// stand for the byte they spell, any other ASCII character for its own byte; anything else does
/// not decode.
pub open spec fn percent_decode(s: Seq<char>) -> Option<Seq<u8>>
    decreases s.len(),
{
    if s.len() == 0 {
        Some(Seq::empty())
    } else if s[0] == '%' {
        if s.len() >= 3 && hex_digit_value(s[1]) is Some && hex_digit_value(s[2]) is Some {
            match percent_decode(s.skip(3)) {
                Some(rest) => Some(
                    seq![(hex_digit_value(s[1])->0 * 16 + hex_digit_value(s[2])->0) as u8] + rest,
                ),
                None => None,
            }
        } else {
            None
        }
    } else if (s[0] as int) < 128 {
        match percent_decode(s.drop_first()) {
            Some(rest) => Some(seq![(s[0] as int) as u8] + rest),
            None => None,
        }
    } else {
        None
    }
}

/// The digit written for each value below sixteen reads back as that value.
proof fn lemma_hex_digit_reads_back(n: nat)
    requires
        n < 16,
    ensures
        hex_digit_value(hex_digit(n)) == Some(n),
{
    if n < 10 {
        assert(hex_digit(n) as int == 48 + n);
    } else {
        assert(hex_digit(n) as int == 55 + n);
    }
}

/// Law: percent-decoding the extended value written for a byte string gives back exactly those
/// bytes: each byte that is not an RFC 5987 attribute character is written as `%` and the two
/// upper-case hexadecimal digits of its high and low half, the others as themselves.
pub proof fn lemma_extended_value_decodes(b: Seq<u8>)
    ensures
        percent_decode(spec_encode_extended_value(b)) == Some(b),
    decreases b.len(),
{
    if b.len() > 0 {
        let b0 = b[0];
        let rest = b.drop_first();
        let e = spec_encode_extended_value(b);
        let tail = spec_encode_extended_value(rest);
        lemma_extended_value_decodes(rest);
        if spec_is_attribute_character(b0) {
            assert(e == seq![b0 as char] + tail);
            assert((b0 as char) as int == b0);
            assert(e[0] == b0 as char);
            assert(e.drop_first() =~= tail);
            assert(seq![b0] + rest =~= b);
        } else {
            let hi = (b0 / 16) as nat;
            let lo = (b0 % 16) as nat;
            lemma_hex_digit_reads_back(hi);
            lemma_hex_digit_reads_back(lo);
            assert(e == seq!['%', hex_digit(hi), hex_digit(lo)] + tail);
            assert(e[0] == '%' && e[1] == hex_digit(hi) && e[2] == hex_digit(lo));
            assert(e.skip(3) =~= tail);
            assert(hi * 16 + lo == b0);
            assert(seq![b0] + rest =~= b);
        }
    }
}

/// Law: the `filename*` value of the attachment header percent-decodes to the UTF-8 bytes of the
/// sanitised name.
pub proof fn lemma_content_disposition_names_the_file(filename: Seq<char>)
    ensures
        spec_attachment_content_disposition(filename) == "attachment; filename=\""@ + spec_ascii_fallback(
            spec_sanitize_filename(filename),
        ) + "\"; filename*=UTF-8''"@ + spec_encode_extended_value(vstd::utf8::encode_utf8(spec_sanitize_filename(filename))),
        percent_decode(spec_encode_extended_value(vstd::utf8::encode_utf8(spec_sanitize_filename(filename))))
            == Some(vstd::utf8::encode_utf8(spec_sanitize_filename(filename))),
{
    lemma_extended_value_decodes(vstd::utf8::encode_utf8(spec_sanitize_filename(filename)));
}

/// Law: the bytes written as themselves in an extended value are exactly RFC 5987's
/// `attr-char`: ASCII letters and digits and the marks ``!#$&+-.^_`|~``.
pub proof fn lemma_attribute_characters(b: u8)
    ensures
        spec_is_attribute_character(b) <==> is_ascii_alphanumeric(b as char)
            || "!#$&+-.^_`|~"@.contains(b as char),
{
    reveal_strlit("!#$&+-.^_`|~");
    let marks = "!#$&+-.^_`|~"@;
    assert(marks =~= seq!['!', '#', '$', '&', '+', '-', '.', '^', '_', '`', '|', '~']);
    if marks.contains(b as char) {
        let i = choose|i: int| 0 <= i < marks.len() && marks[i] == b as char;
        assert(0 <= i < 12);
    }
    if b == 33 { assert(marks[0] == b as char); }
    if b == 35 { assert(marks[1] == b as char); }
    if b == 36 { assert(marks[2] == b as char); }
    if b == 38 { assert(marks[3] == b as char); }
    if b == 43 { assert(marks[4] == b as char); }
    if b == 45 { assert(marks[5] == b as char); }
    if b == 46 { assert(marks[6] == b as char); }
    if b == 94 { assert(marks[7] == b as char); }
    if b == 95 { assert(marks[8] == b as char); }
    if b == 96 { assert(marks[9] == b as char); }
    if b == 124 { assert(marks[10] == b as char); }
    if b == 126 { assert(marks[11] == b as char); }
}

/// Characters that a header value carries as visible ASCII.
pub open spec fn is_visible_ascii(c: char) -> bool {
    ' ' <= c && c <= '~'
}

/// Every character of an encoded extended value is visible ASCII.
proof fn lemma_encoded_visible(b: Seq<u8>)
    ensures
        forall|i: int| 0 <= i < spec_encode_extended_value(b).len() ==> is_visible_ascii(
            #[trigger] spec_encode_extended_value(b)[i],
        ),
    decreases b.len(),
{
    if b.len() > 0 {
        lemma_encoded_visible(b.drop_first());
        let head = encode_byte(b[0]);
        let tail = spec_encode_extended_value(b.drop_first());
        assert forall|i: int| 0 <= i < head.len() implies is_visible_ascii(#[trigger] head[i]) by {
            if !spec_is_attribute_character(b[0]) {
                assert(b[0] / 16 < 16);
                assert(b[0] % 16 < 16);
            }
        }
        assert forall|i: int| 0 <= i < (head + tail).len() implies is_visible_ascii(
            #[trigger] (head + tail)[i],
        ) by {
            if i < head.len() {
                assert((head + tail)[i] == head[i]);
            } else {
                assert((head + tail)[i] == tail[i - head.len()]);
            }
        }
    }
}

/// Every character of an ASCII fallback name is visible ASCII.
proof fn lemma_fallback_visible(s: Seq<char>)
    ensures
        forall|i: int| 0 <= i < spec_ascii_fallback(s).len() ==> is_visible_ascii(
            #[trigger] spec_ascii_fallback(s)[i],
        ),
{
    let mapped = s.map_values(|c: char| ascii_fallback_character(c));
    lemma_trim_within(mapped);
    assert forall|i: int| 0 <= i < mapped.len() implies is_visible_ascii(#[trigger] mapped[i]) by {}
    let t = spec_trim(mapped);
    assert forall|i: int| 0 <= i < t.len() implies is_visible_ascii(#[trigger] t[i]) by {
        assert(mapped.contains(t[i]));
    }
    let d = default_filename();
    assert forall|i: int| 0 <= i < d.len() implies is_visible_ascii(#[trigger] d[i]) by {}
}

/// Law: the `Content-Disposition` text is visible ASCII only, so it is always a valid header
/// value.
pub proof fn lemma_content_disposition_visible_ascii(filename: Seq<char>)
    ensures
        forall|i: int| 0 <= i < spec_attachment_content_disposition(filename).len()
            ==> is_visible_ascii(#[trigger] spec_attachment_content_disposition(filename)[i]),
{
    let sanitized = spec_sanitize_filename(filename);
    let a = "attachment; filename=\""@;
    let f = spec_ascii_fallback(sanitized);
    let b = "\"; filename*=UTF-8''"@;
    let e = spec_encode_extended_value(vstd::utf8::encode_utf8(sanitized));
    reveal_strlit("attachment; filename=\"");
    reveal_strlit("\"; filename*=UTF-8''");
    lemma_fallback_visible(sanitized);
    lemma_encoded_visible(vstd::utf8::encode_utf8(sanitized));
    let all = a + f + b + e;
    assert forall|i: int| 0 <= i < all.len() implies is_visible_ascii(#[trigger] all[i]) by {
        if i < a.len() {
            assert(all[i] == a[i]);
        } else if i < a.len() + f.len() {
            assert(all[i] == f[i - a.len()]);
        } else if i < a.len() + f.len() + b.len() {
            assert(all[i] == b[i - a.len() - f.len()]);
        } else {
            assert(all[i] == e[i - a.len() - f.len() - b.len()]);
        }
    }
}

} // verus!
