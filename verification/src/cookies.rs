//! Reading the `Cookie` request header and writing `Set-Cookie` values.

use vstd::prelude::*;
use vstd::string::StrSliceExecFns;
use crate::text::{
    chars_of, decimal_string, is_first_index, lemma_split_once_at_boundary, first_index, lemma_first_index_is, lemma_first_index_none,
    push_decimal, push_str_chars, split_once, string_from_chars,
};

verus! {

/// The `SameSite` attribute of a cookie.
#[derive(Debug, Clone, Copy, PartialEq, Eq)]
pub enum SameSite {
    Lax,
    Strict,
}

/// How a cookie is written.
pub struct CookieOptions<'a> {
    pub name: &'a str,
    pub secure: bool,
    pub same_site: SameSite,
    pub max_age_seconds: Option<i64>,
}

/// Whether Unicode gives `c` the White_Space property: tab through carriage return, space,
/// next line, no-break space, the Ogham space mark, the spaces from en quad to hair space, the
/// line and paragraph separators, the narrow no-break space, the medium mathematical space and
/// the ideographic space.
pub open spec fn unicode_whitespace(c: char) -> bool {
    ||| ('\u{9}' <= c && c <= '\u{d}')
    ||| c == ' '
    ||| c == '\u{85}'
    ||| c == '\u{a0}'
    ||| c == '\u{1680}'
    ||| ('\u{2000}' <= c && c <= '\u{200a}')
    ||| c == '\u{2028}'
    ||| c == '\u{2029}'
    ||| c == '\u{202f}'
    ||| c == '\u{205f}'
    ||| c == '\u{3000}'
}

/// std `char::is_whitespace`: whether `c` has the Unicode White_Space property, the code points
/// that `unicode_whitespace` lists.
#[verifier::external_body]
fn char_is_whitespace(c: char) -> (r: bool)
    ensures
        r == unicode_whitespace(c),
{
    c.is_whitespace()
}

/// `s` without leading white space.
pub open spec fn trim_ws_start(s: Seq<char>) -> Seq<char>
    decreases s.len(),
{
    if s.len() > 0 && unicode_whitespace(s[0]) {
        trim_ws_start(s.drop_first())
    } else {
        s
    }
}

/// `s` without trailing white space.
pub open spec fn trim_ws_end(s: Seq<char>) -> Seq<char>
    decreases s.len(),
{
    if s.len() > 0 && unicode_whitespace(s.last()) {
        trim_ws_end(s.drop_last())
    } else {
        s
    }
}

/// `s` without white space at either end (std `str::trim`).
pub open spec fn trim_ws(s: Seq<char>) -> Seq<char> {
    trim_ws_end(trim_ws_start(s))
}

/// A cookie value that this server issues and accepts: non-empty ASCII letters, digits, `-`,
/// `_` and `.`.
pub open spec fn spec_valid_cookie_value(v: Seq<char>) -> bool {
    v.len() > 0 && forall|i: int|
        0 <= i < v.len() ==> {
            let c = #[trigger] v[i];
            ('a' <= c && c <= 'z') || ('A' <= c && c <= 'Z') || ('0' <= c && c <= '9') || c == '-'
                || c == '_' || c == '.'
        }
}

/// The value of one `name=value` segment when its name is `name` and its value is valid.
pub open spec fn cookie_part_value(part: Seq<char>, name: Seq<char>) -> Option<Seq<char>> {
    match split_once(trim_ws(part), '=') {
        Some((n, v)) => if n == name && spec_valid_cookie_value(v) {
            Some(v)
        } else {
            None
        },
        None => None,
    }
}

/// The first valid value for `name` among the `;`-separated segments of `header`.
pub open spec fn spec_read_cookie(header: Seq<char>, name: Seq<char>) -> Option<Seq<char>>
    decreases header.len(),
{
    match first_index(header, ';') {
        None => cookie_part_value(header, name),
        Some(i) => match cookie_part_value(header.take(i), name) {
            Some(v) => Some(v),
            None => if 0 <= i < header.len() {
                spec_read_cookie(header.skip(i + 1), name)
            } else {
                None
            },
        },
    }
}

/// Bounds `(a, b)` within `[from, to)` such that `v[a..b]` is `v[from..to]` trimmed.
pub fn trim_bounds(v: &Vec<char>, from: usize, to: usize) -> (r: (usize, usize))
    requires
        from <= to <= v.len(),
    ensures
        from <= r.0 <= r.1 <= to,
        v@.subrange(r.0 as int, r.1 as int) == trim_ws(v@.subrange(from as int, to as int)),
{
    let ghost whole = v@.subrange(from as int, to as int);
    let mut a: usize = from;
    while a < to && char_is_whitespace(v[a])
        invariant
            from <= a <= to <= v.len(),
            trim_ws_start(whole) == trim_ws_start(v@.subrange(a as int, to as int)),
        decreases to - a,
    {
        assert(v@.subrange(a as int, to as int).drop_first() =~= v@.subrange(a + 1, to as int));
        a = a + 1;
    }
    let ghost front = v@.subrange(a as int, to as int);
    assert(trim_ws_start(whole) == front) by {
        if a < to {
            assert(front[0] == v@[a as int]);
        }
    }
    let mut b: usize = to;
    while b > a && char_is_whitespace(v[b - 1])
        invariant
            from <= a <= b <= to <= v.len(),
            trim_ws_end(front) == trim_ws_end(v@.subrange(a as int, b as int)),
        decreases b - a,
    {
        assert(v@.subrange(a as int, b as int).drop_last() =~= v@.subrange(a as int, b - 1));
        b = b - 1;
    }
    assert(trim_ws_end(v@.subrange(a as int, b as int)) == v@.subrange(a as int, b as int)) by {
        if b > a {
            assert(v@.subrange(a as int, b as int).last() == v@[b - 1]);
        }
    }
    (a, b)
}

/// Whether `v[from..to]` is a valid cookie value.
fn valid_cookie_range(v: &Vec<char>, from: usize, to: usize) -> (r: bool)
    requires
        from <= to <= v.len(),
    ensures
        r == spec_valid_cookie_value(v@.subrange(from as int, to as int)),
{
    if from == to {
        return false;
    }
    let mut i: usize = from;
    while i < to
        invariant
            from <= i <= to <= v.len(),
            forall|j: int|
                from <= j < i ==> {
                    let c = #[trigger] v@[j];
                    ('a' <= c && c <= 'z') || ('A' <= c && c <= 'Z') || ('0' <= c && c <= '9')
                        || c == '-' || c == '_' || c == '.'
                },
        decreases to - i,
    {
        let c = v[i];
        if !(('a' <= c && c <= 'z') || ('A' <= c && c <= 'Z') || ('0' <= c && c <= '9') || c == '-'
            || c == '_' || c == '.') {
            assert(v@.subrange(from as int, to as int)[i - from] == c);
            return false;
        }
        i = i + 1;
    }
    assert forall|k: int| 0 <= k < v@.subrange(from as int, to as int).len() implies {
        let c = #[trigger] v@.subrange(from as int, to as int)[k];
        ('a' <= c && c <= 'z') || ('A' <= c && c <= 'Z') || ('0' <= c && c <= '9') || c == '-'
            || c == '_' || c == '.'
    } by {
        assert(v@.subrange(from as int, to as int)[k] == v@[from + k]);
    }
    true
}

/// Whether `v[from..to]` equals `w`.
pub fn range_eq(v: &Vec<char>, from: usize, to: usize, w: &Vec<char>) -> (r: bool)
    requires
        from <= to <= v.len(),
    ensures
        r == (v@.subrange(from as int, to as int) == w@),
{
    if to - from != w.len() {
        return false;
    }
    let mut i: usize = 0;
    while i < w.len()
        invariant
            i <= w.len() == to - from,
            to <= v.len(),
            forall|j: int| 0 <= j < i ==> v@[from + j] == w@[j],
        decreases w.len() - i,
    {
        if v[from + i] != w[i] {
            assert(v@.subrange(from as int, to as int)[i as int] != w@[i as int]);
            return false;
        }
        i = i + 1;
    }
    assert(v@.subrange(from as int, to as int) =~= w@);
    true
}

/// Position of the first `c` in `v[from..to]`, counted from the start of `v`.
pub fn find_in(v: &Vec<char>, from: usize, to: usize, c: char) -> (r: Option<usize>)
    requires
        from <= to <= v.len(),
    ensures
        match r {
            Some(i) => from <= i < to && first_index(v@.subrange(from as int, to as int), c) == Some(
                i - from,
            ),
            None => first_index(v@.subrange(from as int, to as int), c) is None,
        },
{
    let ghost s = v@.subrange(from as int, to as int);
    let mut i: usize = from;
    while i < to
        invariant
            from <= i <= to <= v.len(),
            s == v@.subrange(from as int, to as int),
            forall|j: int| 0 <= j < i - from ==> s[j] != c,
        decreases to - i,
    {
        if v[i] == c {
            proof {
                lemma_first_index_is(s, c, i - from);
            }
            return Some(i);
        }
        i = i + 1;
    }
    proof {
        lemma_first_index_none(s, c);
    }
    None
}

/// The segment `v[from..to]` read as `name=value`: the bounds of the value when the name is
/// `name` and the value is valid.
fn part_value(v: &Vec<char>, from: usize, to: usize, name: &Vec<char>) -> (r: Option<(usize, usize)>)
    requires
        from <= to <= v.len(),
    ensures
        match r {
            Some((a, b)) => a <= b <= v.len() && cookie_part_value(
                v@.subrange(from as int, to as int),
                name@,
            ) == Some(v@.subrange(a as int, b as int)),
            None => cookie_part_value(v@.subrange(from as int, to as int), name@) is None,
        },
{
    let (a, b) = trim_bounds(v, from, to);
    let ghost t = v@.subrange(a as int, b as int);
    match find_in(v, a, b, '=') {
        None => None,
        Some(eq) => {
            assert(t.take(eq - a) =~= v@.subrange(a as int, eq as int));
            assert(t.skip(eq - a + 1) =~= v@.subrange(eq + 1, b as int));
            if range_eq(v, a, eq, name) && valid_cookie_range(v, eq + 1, b) {
                Some((eq + 1, b))
            } else {
                None
            }
        },
    }
}

/// The value of the cookie `expected_name` in a `Cookie` header: the first `;`-separated
/// segment that, trimmed, reads `expected_name=value` with a valid value.
pub fn read_cookie<'a>(header: &'a str, expected_name: &str) -> (r: Option<&'a str>)
    ensures
        match r {
            Some(v) => spec_read_cookie(header@, expected_name@) == Some(v@),
            None => spec_read_cookie(header@, expected_name@) is None,
        },
{
    let v = chars_of(header);
    let name = chars_of(expected_name);
    let mut pos: usize = 0;
    assert(v@.skip(0) =~= v@);
    while pos <= v.len()
        invariant
            pos <= v.len() + 1,
            v@ == header@,
            name@ == expected_name@,
            pos <= v.len() ==> spec_read_cookie(header@, name@) == spec_read_cookie(
                v@.skip(pos as int),
                name@,
            ),
            pos > v.len() ==> spec_read_cookie(header@, name@) is None,
        decreases v.len() + 1 - pos,
    {
        let ghost rest = v@.skip(pos as int);
        match find_in(&v, pos, v.len(), ';') {
            Some(semi) => {
                assert(rest =~= v@.subrange(pos as int, v.len() as int));
                assert(rest.take(semi - pos) =~= v@.subrange(pos as int, semi as int));
                assert(first_index(rest, ';') == Some((semi - pos) as int));
                match part_value(&v, pos, semi, &name) {
                    Some((a, b)) => {
                        assert(cookie_part_value(rest.take(semi - pos), name@) == Some(v@.subrange(a as int, b as int)));
                        assert(spec_read_cookie(rest, name@) == Some(v@.subrange(a as int, b as int)));
                        let found = header.substring_char(a, b);
                        assert(found@ == v@.subrange(a as int, b as int));
                        return Some(found);
                    },
                    None => {
                        assert(rest.skip(semi - pos + 1) =~= v@.skip(semi + 1));
                        pos = semi + 1;
                    },
                }
            },
            None => {
                assert(rest =~= v@.subrange(pos as int, v.len() as int));
                match part_value(&v, pos, v.len(), &name) {
                    Some((a, b)) => {
                        let found = header.substring_char(a, b);
                        assert(found@ == v@.subrange(a as int, b as int));
                        return Some(found);
                    },
                    None => {
                        return None;
                    },
                }
            },
        }
    }
    None
}

/// The decimal notation of a signed number.
pub open spec fn signed_decimal(n: int) -> Seq<char> {
    if n < 0 {
        seq!['-'] + decimal_string((-n) as nat)
    } else {
        decimal_string(n as nat)
    }
}

/// The `SameSite` attribute text.
pub open spec fn same_site_text(s: SameSite) -> Seq<char> {
    match s {
        SameSite::Lax => "Lax"@,
        SameSite::Strict => "Strict"@,
    }
}

/// The `Set-Cookie` value for `value` written under `options`.
pub open spec fn spec_set_cookie(value: Seq<char>, name: Seq<char>, secure: bool, same_site: SameSite, max_age: Option<i64>) -> Seq<char> {
    name + "="@ + value + "; Path=/; HttpOnly"@ + (if secure {
        "; Secure"@
    } else {
        Seq::empty()
    }) + "; SameSite="@ + same_site_text(same_site) + match max_age {
        Some(seconds) => "; Max-Age="@ + signed_decimal(seconds as int),
        None => Seq::empty(),
    }
}

impl<'a> CookieOptions<'a> {
    /// The `Set-Cookie` value that these options give `value`.
    pub open spec fn spec_cookie_for(&self, value: Seq<char>) -> Seq<char> {
        spec_set_cookie(value, self.name@, self.secure, self.same_site, self.max_age_seconds)
    }
}

/// `name=value; Path=/; HttpOnly`, then `; Secure` when asked, `; SameSite=...`, and
/// `; Max-Age=...` when a lifetime is given.
pub fn set_cookie(value: &str, options: &CookieOptions<'_>) -> (r: String)
    ensures
        r@ == options.spec_cookie_for(value@),
{
    let mut out: Vec<char> = Vec::new();
    push_str_chars(&mut out, options.name);
    push_str_chars(&mut out, "=");
    push_str_chars(&mut out, value);
    push_str_chars(&mut out, "; Path=/; HttpOnly");
    let ghost base = out@;
    if options.secure {
        push_str_chars(&mut out, "; Secure");
    }
    assert(out@ == base + (if options.secure { "; Secure"@ } else { Seq::<char>::empty() }));
    push_str_chars(&mut out, "; SameSite=");
    match options.same_site {
        SameSite::Lax => push_str_chars(&mut out, "Lax"),
        SameSite::Strict => push_str_chars(&mut out, "Strict"),
    }
    let ghost before_age = out@;
    match options.max_age_seconds {
        Some(seconds) => {
            push_str_chars(&mut out, "; Max-Age=");
            if seconds < 0 {
                out.push('-');
                let magnitude: u64 = (0i128 - (seconds as i128)) as u64;
                push_decimal(&mut out, magnitude);
            } else {
                push_decimal(&mut out, seconds as u64);
            }
            assert(out@ =~= before_age + ("; Max-Age="@ + signed_decimal(seconds as int)));
        },
        None => {
            assert(out@ =~= before_age + Seq::<char>::empty());
        },
    }
    string_from_chars(&out)
}

/// The value that deletes the cookie: empty, with `Max-Age=0`.
pub fn clear_cookie(options: &CookieOptions<'_>) -> (r: String)
    ensures
        r@ == spec_set_cookie(Seq::empty(), options.name@, options.secure, options.same_site, Some(0i64)),
{
    let expired = CookieOptions {
        name: options.name,
        secure: options.secure,
        same_site: options.same_site,
        max_age_seconds: Some(0),
    };
    let r = set_cookie("", &expired);
    proof {
        reveal_strlit("");
    }
    r
}

/// Whether `value` is a valid cookie value.
pub fn valid_cookie_value(value: &str) -> (r: bool)
    ensures
        r == spec_valid_cookie_value(value@),
{
    let v = chars_of(value);
    let r = valid_cookie_range(&v, 0, v.len());
    assert(v@.subrange(0, v.len() as int) =~= v@);
    r
}

/// A header that starts with the segment `seg` (which holds no `;`) reads as that segment when
/// it names `name`, and otherwise as what follows the `;`.
proof fn lemma_read_cookie_step(seg: Seq<char>, rest: Seq<char>, name: Seq<char>)
    requires
        !seg.contains(';'),
    ensures
        spec_read_cookie(seg + (seq![';'] + rest), name) == match cookie_part_value(seg, name) {
            Some(v) => Some(v),
            None => spec_read_cookie(rest, name),
        },
{
    let h = seg + (seq![';'] + rest);
    assert forall|j: int| 0 <= j < seg.len() implies h[j] != ';' by {
        assert(h[j] == seg[j]);
    }
    assert(h[seg.len() as int] == ';');
    lemma_first_index_is(h, ';', seg.len() as int);
    assert(h.take(seg.len() as int) =~= seg);
    assert(h.skip(seg.len() as int + 1) =~= rest);
}

/// A header of one segment without `;` reads as that segment.
proof fn lemma_read_cookie_last(seg: Seq<char>, name: Seq<char>)
    requires
        !seg.contains(';'),
    ensures
        spec_read_cookie(seg, name) == cookie_part_value(seg, name),
{
    assert forall|j: int| 0 <= j < seg.len() implies seg[j] != ';' by {
        assert(seg.contains(';') ==> false);
    }
    lemma_first_index_none(seg, ';');
}

/// Trimming leaves alone a text that neither starts nor ends with white space, and takes one
/// leading space off it.
proof fn lemma_trim_plain(s: Seq<char>)
    requires
        s.len() > 0,
        !unicode_whitespace(s[0]),
        !unicode_whitespace(s.last()),
    ensures
        trim_ws(s) == s,
        trim_ws(seq![' '] + s) == s,
{
    assert((seq![' '] + s).drop_first() =~= s);
}

/// The segment `key=val`, with or without one leading space: `val` when `key` is `name` and
/// `val` is a valid value.
proof fn lemma_part_value_pair(key: Seq<char>, val: Seq<char>, name: Seq<char>)
    requires
        key.len() > 0,
        !key.contains('='),
        !unicode_whitespace(key[0]),
        val.len() == 0 || !unicode_whitespace(val.last()),
    ensures
        cookie_part_value(key + seq!['='] + val, name) == (if key == name && spec_valid_cookie_value(val) {
            Some(val)
        } else {
            None
        }),
        cookie_part_value(seq![' '] + (key + seq!['='] + val), name) == (if key == name && spec_valid_cookie_value(val) {
            Some(val)
        } else {
            None
        }),
{
    let seg = key + seq!['='] + val;
    assert(seg =~= key + (seq!['='] + val));
    assert(seg[0] == key[0]);
    if val.len() == 0 {
        assert(seg.last() == '=');
    } else {
        assert(seg.last() == val.last());
    }
    lemma_trim_plain(seg);
    lemma_split_once_at_boundary(key, seq!['='] + val, '=');
    assert((seq!['='] + val).drop_first() =~= val);
}

/// A segment ` key` without `=` gives no value.
proof fn lemma_part_value_flag(key: Seq<char>, name: Seq<char>)
    requires
        key.len() > 0,
        !key.contains('='),
        !unicode_whitespace(key[0]),
        !unicode_whitespace(key.last()),
    ensures
        cookie_part_value(seq![' '] + key, name) is None,
{
    lemma_trim_plain(key);
    assert forall|j: int| 0 <= j < key.len() implies key[j] != '=' by {
        assert(key.contains('=') ==> false);
    }
    lemma_first_index_none(key, '=');
}

/// A valid cookie value holds neither `;` nor `=`, and does not end with white space.
proof fn lemma_valid_value_plain(value: Seq<char>)
    requires
        spec_valid_cookie_value(value),
    ensures
        !value.contains(';'),
        !value.contains('='),
        !unicode_whitespace(value.last()),
{
    assert forall|i: int| 0 <= i < value.len() implies value[i] != ';' && value[i] != '=' by {
        let c = value[i];
        assert(('a' <= c && c <= 'z') || ('A' <= c && c <= 'Z') || ('0' <= c && c <= '9') || c == '-'
            || c == '_' || c == '.');
    }
    let c = value[value.len() - 1];
    assert(('a' <= c && c <= 'z') || ('A' <= c && c <= 'Z') || ('0' <= c && c <= '9') || c == '-'
        || c == '_' || c == '.');
}

/// `name=value` followed by nothing or by `;` and anything reads back as `value`.
proof fn lemma_read_cookie_first(value: Seq<char>, name: Seq<char>, rest: Seq<char>)
    requires
        spec_valid_cookie_value(value),
        name.len() > 0,
        !name.contains(';'),
        !name.contains('='),
        !unicode_whitespace(name[0]),
        rest.len() == 0 || rest[0] == ';',
    ensures
        spec_read_cookie(name + "="@ + value + rest, name) == Some(value),
{
    reveal_strlit("=");
    lemma_valid_value_plain(value);
    let part = name + seq!['='] + value;
    assert(name + "="@ + value =~= part);
    lemma_part_value_pair(name, value, name);
    assert(!part.contains(';')) by {
        assert forall|i: int| 0 <= i < part.len() implies part[i] != ';' by {
            if i < name.len() {
                assert(part[i] == name[i]);
            } else if i > name.len() {
                assert(part[i] == value[i - name.len() - 1]);
            }
        }
    }
    if rest.len() == 0 {
        assert(part + rest =~= part);
        lemma_read_cookie_last(part, name);
    } else {
        assert(rest =~= seq![';'] + rest.drop_first());
        lemma_read_cookie_step(part, rest.drop_first(), name);
    }
}

/// Law: the cookie that `set_cookie` writes is read back by `read_cookie` under the same name,
/// for a valid value and a non-empty name without `;` or `=` that does not start with white
/// space.
pub proof fn lemma_set_cookie_read_back(
    value: Seq<char>,
    name: Seq<char>,
    secure: bool,
    same_site: SameSite,
    max_age: Option<i64>,
)
    requires
        spec_valid_cookie_value(value),
        name.len() > 0,
        !name.contains(';'),
        !name.contains('='),
        !unicode_whitespace(name[0]),
    ensures
        spec_read_cookie(spec_set_cookie(value, name, secure, same_site, max_age), name) == Some(value),
{
    let header = spec_set_cookie(value, name, secure, same_site, max_age);
    let part = name + "="@ + value;
    reveal_strlit("; Path=/; HttpOnly");
    let rest = header.skip(part.len() as int);
    assert(header =~= part + rest);
    assert(rest[0] == ';');
    lemma_read_cookie_first(value, name, rest);
}

/// Law: a `Cookie` header that holds just `name=value` reads back as `value`, for a valid
/// value and a non-empty name without `;` or `=` that does not start with white space.
pub proof fn lemma_cookie_header_read_back(value: Seq<char>, name: Seq<char>)
    requires
        spec_valid_cookie_value(value),
        name.len() > 0,
        !name.contains(';'),
        !name.contains('='),
        !unicode_whitespace(name[0]),
    ensures
        spec_read_cookie(name + "="@ + value, name) == Some(value),
{
    lemma_read_cookie_first(value, name, Seq::empty());
    assert(name + "="@ + value + Seq::<char>::empty() =~= name + "="@ + value);
}

/// The first `c` of a text that holds one.
proof fn lemma_first_index_exists(s: Seq<char>, c: char)
    requires
        s.contains(c),
    ensures
        first_index(s, c) is Some,
    decreases s.len(),
{
    if s[0] == c {
        lemma_first_index_is(s, c, 0);
    } else {
        let t = s.drop_first();
        let w = choose|i: int| 0 <= i < s.len() && s[i] == c;
        assert(t[w - 1] == c);
        lemma_first_index_exists(t, c);
        let j = first_index(t, c)->Some_0;
        assert(is_first_index(t, c, j));
        assert forall|k: int| 0 <= k < j + 1 implies s[k] != c by {
            if k > 0 {
                assert(s[k] == t[k - 1]);
            }
        }
        lemma_first_index_is(s, c, j + 1);
    }
}

/// Trimming the front drops a run of white space and leaves the rest.
proof fn lemma_trim_ws_start_suffix(s: Seq<char>)
    ensures
        trim_ws_start(s).len() <= s.len(),
        trim_ws_start(s) == s.skip(s.len() - trim_ws_start(s).len()),
        forall|j: int| 0 <= j < s.len() - trim_ws_start(s).len() ==> unicode_whitespace(#[trigger] s[j]),
    decreases s.len(),
{
    if s.len() > 0 && unicode_whitespace(s[0]) {
        let t = s.drop_first();
        lemma_trim_ws_start_suffix(t);
        assert(t.skip(t.len() - trim_ws_start(s).len()) =~= s.skip(s.len() - trim_ws_start(s).len()));
        assert forall|j: int| 0 <= j < s.len() - trim_ws_start(s).len() implies unicode_whitespace(#[trigger] s[j]) by {
            if j > 0 {
                assert(s[j] == t[j - 1]);
            }
        }
    } else {
        assert(s.skip(0) =~= s);
    }
}

/// Trimming the back leaves a prefix.
proof fn lemma_trim_ws_end_prefix(s: Seq<char>)
    ensures
        trim_ws_end(s).len() <= s.len(),
        trim_ws_end(s) == s.take(trim_ws_end(s).len() as int),
    decreases s.len(),
{
    if s.len() > 0 && unicode_whitespace(s.last()) {
        lemma_trim_ws_end_prefix(s.drop_last());
        assert(s.drop_last().take(trim_ws_end(s).len() as int) =~= s.take(trim_ws_end(s).len() as int));
    } else {
        assert(s.take(s.len() as int) =~= s);
    }
}

/// A segment shorter than `name` cannot name it.
proof fn lemma_part_value_short(seg: Seq<char>, name: Seq<char>)
    requires
        seg.len() < name.len(),
    ensures
        cookie_part_value(seg, name) is None,
{
    lemma_trim_ws_start_suffix(seg);
    lemma_trim_ws_end_prefix(trim_ws_start(seg));
    let t = trim_ws(seg);
    if let Some((n, v)) = split_once(t, '=') {
        let i = first_index(t, '=')->Some_0;
        assert(is_first_index(t, '=', i));
        assert(n.len() == i);
    }
}

/// A segment that ends in `=` and is at most one longer than `name` gives no value for it: either
/// its first `=` is the last character and the value is empty, or its name is too short.
proof fn lemma_part_value_ends_in_eq(seg: Seq<char>, name: Seq<char>)
    requires
        seg.len() > 0,
        seg.last() == '=',
        seg.len() <= name.len() + 1,
    ensures
        cookie_part_value(seg, name) is None,
{
    lemma_trim_ws_start_suffix(seg);
    let a = trim_ws_start(seg);
    let k = seg.len() - a.len();
    if k == seg.len() {
        assert(unicode_whitespace(seg[seg.len() - 1]));
    }
    assert(a.len() > 0);
    assert(a.last() == seg.last());
    assert(trim_ws_end(a) == a);
    let t = trim_ws(seg);
    assert(t == a);
    if let Some((n, v)) = split_once(t, '=') {
        let i = first_index(t, '=')->Some_0;
        assert(is_first_index(t, '=', i));
        if i == t.len() - 1 {
            assert(v.len() == 0);
        } else {
            assert(n.len() == i);
        }
    }
}

/// A header that starts with `u=` (where `u` is no longer than `name` and may hold `;`), then
/// `;` and `tail`, gives no value for `name` when `tail` gives none.
proof fn lemma_read_cleared_prefix(u: Seq<char>, name: Seq<char>, tail: Seq<char>)
    requires
        u.len() <= name.len(),
        spec_read_cookie(tail, name) is None,
    ensures
        spec_read_cookie(u + seq!['='] + (seq![';'] + tail), name) is None,
    decreases u.len(),
{
    let h = u + seq!['='] + (seq![';'] + tail);
    if !u.contains(';') {
        let seg = u + seq!['='];
        assert(!seg.contains(';')) by {
            assert forall|i: int| 0 <= i < seg.len() implies seg[i] != ';' by {
                if i < u.len() {
                    assert(seg[i] == u[i]);
                }
            }
        }
        lemma_part_value_ends_in_eq(seg, name);
        lemma_read_cookie_step(seg, tail, name);
    } else {
        lemma_first_index_exists(u, ';');
        let i = first_index(u, ';')->Some_0;
        assert(is_first_index(u, ';', i));
        let seg = u.take(i);
        let rest = u.skip(i + 1);
        assert(!seg.contains(';')) by {
            assert forall|j: int| 0 <= j < seg.len() implies seg[j] != ';' by {
                assert(seg[j] == u[j]);
            }
        }
        assert(h =~= seg + (seq![';'] + (rest + seq!['='] + (seq![';'] + tail))));
        lemma_part_value_short(seg, name);
        lemma_read_cookie_step(seg, rest + seq!['='] + (seq![';'] + tail), name);
        lemma_read_cleared_prefix(rest, name, tail);
    }
}

/// The clearing value written under `name` is `name=`, then `;` and attributes that give no value
/// for `name` unless it is `SameSite` or `Max-Age`.
proof fn lemma_cleared_attributes(name: Seq<char>, secure: bool, same_site: SameSite) -> (tail: Seq<char>)
    requires
        name != "SameSite"@,
        name != "Max-Age"@,
    ensures
        spec_set_cookie(Seq::empty(), name, secure, same_site, Some(0i64)) == name + seq!['='] + (seq![';'] + tail),
        spec_read_cookie(tail, name) is None,
{
    reveal_strlit("=");
    reveal_strlit("; Path=/; HttpOnly");
    reveal_strlit("; Secure");
    reveal_strlit("; SameSite=");
    reveal_strlit("Lax");
    reveal_strlit("Strict");
    reveal_strlit("; Max-Age=");
    reveal_strlit("SameSite");
    reveal_strlit("Max-Age");
    let header = spec_set_cookie(Seq::empty(), name, secure, same_site, Some(0i64));
    let zero = decimal_string(0);
    assert(zero =~= seq!['0']);
    assert(signed_decimal(0) == zero);
    let site = same_site_text(same_site);
    let path_key = seq!['P', 'a', 't', 'h'];
    let http_only = seq!['H', 't', 't', 'p', 'O', 'n', 'l', 'y'];
    let secure_key = seq!['S', 'e', 'c', 'u', 'r', 'e'];
    let site_key = seq!['S', 'a', 'm', 'e', 'S', 'i', 't', 'e'];
    let age_key = seq!['M', 'a', 'x', '-', 'A', 'g', 'e'];
    let seg2 = seq![' '] + (path_key + seq!['='] + seq!['/']);
    let seg3 = seq![' '] + http_only;
    let seg4 = seq![' '] + secure_key;
    let seg5 = seq![' '] + (site_key + seq!['='] + site);
    let seg6 = seq![' '] + (age_key + seq!['='] + zero);
    let t5 = seg5 + (seq![';'] + seg6);
    let t4 = if secure { seg4 + (seq![';'] + t5) } else { t5 };
    let t3 = seg3 + (seq![';'] + t4);
    let t2 = seg2 + (seq![';'] + t3);
    match same_site {
        SameSite::Lax => assert(site =~= seq!['L', 'a', 'x']),
        SameSite::Strict => assert(site =~= seq!['S', 't', 'r', 'i', 'c', 't']),
    }
    assert(header =~= name + seq!['='] + (seq![';'] + t2));
    assert(!path_key.contains('=') && !seg2.contains(';'));
    lemma_part_value_pair(path_key, seq!['/'], name);
    assert(!spec_valid_cookie_value(seq!['/']));
    lemma_read_cookie_step(seg2, t3, name);
    assert(!http_only.contains('=') && !seg3.contains(';'));
    lemma_part_value_flag(http_only, name);
    lemma_read_cookie_step(seg3, t4, name);
    if secure {
        assert(!secure_key.contains('=') && !seg4.contains(';'));
        lemma_part_value_flag(secure_key, name);
        lemma_read_cookie_step(seg4, t5, name);
    }
    assert(site_key =~= "SameSite"@);
    assert(!site_key.contains('=') && !seg5.contains(';'));
    lemma_part_value_pair(site_key, site, name);
    lemma_read_cookie_step(seg5, seg6, name);
    assert(age_key =~= "Max-Age"@);
    assert(!age_key.contains('=') && !seg6.contains(';'));
    lemma_part_value_pair(age_key, zero, name);
    lemma_read_cookie_last(seg6, name);
    t2
}

/// Law: the value that `clear_cookie` writes reads back as no cookie at all, for every name but
/// the attribute names `SameSite` and `Max-Age` (whose attributes would read as their value).
pub proof fn lemma_clear_cookie_read_back(name: Seq<char>, secure: bool, same_site: SameSite)
    requires
        name != "SameSite"@,
        name != "Max-Age"@,
    ensures
        spec_read_cookie(spec_set_cookie(Seq::empty(), name, secure, same_site, Some(0i64)), name) is None,
{
    let tail = lemma_cleared_attributes(name, secure, same_site);
    lemma_read_cleared_prefix(name, name, tail);
}

} // verus!
