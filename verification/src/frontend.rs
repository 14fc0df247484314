//! Serving the single-page frontend: which requests get its `index.html`, and the checks on the
//! built assets.

use vstd::prelude::*;
use crate::cookies::{find_in, range_eq, trim_bounds, trim_ws};
use crate::text::{chars_of, first_index};

verus! {

/// Why the built frontend could not be served.
#[derive(Debug, Clone, Copy, PartialEq, Eq, Structural)]
pub enum FrontendError {
    Resolve,
    NotDirectory,
    Index,
    EmptyIndex,
}

/// Checks the built frontend once its directory and `index.html` were read: the path must be a
/// directory and the index must not be empty.
pub fn check_assets(is_directory: bool, index_len: usize) -> (r: Result<(), FrontendError>)
    ensures
        r == if !is_directory {
            Err::<(), FrontendError>(FrontendError::NotDirectory)
        } else if index_len == 0 {
            Err(FrontendError::EmptyIndex)
        } else {
            Ok(())
        },
{
    if !is_directory {
        return Err(FrontendError::NotDirectory);
    }
    if index_len == 0 {
        return Err(FrontendError::EmptyIndex);
    }
    Ok(())
}

/// The media type of one `Accept` item: what precedes its parameters, trimmed.
pub open spec fn media_type(item: Seq<char>) -> Seq<char> {
    trim_ws(match first_index(item, ';') {
        Some(i) => item.take(i),
        None => item,
    })
}

/// An HTML media type.
pub open spec fn is_html_media_type(t: Seq<char>) -> bool {
    t == "text/html"@ || t == "application/xhtml+xml"@
}

/// Whether some `,`-separated item of an `Accept` value names an HTML media type.
pub open spec fn spec_accepts_html(s: Seq<char>) -> bool
    decreases s.len(),
{
    match first_index(s, ',') {
        None => is_html_media_type(media_type(s)),
        Some(i) => is_html_media_type(media_type(s.take(i))) || (0 <= i < s.len() && spec_accepts_html(s.skip(i + 1))),
    }
}

/// Whether the item `v[from..to]` names an HTML media type.
fn item_is_html(v: &Vec<char>, from: usize, to: usize) -> (r: bool)
    requires
        from <= to <= v.len(),
    ensures
        r == is_html_media_type(media_type(v@.subrange(from as int, to as int))),
{
    let ghost item = v@.subrange(from as int, to as int);
    let end = match find_in(v, from, to, ';') {
        Some(semi) => {
            assert(item.take(semi - from) =~= v@.subrange(from as int, semi as int));
            semi
        },
        None => to,
    };
    let (a, b) = trim_bounds(v, from, end);
    let html = vec!['t', 'e', 'x', 't', '/', 'h', 't', 'm', 'l'];
    let xhtml = vec!['a', 'p', 'p', 'l', 'i', 'c', 'a', 't', 'i', 'o', 'n', '/', 'x', 'h', 't', 'm', 'l', '+', 'x', 'm', 'l'];
    proof {
        reveal_strlit("text/html");
        reveal_strlit("application/xhtml+xml");
    }
    assert(html@ =~= "text/html"@);
    assert(xhtml@ =~= "application/xhtml+xml"@);
    range_eq(v, a, b, &html) || range_eq(v, a, b, &xhtml)
}

/// Whether an `Accept` header value (when the request has a readable one) asks for HTML.
pub fn accepts_html(accept: Option<&str>) -> (r: bool)
    ensures
        r == (accept matches Some(a) && spec_accepts_html(a@)),
{
    let text = match accept {
        Some(a) => a,
        None => return false,
    };
    let v = chars_of(text);
    let mut pos: usize = 0;
    assert(v@.skip(0) =~= v@);
    while pos <= v.len()
        invariant
            pos <= v.len() + 1,
            v@ == text@,
            accept matches Some(a) && a@ == text@,
            pos <= v.len() ==> spec_accepts_html(text@) == spec_accepts_html(v@.skip(pos as int)),
            pos > v.len() ==> !spec_accepts_html(text@),
        decreases v.len() + 1 - pos,
    {
        let ghost rest = v@.skip(pos as int);
        match find_in(&v, pos, v.len(), ',') {
            Some(comma) => {
                assert(rest =~= v@.subrange(pos as int, v.len() as int));
                assert(rest.take(comma - pos) =~= v@.subrange(pos as int, comma as int));
                assert(first_index(rest, ',') == Some((comma - pos) as int));
                if item_is_html(&v, pos, comma) {
                    return true;
                }
                assert(rest.skip(comma - pos + 1) =~= v@.skip(comma + 1));
                pos = comma + 1;
            },
            None => {
                assert(rest =~= v@.subrange(pos as int, v.len() as int));
                return item_is_html(&v, pos, v.len());
            },
        }
    }
    false
}

} // verus!
