use vstd::prelude::*;

use crate::text::{chars_eq, chars_of, find_from, index_of, lemma_index_of, sub_chars};

verus! {

/// The file extension of one media type of the table; `None` for others.
pub open spec fn media_type_ext(part: Seq<char>) -> Option<Seq<char>> {
    if part == "image/png"@ {
        Some("png"@)
    } else if part == "image/jpeg"@ {
        Some("jpg"@)
    } else if part == "image/gif"@ {
        Some("gif"@)
    } else if part == "image/bmp"@ {
        Some("bmp"@)
    } else if part == "image/svg+xml"@ {
        Some("svg"@)
    } else if part == "image/webp"@ {
        Some("webp"@)
    } else if part == "image/tiff"@ {
        Some("tiff"@)
    } else if part == "image/x-icon"@ {
        Some("ico"@)
    } else {
        None
    }
}

/// The extension of the first `;`-separated part of a content type that
/// the table knows.
pub open spec fn content_type_ext(s: Seq<char>) -> Option<Seq<char>>
    decreases s.len() via content_type_ext_decreases
{
    let i = index_of(s, ';');
    let part = s.subrange(0, i);
    if media_type_ext(part) is Some {
        media_type_ext(part)
    } else if i >= s.len() {
        None
    } else {
        content_type_ext(s.subrange(i + 1, s.len() as int))
    }
}

#[via_fn]
proof fn content_type_ext_decreases(s: Seq<char>) {
    lemma_index_of(s, ';');
}

fn lit_eq(part: &[char], lit: &str) -> (r: bool)
    ensures
        r == (part@ == lit@),
{
    let l = chars_of(lit);
    chars_eq(part, l.as_slice())
}

fn ext_of_media_type(part: &[char]) -> (r: Option<String>)
    ensures
        match r {
            Some(e) => media_type_ext(part@) == Some(e@),
            None => media_type_ext(part@) is None,
        },
{
    if lit_eq(part, "image/png") {
        Some("png".to_owned())
    } else if lit_eq(part, "image/jpeg") {
        Some("jpg".to_owned())
    } else if lit_eq(part, "image/gif") {
        Some("gif".to_owned())
    } else if lit_eq(part, "image/bmp") {
        Some("bmp".to_owned())
    } else if lit_eq(part, "image/svg+xml") {
        Some("svg".to_owned())
    } else if lit_eq(part, "image/webp") {
        Some("webp".to_owned())
    } else if lit_eq(part, "image/tiff") {
        Some("tiff".to_owned())
    } else if lit_eq(part, "image/x-icon") {
        Some("ico".to_owned())
    } else {
        None
    }
}

/// Infers an image file extension from a response's content type: the
/// first `;`-separated part that names a known image type decides it
/// (png, jpeg as jpg, gif, bmp, svg+xml as svg, webp, tiff, x-icon as ico);
/// none gives no extension.
pub fn ext_from_content_type(content_type: &str) -> (r: Option<String>)
    ensures
        match r {
            Some(e) => content_type_ext(content_type@) == Some(e@),
            None => content_type_ext(content_type@) is None,
        },
{
    let s = chars_of(content_type);
    let n: usize = s.len();
    let mut pos: usize = 0;
    assert(s@.subrange(0, n as int) =~= s@);
    while pos <= n
        invariant
            s@ == content_type@,
            n == s@.len(),
            pos <= n + 1,
            pos <= n ==> content_type_ext(s@) == content_type_ext(s@.subrange(pos as int, n as int)),
            pos > n ==> content_type_ext(s@) is None,
        decreases n + 1 - pos,
    {
        let ghost rest = s@.subrange(pos as int, n as int);
        let end = find_from(s.as_slice(), ';', pos);
        let part = sub_chars(s.as_slice(), pos, end);
        proof {
            assert(part@ =~= rest.subrange(0, index_of(rest, ';')));
        }
        match ext_of_media_type(part.as_slice()) {
            Some(e) => {
                return Some(e);
            },
            None => {},
        }
        if end >= n {
            return None;
        }
        proof {
            assert(rest.subrange(index_of(rest, ';') + 1, rest.len() as int) =~= s@.subrange(
                end + 1,
                n as int,
            ));
        }
        pos = end + 1;
    }
    None
}

} // verus!
