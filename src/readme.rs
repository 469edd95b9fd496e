use vstd::prelude::*;

use crate::text::{
    chars_eq, chars_of, push_str, replace_all, replace_chars, starts_with, string_of, sub_chars,
};

verus! {

/// Inline image: `![alt](url)`.
pub const INLINE_IMAGE_PATTERN: &'static str = r"!\[(?P<alt>[^\]]*)\]\((?P<src>[^)]+)\)";

/// Reference-style image short form: `[![alt][var]]`.
pub const IMAGE_REFERENCE_PATTERN: &'static str = r"\[!\[(.*?)\]\[(.*?)\]\]";

/// Line-anchored reference definition: `[var]: url`.
pub const REFERENCE_DEFINITION_PATTERN: &'static str = r"(?m)^\[(.*?)\]:\s*(\S+)";

/// HTML image tag with `src` before `alt`.
pub const HTML_IMAGE_PATTERN: &'static str = r#"<img\s+[^>]*src="(?P<src>[^"]+)"[^>]*\balt="(?P<alt>[^"]*)""#;

/// The three syntaxes of an embedded image reference.
#[derive(Debug, Clone)]
pub enum ReadmeImageKind {
    Markdown,
    /// Reference style, with the name of its definition.
    MarkdownVar(String),
    Html,
}

/// One image reference found in a README.
#[derive(Debug, Clone)]
pub struct ParsedReadmeImage {
    pub url: String,
    pub alt: Option<String>,
    pub kind: ReadmeImageKind,
}

impl ParsedReadmeImage {
    /// A copy of the image reference.
    pub fn duplicate(&self) -> (r: ParsedReadmeImage)
        ensures
            r == *self,
    {
        let alt = match &self.alt {
            Some(a) => Some(a.clone()),
            None => None,
        };
        let kind = match &self.kind {
            ReadmeImageKind::Markdown => ReadmeImageKind::Markdown,
            ReadmeImageKind::MarkdownVar(v) => ReadmeImageKind::MarkdownVar(v.clone()),
            ReadmeImageKind::Html => ReadmeImageKind::Html,
        };
        ParsedReadmeImage { url: self.url.clone(), alt, kind }
    }
}

/// The syntax of an image reference, without its data.
#[derive(PartialEq, Eq, Structural, Debug, Clone, Copy)]
pub enum ImageSyntax {
    Markdown,
    MarkdownVar,
    Html,
}

/// An image reference as values: syntax, URL, alt text, definition name
/// (empty unless reference style).
pub type ImageV = (ImageSyntax, Seq<char>, Option<Seq<char>>, Seq<char>);

/// The capture groups of each match, after the whole-match group.
pub type CapturesV = Seq<Seq<Option<Seq<char>>>>;

pub open spec fn opt_view(o: Option<String>) -> Option<Seq<char>> {
    match o {
        Some(s) => Some(s@),
        None => None,
    }
}

pub open spec fn image_view(img: ParsedReadmeImage) -> ImageV {
    match img.kind {
        ReadmeImageKind::Markdown => (ImageSyntax::Markdown, img.url@, opt_view(img.alt), Seq::empty()),
        ReadmeImageKind::MarkdownVar(v) => (ImageSyntax::MarkdownVar, img.url@, opt_view(img.alt), v@),
        ReadmeImageKind::Html => (ImageSyntax::Html, img.url@, opt_view(img.alt), Seq::empty()),
    }
}

pub open spec fn groups_view(c: Seq<Option<String>>) -> Seq<Option<Seq<char>>> {
    Seq::new(c.len(), |j: int| opt_view(c[j]))
}

pub open spec fn captures_view(v: Seq<Vec<Option<String>>>) -> CapturesV {
    Seq::new(v.len(), |k: int| groups_view(v[k]@))
}

/// What regex's `captures_iter` reports for `pattern` on `text`: for each
/// non-overlapping match, leftmost first, the text of each capture group
/// after the whole match; `None` when regex refuses the pattern.
pub uninterp spec fn regex_captures_of(pattern: Seq<char>, text: Seq<char>) -> Option<CapturesV>;

/// Relies on regex's `Regex::new` (compiles the pattern, or refuses it) and
/// `Regex::captures_iter` (every non-overlapping match, leftmost first, with
/// each group's text, `None` for a group that took no part).
#[verifier::external_body]
fn captures_all(pattern: &str, text: &str) -> (r: Option<Vec<Vec<Option<String>>>>)
    ensures
        match r {
            Some(v) => regex_captures_of(pattern@, text@) == Some(captures_view(v@)),
            None => regex_captures_of(pattern@, text@) is None,
        },
{
    let re = regex::Regex::new(pattern).ok()?;
    Some(
        re.captures_iter(text).map(
            |c| c.iter().skip(1).map(|g| g.map(|m| m.as_str().to_string())).collect(),
        ).collect(),
    )
}

/// The matches of `pattern` in `text`; none when the pattern is refused.
pub open spec fn matches_of(pattern: Seq<char>, text: Seq<char>) -> CapturesV {
    match regex_captures_of(pattern, text) {
        Some(c) => c,
        None => Seq::empty(),
    }
}

/// The text of group `i` of a match; empty when the group took no part.
pub open spec fn group(c: Seq<Option<Seq<char>>>, i: int) -> Seq<char> {
    if 0 <= i < c.len() && c[i] is Some {
        c[i]->0
    } else {
        Seq::empty()
    }
}

/// An empty alt text counts as none.
pub open spec fn alt_of(a: Seq<char>) -> Option<Seq<char>> {
    if a.len() == 0 {
        None
    } else {
        Some(a)
    }
}

/// Inline images among the first `n` matches whose URL is `https://`.
pub open spec fn inline_images(caps: CapturesV, n: nat) -> Seq<ImageV>
    decreases n,
{
    if n == 0 {
        Seq::empty()
    } else {
        let rest = inline_images(caps, (n - 1) as nat);
        let c = caps[n - 1];
        if starts_with(group(c, 1), "https://"@) {
            rest.push((ImageSyntax::Markdown, group(c, 1), alt_of(group(c, 0)), Seq::empty()))
        } else {
            rest
        }
    }
}

/// The alt text that the last of the first `n` short forms naming `var`
/// gives it, if any names it.
pub open spec fn var_alt(short: CapturesV, n: nat, var: Seq<char>) -> Option<Option<Seq<char>>>
    decreases n,
{
    if n == 0 {
        None
    } else if group(short[n - 1], 1) == var {
        Some(alt_of(group(short[n - 1], 0)))
    } else {
        var_alt(short, (n - 1) as nat, var)
    }
}

/// Reference-style images: the first `n` definitions whose name some short
/// form uses.
pub open spec fn reference_images(defs: CapturesV, n: nat, short: CapturesV) -> Seq<ImageV>
    decreases n,
{
    if n == 0 {
        Seq::empty()
    } else {
        let rest = reference_images(defs, (n - 1) as nat, short);
        let c = defs[n - 1];
        match var_alt(short, short.len(), group(c, 0)) {
            Some(alt) => rest.push((ImageSyntax::MarkdownVar, group(c, 1), alt, group(c, 0))),
            None => rest,
        }
    }
}

/// HTML images among the first `n` matches.
pub open spec fn html_images(caps: CapturesV, n: nat) -> Seq<ImageV>
    decreases n,
{
    if n == 0 {
        Seq::empty()
    } else {
        let c = caps[n - 1];
        html_images(caps, (n - 1) as nat).push((ImageSyntax::Html, group(c, 0), alt_of(group(c, 1)), Seq::empty()))
    }
}

/// Every image reference of a text: inline ones, then reference-style ones,
/// then HTML ones, each in order of appearance.
pub open spec fn readme_images(text: Seq<char>) -> Seq<ImageV> {
    let inline = matches_of(INLINE_IMAGE_PATTERN@, text);
    let short = matches_of(IMAGE_REFERENCE_PATTERN@, text);
    let defs = matches_of(REFERENCE_DEFINITION_PATTERN@, text);
    let html = matches_of(HTML_IMAGE_PATTERN@, text);
    inline_images(inline, inline.len()) + reference_images(defs, defs.len(), short) + html_images(
        html,
        html.len(),
    )
}

fn group_text(c: &Vec<Option<String>>, i: usize) -> (r: String)
    ensures
        r@ == group(groups_view(c@), i as int),
{
    if i < c.len() {
        match &c[i] {
            Some(s) => s.clone(),
            None => String::new(),
        }
    } else {
        String::new()
    }
}

fn alt_opt(a: String) -> (r: Option<String>)
    ensures
        opt_view(r) == alt_of(a@),
{
    if a.as_str().is_empty() {
        None
    } else {
        Some(a)
    }
}

/// Whether `s` begins with `p`.
pub fn has_prefix(s: &[char], p: &[char]) -> (r: bool)
    ensures
        r == starts_with(s@, p@),
{
    if p.len() > s.len() {
        return false;
    }
    let head = sub_chars(s, 0, p.len());
    chars_eq(head.as_slice(), p)
}

fn all_matches(pattern: &str, text: &str) -> (r: Vec<Vec<Option<String>>>)
    ensures
        captures_view(r@) == matches_of(pattern@, text@),
{
    match captures_all(pattern, text) {
        Some(v) => v,
        None => {
            let v: Vec<Vec<Option<String>>> = Vec::new();
            assert(captures_view(v@) =~= Seq::<Seq<Option<Seq<char>>>>::empty());
            v
        },
    }
}

proof fn lemma_push_view(images: Seq<ParsedReadmeImage>, img: ParsedReadmeImage)
    ensures
        images.push(img).map_values(|i: ParsedReadmeImage| image_view(i)) == images.map_values(
            |i: ParsedReadmeImage| image_view(i),
        ).push(image_view(img)),
{
    assert(images.push(img).map_values(|i: ParsedReadmeImage| image_view(i)) =~= images.map_values(
        |i: ParsedReadmeImage| image_view(i),
    ).push(image_view(img)));
}

/// The image references that the matches of the four syntaxes give:
/// inline images with an `https://` URL, then definitions whose name a
/// short form uses (with the alt text of the last such short form), then
/// HTML images.
pub fn images_from_matches(
    inline: &Vec<Vec<Option<String>>>,
    short: &Vec<Vec<Option<String>>>,
    defs: &Vec<Vec<Option<String>>>,
    html: &Vec<Vec<Option<String>>>,
) -> (r: Vec<ParsedReadmeImage>)
    ensures
        r@.map_values(|i: ParsedReadmeImage| image_view(i)) == inline_images(
            captures_view(inline@),
            inline@.len(),
        ) + reference_images(captures_view(defs@), defs@.len(), captures_view(short@)) + html_images(
            captures_view(html@),
            html@.len(),
        ),
{
    let mut images: Vec<ParsedReadmeImage> = Vec::new();
    let https = chars_of("https://");

    let ghost ic = captures_view(inline@);
    let mut k: usize = 0;
    while k < inline.len()
        invariant
            k <= inline@.len(),
            ic == captures_view(inline@),
            https@ == "https://"@,
            images@.map_values(|i: ParsedReadmeImage| image_view(i)) == inline_images(ic, k as nat),
        decreases inline@.len() - k,
    {
        let src = group_text(&inline[k], 1);
        let alt = group_text(&inline[k], 0);
        assert(ic[k as int] == groups_view(inline@[k as int]@));
        let src_chars = chars_of(src.as_str());
        if has_prefix(src_chars.as_slice(), https.as_slice()) {
            let img = ParsedReadmeImage { url: src, alt: alt_opt(alt), kind: ReadmeImageKind::Markdown };
            proof {
                lemma_push_view(images@, img);
            }
            images.push(img);
        }
        k = k + 1;
    }

    let ghost sc = captures_view(short@);
    let ghost dc = captures_view(defs@);
    let ghost before = images@.map_values(|i: ParsedReadmeImage| image_view(i));
    let mut k: usize = 0;
    while k < defs.len()
        invariant
            k <= defs@.len(),
            sc == captures_view(short@),
            dc == captures_view(defs@),
            images@.map_values(|i: ParsedReadmeImage| image_view(i)) == before + reference_images(
                dc,
                k as nat,
                sc,
            ),
        decreases defs@.len() - k,
    {
        let var = group_text(&defs[k], 0);
        let src = group_text(&defs[k], 1);
        assert(dc[k as int] == groups_view(defs@[k as int]@));
        let found = find_var_alt(short, &var);
        match found {
            Some(alt) => {
                let img = ParsedReadmeImage { url: src, alt, kind: ReadmeImageKind::MarkdownVar(var) };
                proof {
                    lemma_push_view(images@, img);
                    assert((before + reference_images(dc, k as nat, sc)).push(image_view(img)) =~= before
                        + reference_images(dc, (k + 1) as nat, sc));
                }
                images.push(img);
            },
            None => {},
        }
        k = k + 1;
    }

    let ghost hc = captures_view(html@);
    let ghost before2 = images@.map_values(|i: ParsedReadmeImage| image_view(i));
    let mut k: usize = 0;
    while k < html.len()
        invariant
            k <= html@.len(),
            hc == captures_view(html@),
            images@.map_values(|i: ParsedReadmeImage| image_view(i)) == before2 + html_images(hc, k as nat),
        decreases html@.len() - k,
    {
        let src = group_text(&html[k], 0);
        let alt = group_text(&html[k], 1);
        assert(hc[k as int] == groups_view(html@[k as int]@));
        let img = ParsedReadmeImage { url: src, alt: alt_opt(alt), kind: ReadmeImageKind::Html };
        proof {
            lemma_push_view(images@, img);
            assert((before2 + html_images(hc, k as nat)).push(image_view(img)) =~= before2 + html_images(
                hc,
                (k + 1) as nat,
            ));
        }
        images.push(img);
        k = k + 1;
    }
    images
}

/// Finds every image reference in a text: inline images with an `https://`
/// URL, reference-style images whose short form and line-anchored
/// definition agree on a name, and HTML image tags.
pub fn parse_images(text: &str) -> (r: Vec<ParsedReadmeImage>)
    ensures
        r@.map_values(|i: ParsedReadmeImage| image_view(i)) == readme_images(text@),
{
    let inline = all_matches(INLINE_IMAGE_PATTERN, text);
    let short = all_matches(IMAGE_REFERENCE_PATTERN, text);
    let defs = all_matches(REFERENCE_DEFINITION_PATTERN, text);
    let html = all_matches(HTML_IMAGE_PATTERN, text);
    images_from_matches(&inline, &short, &defs, &html)
}

/// The alt text that the last short form naming `var` gives it.
fn find_var_alt(short: &Vec<Vec<Option<String>>>, var: &String) -> (r: Option<Option<String>>)
    ensures
        match r {
            Some(a) => var_alt(captures_view(short@), short@.len(), var@) == Some(opt_view(a)),
            None => var_alt(captures_view(short@), short@.len(), var@) is None,
        },
{
    let ghost sc = captures_view(short@);
    let mut k: usize = short.len();
    while k > 0
        invariant
            k <= short@.len(),
            sc == captures_view(short@),
            var_alt(sc, short@.len(), var@) == var_alt(sc, k as nat, var@),
        decreases k,
    {
        let name = group_text(&short[k - 1], 1);
        assert(sc[k - 1] == groups_view(short@[k - 1]@));
        if name == *var {
            let alt = group_text(&short[k - 1], 0);
            return Some(alt_opt(alt));
        }
        k = k - 1;
    }
    None
}

pub open spec fn alt_text(alt: Option<Seq<char>>) -> Seq<char> {
    match alt {
        Some(a) => a,
        None => Seq::empty(),
    }
}

/// The text by which an image reference points at `target`: `[alt](target)`
/// for an inline image, `[var]: target` for a reference definition,
/// `src="target"` for an HTML tag.
pub open spec fn snippet(img: ImageV, target: Seq<char>) -> Seq<char> {
    match img.0 {
        ImageSyntax::Markdown => "["@ + alt_text(img.2) + "]("@ + target + ")"@,
        ImageSyntax::MarkdownVar => "["@ + img.3 + "]: "@ + target,
        ImageSyntax::Html => "src=\""@ + target + "\""@,
    }
}

fn snippet_chars(image: &ParsedReadmeImage, target: &str) -> (r: Vec<char>)
    ensures
        r@ == snippet(image_view(*image), target@),
{
    let mut v: Vec<char> = Vec::new();
    match &image.kind {
        ReadmeImageKind::Markdown => {
            push_str(&mut v, "[");
            match &image.alt {
                Some(a) => push_str(&mut v, a.as_str()),
                None => {},
            }
            push_str(&mut v, "](");
            push_str(&mut v, target);
            push_str(&mut v, ")");
        },
        ReadmeImageKind::MarkdownVar(var) => {
            push_str(&mut v, "[");
            push_str(&mut v, var.as_str());
            push_str(&mut v, "]: ");
            push_str(&mut v, target);
        },
        ReadmeImageKind::Html => {
            push_str(&mut v, "src=\"");
            push_str(&mut v, target);
            push_str(&mut v, "\"");
        },
    }
    assert(v@ =~= snippet(image_view(*image), target@));
    v
}

/// Points every occurrence of an image's reference snippet at `local_path`
/// instead of its URL, keeping the alt text; identical snippets elsewhere
/// in the text are rewritten with it.
pub fn rewrite_image(text: &str, image: &ParsedReadmeImage, local_path: &str) -> (r: String)
    ensures
        r@ == replace_all(
            text@,
            snippet(image_view(*image), image.url@),
            snippet(image_view(*image), local_path@),
        ),
{
    let t = chars_of(text);
    let from = snippet_chars(image, image.url.as_str());
    let to = snippet_chars(image, local_path);
    let out = replace_chars(t.as_slice(), from.as_slice(), to.as_slice());
    string_of(out.as_slice())
}

/// Whether a URL is absolute: `https://` or `http://`.
pub open spec fn is_absolute(url: Seq<char>) -> bool {
    starts_with(url, "https://"@) || starts_with(url, "http://"@)
}

/// Whether a URL is absolute, so that its image can be downloaded.
pub fn is_absolute_url(url: &str) -> (r: bool)
    ensures
        r == is_absolute(url@),
{
    let u = chars_of(url);
    let a = chars_of("https://");
    let b = chars_of("http://");
    has_prefix(u.as_slice(), a.as_slice()) || has_prefix(u.as_slice(), b.as_slice())
}

/// The images among the first `n` whose URL is absolute.
pub open spec fn absolute_only(images: Seq<ImageV>, n: nat) -> Seq<ImageV>
    decreases n,
{
    if n == 0 {
        Seq::empty()
    } else if is_absolute(images[n - 1].1) {
        absolute_only(images, (n - 1) as nat).push(images[n - 1])
    } else {
        absolute_only(images, (n - 1) as nat)
    }
}

/// The image references of a text that are to be downloaded: those of
/// `parse_images` with an absolute URL, in the same order.
pub fn downloadable_images(text: &str) -> (r: Vec<ParsedReadmeImage>)
    ensures
        r@.map_values(|i: ParsedReadmeImage| image_view(i)) == absolute_only(
            readme_images(text@),
            readme_images(text@).len(),
        ),
{
    let all = parse_images(text);
    let ghost views = all@.map_values(|i: ParsedReadmeImage| image_view(i));
    let mut out: Vec<ParsedReadmeImage> = Vec::new();
    let mut k: usize = 0;
    while k < all.len()
        invariant
            k <= all@.len(),
            views == all@.map_values(|i: ParsedReadmeImage| image_view(i)),
            out@.map_values(|i: ParsedReadmeImage| image_view(i)) == absolute_only(views, k as nat),
        decreases all@.len() - k,
    {
        let img = all[k].duplicate();
        if is_absolute_url(all[k].url.as_str()) {
            proof {
                lemma_push_view(out@, img);
            }
            out.push(img);
        }
        k = k + 1;
    }
    out
}

/// The text after the first `n` images were pointed at their local paths,
/// one after the other.
pub open spec fn rewrite_fold(text: Seq<char>, images: Seq<ImageV>, paths: Seq<Seq<char>>, n: nat) -> Seq<char>
    decreases n,
{
    if n == 0 {
        text
    } else {
        let img = images[n - 1];
        replace_all(
            rewrite_fold(text, images, paths, (n - 1) as nat),
            snippet(img, img.1),
            snippet(img, paths[n - 1]),
        )
    }
}

/// Points each image at its local copy, in order: the `i`-th image's
/// snippet is rewritten to `paths[i]` in the text left by the earlier
/// rewrites.
pub fn rewrite_readme(text: &str, images: &Vec<ParsedReadmeImage>, paths: &Vec<String>) -> (r: String)
    requires
        images@.len() == paths@.len(),
    ensures
        r@ == rewrite_fold(
            text@,
            images@.map_values(|i: ParsedReadmeImage| image_view(i)),
            paths@.map_values(|p: String| p@),
            images@.len(),
        ),
{
    let ghost views = images@.map_values(|i: ParsedReadmeImage| image_view(i));
    let ghost targets = paths@.map_values(|p: String| p@);
    let mut out = text.to_owned();
    let mut k: usize = 0;
    while k < images.len()
        invariant
            images@.len() == paths@.len(),
            k <= images@.len(),
            views == images@.map_values(|i: ParsedReadmeImage| image_view(i)),
            targets == paths@.map_values(|p: String| p@),
            out@ == rewrite_fold(text@, views, targets, k as nat),
        decreases images@.len() - k,
    {
        out = rewrite_image(out.as_str(), &images[k], paths[k].as_str());
        proof {
            assert(views[k as int] == image_view(images@[k as int]));
            assert(targets[k as int] == paths@[k as int]@);
        }
        k = k + 1;
    }
    out
}

} // verus!
