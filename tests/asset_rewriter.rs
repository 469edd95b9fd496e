use git_chest::image::ext_from_content_type;
use git_chest::paths::{asset_file_name, join, readme_asset_dir};
use git_chest::readme::{
    downloadable_images, images_from_matches, is_absolute_url, parse_images, rewrite_image,
    rewrite_readme,
    ReadmeImageKind,
};

#[test]
fn inline_image_is_rewritten_to_local_copy() {
    let text = "![logo](https://host/logo.png)";
    let images = downloadable_images(text);
    assert_eq!(images.len(), 1);
    assert_eq!(images[0].url, "https://host/logo.png");
    assert_eq!(images[0].alt.as_deref(), Some("logo"));
    let ext = ext_from_content_type("image/png");
    assert_eq!(ext.as_deref(), Some("png"));
    let dir = readme_asset_dir("/data", "octo", "hello");
    assert_eq!(dir, "/data/assets/repos/octo/hello/readme");
    let name = asset_file_name(7, &ext);
    assert_eq!(name, "7.png");
    let path = join(&dir, &name);
    let out = rewrite_image(text, &images[0], &path);
    assert_eq!(out, "![logo](/data/assets/repos/octo/hello/readme/7.png)");
    assert!(!out.contains("https://host/logo.png"));
}

#[test]
fn relative_inline_images_are_skipped() {
    let images = parse_images("![a](docs/a.png) ![b](http://x/b.png)");
    assert!(images.is_empty());
}

#[test]
fn reference_style_image_resolves_through_definition() {
    let text = "[![Build][ci]]\n\n[ci]: https://ci.example/badge.svg\n";
    let images = parse_images(text);
    assert_eq!(images.len(), 1);
    assert_eq!(images[0].url, "https://ci.example/badge.svg");
    assert_eq!(images[0].alt.as_deref(), Some("Build"));
    match &images[0].kind {
        ReadmeImageKind::MarkdownVar(v) => assert_eq!(v, "ci"),
        other => panic!("unexpected kind {:?}", other),
    }
    let out = rewrite_image(text, &images[0], "/local/1.svg");
    assert_eq!(out, "[![Build][ci]]\n\n[ci]: /local/1.svg\n");
}

#[test]
fn definition_must_start_a_line() {
    let text = "[![Build][ci]] see [ci]: https://ci.example/badge.svg";
    assert!(parse_images(text).is_empty());
}

#[test]
fn unused_definition_is_not_an_image() {
    let text = "[docs]: https://example.com/docs\n";
    assert!(parse_images(text).is_empty());
}

#[test]
fn html_image_with_src_before_alt() {
    let text = r#"<p><img width="40" src="https://x.io/a.gif" alt="anim"></p>"#;
    let images = parse_images(text);
    assert_eq!(images.len(), 1);
    assert_eq!(images[0].url, "https://x.io/a.gif");
    assert_eq!(images[0].alt.as_deref(), Some("anim"));
    let out = rewrite_image(text, &images[0], "/l/3.gif");
    assert_eq!(out, r#"<p><img width="40" src="/l/3.gif" alt="anim"></p>"#);
}

#[test]
fn html_image_with_alt_first_is_not_matched() {
    let text = r#"<img alt="x" src="https://x.io/a.gif">"#;
    assert!(parse_images(text).is_empty());
}

#[test]
fn order_is_inline_then_reference_then_html() {
    let text = "<img src=\"https://h/3.png\" alt=\"\">\n[![r][v]]\n[v]: https://h/2.png\n![i](https://h/1.png)";
    let images = parse_images(text);
    let urls: Vec<&str> = images.iter().map(|i| i.url.as_str()).collect();
    assert_eq!(urls, vec!["https://h/1.png", "https://h/2.png", "https://h/3.png"]);
    assert_eq!(images[2].alt, None);
}

#[test]
fn identical_snippets_are_rewritten_together() {
    let text = "![x](https://h/a.png) and ![x](https://h/a.png)";
    let images = downloadable_images(text);
    assert_eq!(images.len(), 2);
    let once = rewrite_image(text, &images[0], "/l/1.png");
    assert_eq!(once, "![x](/l/1.png) and ![x](/l/1.png)");
    let twice = rewrite_image(&once, &images[1], "/l/2.png");
    assert_eq!(twice, once);
}

#[test]
fn empty_alt_is_none_and_rewrites_bare_brackets() {
    let text = "![](https://h/a.png)";
    let images = downloadable_images(text);
    assert_eq!(images[0].alt, None);
    assert_eq!(rewrite_image(text, &images[0], "p.png"), "![](p.png)");
}

#[test]
fn absolute_urls() {
    assert!(is_absolute_url("https://a/b"));
    assert!(is_absolute_url("http://a/b"));
    assert!(!is_absolute_url("./img.png"));
    assert!(!is_absolute_url("ftp://a/b"));
}

#[test]
fn html_relative_image_is_found_but_not_downloaded() {
    let text = r#"<img src="img/x.png" alt="x">"#;
    assert_eq!(parse_images(text).len(), 1);
    assert!(downloadable_images(text).is_empty());
}

#[test]
fn asset_names_without_extension_and_negative_ids() {
    assert_eq!(asset_file_name(12, &None), "12");
    assert_eq!(asset_file_name(-3, &Some("ico".to_string())), "-3.ico");
    assert_eq!(asset_file_name(0, &None), "0");
}

fn caps(groups: &[&[Option<&str>]]) -> Vec<Vec<Option<String>>> {
    groups.iter().map(|m| m.iter().map(|g| g.map(|s| s.to_string())).collect()).collect()
}

#[test]
fn images_from_given_matches() {
    let inline = caps(&[&[Some("a"), Some("https://h/a.png")], &[Some(""), Some("rel/b.png")]]);
    let short = caps(&[&[Some("first"), Some("v")], &[Some("second"), Some("v")], &[Some(""), Some("w")]]);
    let defs = caps(&[&[Some("v"), Some("https://h/v.svg")], &[Some("x"), Some("https://h/x.svg")], &[Some("w"), Some("u")]]);
    let html = caps(&[&[Some("https://h/h.gif"), Some("")]]);
    let images = images_from_matches(&inline, &short, &defs, &html);
    let urls: Vec<&str> = images.iter().map(|i| i.url.as_str()).collect();
    assert_eq!(urls, vec!["https://h/a.png", "https://h/v.svg", "u", "https://h/h.gif"]);
    assert_eq!(images[0].alt.as_deref(), Some("a"));
    assert_eq!(images[1].alt.as_deref(), Some("second"));
    assert_eq!(images[2].alt, None);
    assert_eq!(images[3].alt, None);
    assert!(matches!(images[3].kind, ReadmeImageKind::Html));
}

#[test]
fn repeated_embed_keeps_path_of_first_rewrite() {
    let text = "![a](https://h/a.png)\n<img src=\"https://h/b.png\" alt=\"b\">\n![a](https://h/a.png)";
    let images = downloadable_images(text);
    assert_eq!(images.len(), 3);
    let paths = vec!["/l/1.png".to_string(), "/l/2.png".to_string(), "/l/3.png".to_string()];
    let out = rewrite_readme(text, &images, &paths);
    assert_eq!(out, "![a](/l/1.png)\n<img src=\"/l/3.png\" alt=\"b\">\n![a](/l/1.png)");
}
