use git_chest::image::ext_from_content_type;

#[test]
fn known_image_types() {
    let table = [
        ("image/png", "png"),
        ("image/jpeg", "jpg"),
        ("image/gif", "gif"),
        ("image/bmp", "bmp"),
        ("image/svg+xml", "svg"),
        ("image/webp", "webp"),
        ("image/tiff", "tiff"),
        ("image/x-icon", "ico"),
    ];
    for (ct, ext) in table {
        assert_eq!(ext_from_content_type(ct), Some(ext.to_string()));
    }
}

#[test]
fn parameters_after_semicolon() {
    assert_eq!(ext_from_content_type("image/png; charset=binary"), Some("png".to_string()));
    assert_eq!(ext_from_content_type("text/plain;image/gif"), Some("gif".to_string()));
}

#[test]
fn unknown_types_give_no_extension() {
    assert_eq!(ext_from_content_type("image/avif"), None);
    assert_eq!(ext_from_content_type("text/html"), None);
    assert_eq!(ext_from_content_type(""), None);
    assert_eq!(ext_from_content_type("text/plain; image/png"), None);
}
