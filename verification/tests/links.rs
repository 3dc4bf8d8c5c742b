use release_notifier::url::{
    extension_from_content_type, extension_of_image_type, file_extension, image_file_name,
    url_extension, Url,
};

#[test]
fn test_extension_from_content_type() {
    assert_eq!(
        extension_from_content_type("image/jpeg"),
        Some("jpg".to_string())
    );
    assert_eq!(
        extension_from_content_type("Image/PNG; charset=binary"),
        Some("png".to_string())
    );
    assert_eq!(
        extension_from_content_type("image/svg+xml"),
        Some("svg".to_string())
    );
    assert_eq!(extension_from_content_type("text/html"), None);
    assert_eq!(extension_from_content_type("image/"), None);
}

#[test]
fn image_types() {
    let extension = |mime_type: &str| extension_of_image_type(mime_type);
    assert_eq!(extension("image/pjpeg").as_deref(), Some("jpg"));
    assert_eq!(extension("image/x-icon").as_deref(), Some("ico"));
    assert_eq!(
        extension("image/vnd.microsoft.icon").as_deref(),
        Some("ico")
    );
    assert_eq!(extension("image/webp").as_deref(), Some("webp"));
    assert_eq!(extension("imag"), None);
    assert_eq!(extension("xmage/png"), None);
    assert_eq!(extension_from_content_type(""), None);
    assert_eq!(
        extension_from_content_type("  IMAGE/GIF  ").as_deref(),
        Some("gif")
    );
}

#[test]
fn links_are_normalized() {
    let url = Url::parse("HTTPS://WWW.Example.com:443/a%20b/../C.JPG?q=1#f").unwrap();
    assert_eq!(url.text, "https://www.example.com/C.JPG?q=1#f");
    assert_eq!(url.host.as_deref(), Some("www.example.com"));
    assert_eq!(url.path, "/C.JPG");
    assert_eq!(url_extension(&url).as_deref(), Some("jpg"));
    let url = Url::parse("mailto:a@b.c").unwrap();
    assert_eq!(url.host, None);
    assert_eq!(url.path, "a@b.c");
    assert_eq!(Url::parse("not a url"), None);
    assert_eq!(Url::parse("/relative"), None);
    assert_eq!(url.clone(), url);
}

#[test]
fn extensions_are_those_of_the_standard_library() {
    let paths = [
        "", "/", "a", "/a", "/a.b", "/a.b.c", "/.b", "/..b", "/a.", "/.", "/..", "/a/..", "/a.b/",
        "/a.b/.", "/a.b/./", "/a.b//", "a.b/c", "...", "/...", "/..a.b", "/ü.Ä", "a.b/..", "./a.b",
        "/a.b/...", "/a.m3u8", "/.m3u8", "/x/a.M3U8", "..", "../a.b", ".a/b", "/a..", "/a..b",
    ];
    for path in paths {
        let expected = std::path::Path::new(path)
            .extension()
            .map(|extension| extension.to_string_lossy().into_owned());
        assert_eq!(file_extension(path), expected, "{:?}", path);
    }
}

#[test]
fn image_names() {
    let url = |text: &str| Url::parse(text).unwrap();
    let png = Some("image/png".to_string());
    assert_eq!(
        image_file_name(&url("https://a.example/b.JPG"), png.clone(), "n"),
        Ok("n.jpg".to_string())
    );
    assert_eq!(
        image_file_name(&url("https://a.example/b"), png, "n"),
        Ok("n.png".to_string())
    );
    assert_eq!(
        image_file_name(&url("https://a.example/b"), None, "n"),
        Err("No file extension found for https://a.example/b".to_string())
    );
    assert_eq!(
        image_file_name(
            &url("https://a.example/b"),
            Some("text/html".to_string()),
            "n"
        ),
        Err("No file extension found for https://a.example/b".to_string())
    );
}
