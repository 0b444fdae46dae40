use mini_http::mime_type::get_content_type;

#[test]
fn json_file_is_application_json() {
    assert_eq!(get_content_type("./static/app.json"), "application/json");
}

#[test]
fn unknown_extension_is_octet_stream() {
    assert_eq!(get_content_type("./static/archive.xyz"), "application/octet-stream");
    assert_eq!(get_content_type("file."), "application/octet-stream");
    assert_eq!(get_content_type(""), "application/octet-stream");
    assert_eq!(get_content_type("Makefile"), "application/octet-stream");
}

#[test]
fn every_registered_extension_has_its_type() {
    let table = [
        ("html", "text/html"),
        ("htm", "text/html"),
        ("css", "text/css"),
        ("js", "application/javascript"),
        ("mjs", "application/javascript"),
        ("jpg", "image/jpeg"),
        ("jpeg", "image/jpeg"),
        ("png", "image/png"),
        ("gif", "image/gif"),
        ("bmp", "image/bmp"),
        ("svg", "image/svg+xml"),
        ("webp", "image/webp"),
        ("ttf", "font/ttf"),
        ("otf", "font/otf"),
        ("woff", "font/woff"),
        ("woff2", "font/woff2"),
        ("mp4", "video/mp4"),
        ("webm", "video/webm"),
        ("ogg", "video/ogg"),
        ("mp3", "audio/mpeg"),
        ("wav", "audio/wav"),
        ("json", "application/json"),
        ("xml", "application/xml"),
        ("pdf", "application/pdf"),
        ("zip", "application/zip"),
        ("gz", "application/gzip"),
        ("txt", "text/plain"),
    ];
    for (extension, content_type) in table {
        assert_eq!(get_content_type(&format!("dir/name.{}", extension)), content_type);
    }
}

#[test]
fn extension_is_what_follows_the_last_dot() {
    assert_eq!(get_content_type("a.tar.gz"), "application/gzip");
    assert_eq!(get_content_type("a.json.bak"), "application/octet-stream");
    assert_eq!(get_content_type("./dir.d/page.html"), "text/html");
}

#[test]
fn extension_letters_are_folded_to_lower_case() {
    assert_eq!(get_content_type("PHOTO.JPG"), "image/jpeg");
    assert_eq!(get_content_type("index.Html"), "text/html");
    assert_eq!(get_content_type("fonts/a.WOFF2"), "font/woff2");
}

#[test]
fn path_without_dot_is_its_own_extension() {
    assert_eq!(get_content_type("json"), "application/json");
    assert_eq!(get_content_type("TXT"), "text/plain");
}

#[test]
fn extension_outside_ascii_is_unknown() {
    assert_eq!(get_content_type("a.j\u{e9}"), "application/octet-stream");
    assert_eq!(get_content_type("\u{4e2d}\u{6587}.png"), "image/png");
}
