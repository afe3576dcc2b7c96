//! Tests of the content pipeline: scanning, resolution, inlining,
//! body extraction and concatenation.

use stellaron_lib::manifest::{Manifest, ManifestEntry};
use stellaron_lib::render::{assemble, combine_bodies, render_document_text, rewrite_images};
use stellaron_lib::markup::find_image_srcs;
use stellaron_lib::paths::resolve_relative;
use stellaron_lib::text::replace_all;

fn chars(s: &str) -> Vec<char> {
    s.chars().collect()
}

fn entry(id: &str, location: &str, media_type: &str) -> ManifestEntry {
    ManifestEntry {
        id: id.to_string(),
        location: location.to_string(),
        media_type: media_type.to_string(),
    }
}

fn string_of(v: &[char]) -> String {
    v.iter().collect()
}

#[test]
fn finds_image_sources_in_document_order() {
    let doc = chars(r#"<p>a</p><img x src="one.png"><div></div><img y src="two.jpg">"#);
    let srcs = find_image_srcs(&doc);
    let got: Vec<String> = srcs.iter().map(|s| string_of(s)).collect();
    assert_eq!(got, vec!["one.png".to_string(), "two.jpg".to_string()]);
}

#[test]
fn tag_without_source_contributes_nothing() {
    let doc = chars(r#"<img alt="no source here"><img a src="x.png">"#);
    let srcs = find_image_srcs(&doc);
    let got: Vec<String> = srcs.iter().map(|s| string_of(s)).collect();
    assert_eq!(got, vec!["x.png".to_string()]);
}

#[test]
fn unterminated_tag_ends_scan() {
    let doc = chars(r#"<img a src="x.png"#);
    let srcs = find_image_srcs(&doc);
    assert!(srcs.is_empty());
}

#[test]
fn replace_all_replaces_every_occurrence() {
    let out = replace_all(&chars("one two one"), &chars("one"), &chars("1"));
    assert_eq!(string_of(&out), "1 two 1");
}

#[test]
fn replace_all_is_non_overlapping_left_to_right() {
    let out = replace_all(&chars("aaa"), &chars("aa"), &chars("b"));
    assert_eq!(string_of(&out), "ba");
}

#[test]
fn resolves_relative_to_document_directory() {
    let r = resolve_relative(&chars("/EPUB/text/ch1.xhtml"), &chars("images/pic.png"));
    assert_eq!(r, "/EPUB/text/images/pic.png");
}

#[test]
fn resolves_at_container_root() {
    let r = resolve_relative(&chars("ch1.xhtml"), &chars("pic.png"));
    assert_eq!(r, "pic.png");
}

#[test]
fn resolves_under_leading_slash() {
    let r = resolve_relative(&chars("/ch1.xhtml"), &chars("pic.png"));
    assert_eq!(r, "/pic.png");
}

#[test]
fn resolves_parent_segments() {
    let r = resolve_relative(&chars("/EPUB/text/ch1.xhtml"), &chars("../images/x.png"));
    assert_eq!(r, "/EPUB/images/x.png");
    let r = resolve_relative(&chars("/EPUB/text/ch1.xhtml"), &chars("./pic.png"));
    assert_eq!(r, "/EPUB/text/pic.png");
    let r = resolve_relative(&chars("/EPUB/a/b/c.xhtml"), &chars("../../img//y.png"));
    assert_eq!(r, "/EPUB/img/y.png");
}

#[test]
fn absolute_reference_passes_through() {
    let r = resolve_relative(&chars("/EPUB/text/ch1.xhtml"), &chars("/images/x.png"));
    assert_eq!(r, "/images/x.png");
}

#[test]
fn inlines_reference_through_parent_directory() {
    let m = Manifest {
        entries: vec![
            entry("c1", "/EPUB/text/ch1.xhtml", "application/xhtml+xml"),
            entry("i1", "/EPUB/images/pic.png", "image/png"),
        ],
        spine: vec!["c1".to_string()],
    };
    let doc = chars(r#"<img a src="../images/pic.png">"#);
    let reads = vec![Some(b"abc".to_vec())];
    let out = string_of(&rewrite_images(&doc, &m, &chars("/EPUB/text/ch1.xhtml"), &reads));
    assert_eq!(out, r#"<img a src="data:image/png;base64,YWJj">"#);
}

#[test]
fn assembles_reading_sequence_in_order_with_skips() {
    let m = Manifest {
        entries: vec![
            entry("c1", "/EPUB/one.xhtml", "application/xhtml+xml"),
            entry("style", "/EPUB/a.css", "text/css"),
            entry("c2", "/EPUB/two.html", "text/html"),
        ],
        spine: vec![
            "c1".to_string(),
            "ghost".to_string(),
            "style".to_string(),
            "c2".to_string(),
        ],
    };
    let texts = vec![
        Some("<html><body><p>one</p></body></html>".to_string()),
        None,
        Some("<html><body>never rendered</body></html>".to_string()),
        Some("<html><body><p>two</p></body></html>".to_string()),
    ];
    let readss = vec![vec![], vec![], vec![], vec![]];
    let combined = assemble(&m, &texts, &readss);
    assert_eq!(combined, "<p>one</p><p>two</p>");
}

#[test]
fn assembly_skips_unread_documents() {
    let m = Manifest {
        entries: vec![entry("c1", "/EPUB/one.xhtml", "application/xhtml+xml")],
        spine: vec!["c1".to_string()],
    };
    let combined = assemble(&m, &vec![None], &vec![vec![]]);
    assert_eq!(combined, "");
}

#[test]
fn empty_reading_sequence_is_a_valid_empty_result() {
    let m = Manifest {
        entries: vec![],
        spine: vec![],
    };
    assert_eq!(assemble(&m, &vec![], &vec![]), "");
}

#[test]
fn lookup_by_id_returns_first_match() {
    let m = Manifest {
        entries: vec![
            entry("a", "/one.xhtml", "application/xhtml+xml"),
            entry("b", "/two.xhtml", "application/xhtml+xml"),
        ],
        spine: vec!["a".to_string(), "b".to_string()],
    };
    assert_eq!(m.lookup_by_id("b").unwrap().location, "/two.xhtml");
    assert!(m.lookup_by_id("c").is_none());
    assert_eq!(m.lookup_by_location("/one.xhtml").unwrap().id, "a");
    assert!(m.lookup_by_location("/missing").is_none());
    assert_eq!(m.reading_sequence().len(), 2);
}

#[test]
fn first_image_follows_manifest_order() {
    let m = Manifest {
        entries: vec![
            entry("doc", "/a.xhtml", "application/xhtml+xml"),
            entry("i1", "/img/one.png", "image/png"),
            entry("i2", "/img/two.jpg", "image/jpeg"),
        ],
        spine: vec![],
    };
    assert_eq!(m.first_image().unwrap().id, "i1");
    let none = Manifest { entries: vec![entry("doc", "/a.xhtml", "application/xhtml+xml")], spine: vec![] };
    assert!(none.first_image().is_none());
}

#[test]
fn inlines_resolving_reference_as_data_url() {
    let m = Manifest {
        entries: vec![
            entry("c1", "/EPUB/text/ch1.xhtml", "application/xhtml+xml"),
            entry("i1", "/EPUB/text/images/pic.png", "image/png"),
        ],
        spine: vec!["c1".to_string()],
    };
    let doc = chars(r#"<p>t</p><img a src="images/pic.png">"#);
    let reads = vec![Some(b"abc".to_vec())];
    let out = string_of(&rewrite_images(&doc, &m, &chars("/EPUB/text/ch1.xhtml"), &reads));
    assert_eq!(out, r#"<p>t</p><img a src="data:image/png;base64,YWJj">"#);
    assert!(!out.contains("images/pic.png"));
    let payload = out.split("base64,").nth(1).unwrap().split('"').next().unwrap();
    let decoded = base64::Engine::decode(&base64::engine::general_purpose::STANDARD, payload).unwrap();
    assert_eq!(decoded, b"abc".to_vec());
}

#[test]
fn unresolved_reference_is_left_untouched() {
    let m = Manifest {
        entries: vec![entry("c1", "/EPUB/text/ch1.xhtml", "application/xhtml+xml")],
        spine: vec!["c1".to_string()],
    };
    let doc = chars(r#"<p>t</p><img a src="images/gone.png">"#);
    let reads = vec![None];
    let out = string_of(&rewrite_images(&doc, &m, &chars("/EPUB/text/ch1.xhtml"), &reads));
    assert_eq!(out, r#"<p>t</p><img a src="images/gone.png">"#);
    assert!(out.contains("images/gone.png"));
    assert!(!out.contains("data:"));
}

#[test]
fn already_inline_reference_is_not_rewritten() {
    let m = Manifest {
        entries: vec![entry("i1", "/pic.png", "image/png")],
        spine: vec![],
    };
    let doc = chars(r#"<img a src="data:image/png;base64,AAAA">"#);
    let out = string_of(&rewrite_images(&doc, &m, &chars("/doc.xhtml"), &vec![Some(b"x".to_vec())]));
    assert_eq!(out, r#"<img a src="data:image/png;base64,AAAA">"#);
}

#[test]
fn extracts_body_of_document() {
    let m = Manifest { entries: vec![], spine: vec![] };
    let body = render_document_text(
        "<html><head><title>t</title></head><body><h1>T</h1></body></html>",
        &m,
        "/ch1.xhtml",
        &vec![],
    );
    assert_eq!(body.unwrap(), "<h1>T</h1>");
}

#[test]
fn combines_bodies_in_reading_order_with_skips() {
    let bodies = vec![
        Some("<p>one</p>".to_string()),
        None,
        Some("<p>two</p>".to_string()),
        None,
        Some("<p>three</p>".to_string()),
    ];
    let combined = combine_bodies(&bodies);
    assert_eq!(combined, "<p>one</p><p>two</p><p>three</p>");
    let a = combined.find("one").unwrap();
    let b = combined.find("two").unwrap();
    let c = combined.find("three").unwrap();
    assert!(a < b && b < c);
    assert_eq!(combine_bodies(&vec![None, None]), "");
}

#[test]
fn rendering_twice_is_byte_identical() {
    let m = Manifest {
        entries: vec![
            entry("c1", "/EPUB/ch1.xhtml", "application/xhtml+xml"),
            entry("i1", "/EPUB/pic.png", "image/png"),
        ],
        spine: vec!["c1".to_string()],
    };
    let text = r#"<html><body><p>t</p><img a src="pic.png"></body></html>"#;
    let reads = vec![Some(vec![0u8, 255u8, 7u8])];
    let first = render_document_text(text, &m, "/EPUB/ch1.xhtml", &reads);
    let second = render_document_text(text, &m, "/EPUB/ch1.xhtml", &reads);
    assert_eq!(first, second);
    assert!(first.unwrap().contains("data:image/png;base64,"));
}

#[test]
fn open_failure_is_the_only_render_error() {
    let r = stellaron_lib::render::get_epub_content("/no/such/container.epub");
    assert!(matches!(
        r,
        Err(stellaron_lib::errors::RenderError::Open(stellaron_lib::errors::OpenError::NotFound))
    ));
}
