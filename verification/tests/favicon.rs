use loungy::favicon::{
    favicon_hrefs, favicon_origin, favicon_targets, icon_address, icon_hrefs, icon_taken, FaviconSearch, FaviconStep,
};

#[test]
fn links_show_the_favicon_of_their_origin() {
    assert_eq!(favicon_origin("https://www.github.com/foo/bar?x=1"), "https://www.github.com/");
    assert_eq!(favicon_origin("http://localhost:8080/a"), "http://localhost/");
    assert_eq!(favicon_origin("mailto:someone@example.com"), "");
    assert_eq!(favicon_origin("ftp://example.org/file"), "");
    assert_eq!(favicon_origin("not a link"), "");
}

#[test]
fn subdomains_also_search_their_parent_domain() {
    assert_eq!(favicon_targets("https://docs.rs/"), Some(vec!["https://docs.rs/".to_string()]));
    assert_eq!(
        favicon_targets("https://api.docs.example.com/"),
        Some(vec!["https://api.docs.example.com/".to_string(), "https://example.com/".to_string()])
    );
    assert_eq!(favicon_targets("http://127.0.0.1/"), Some(vec!["http://127.0.0.1/".to_string()]));
    assert_eq!(favicon_targets(""), None);
}

#[test]
fn icon_links_then_the_usual_places() {
    let html = "<html><head><link rel=\"icon\" href=\"/a.png\"><link rel=\"stylesheet\" href=\"/s.css\">\
                <link rel=\"apple-touch-icon\"><link rel=\"shortcut icon\" href=\"b.ico\"></head><body></body></html>";
    assert_eq!(icon_hrefs(html), Some(vec!["/a.png".to_string(), "b.ico".to_string(), "/favicon.svg".to_string(), "/favicon.ico".to_string()]));
    assert_eq!(icon_hrefs(""), Some(vec!["/favicon.svg".to_string(), "/favicon.ico".to_string()]));
    assert_eq!(favicon_hrefs(vec![None, Some("x".to_string())]), vec!["x", "/favicon.svg", "/favicon.ico"]);
}

#[test]
fn icon_links_are_resolved_against_the_page() {
    assert_eq!(icon_address("https://example.com/dir/page", "icon.png"), Some("https://example.com/dir/icon.png".to_string()));
    assert_eq!(icon_address("https://example.com/dir/page", "/favicon.ico"), Some("https://example.com/favicon.ico".to_string()));
    assert_eq!(icon_address("https://example.com/", "https://cdn.example.net/i.png"), Some("https://cdn.example.net/i.png".to_string()));
    assert_eq!(icon_address("not a page", "icon.png"), None);
}

#[test]
fn only_good_icons_are_taken() {
    assert!(icon_taken(200, Some("image/png"), Some(4096)));
    assert!(icon_taken(200, Some("image/png"), None));
    assert!(icon_taken(200, Some("image/svg+xml"), Some(100)));
    assert!(!icon_taken(200, Some("image/png"), Some(100)));
    assert!(!icon_taken(404, Some("image/png"), Some(4096)));
    assert!(!icon_taken(200, None, Some(4096)));
    assert!(!icon_taken(200, Some("text/html"), Some(4096)));
    assert!(icon_taken(200, Some("image/x-icon"), Some(2048)));
}

#[test]
fn the_first_icon_taken_ends_the_search() {
    let targets = vec!["https://a.example.com/".to_string(), "https://example.com/".to_string()];
    let (mut search, step) = FaviconSearch::start(targets);
    assert!(matches!(&step, FaviconStep::LoadPage(p) if p == "https://a.example.com/"));
    // The first page cannot be fetched: the next one is asked for.
    let step = search.on_page(None);
    assert!(matches!(&step, FaviconStep::LoadPage(p) if p == "https://example.com/"));
    let html = "<link rel=\"icon\" href=\"/i.png\">".to_string();
    let step = search.on_page(Some(("https://example.com/".to_string(), html)));
    assert!(matches!(&step, FaviconStep::LoadIcon(i) if i == "https://example.com/i.png"));
    let step = search.on_icon(false);
    assert!(matches!(&step, FaviconStep::LoadIcon(i) if i == "https://example.com/favicon.svg"));
    let step = search.on_icon(true);
    assert!(matches!(&step, FaviconStep::Found(f) if f == "https://example.com/favicon.svg"));
}

#[test]
fn no_icon_taken_is_not_found() {
    let (mut search, _) = FaviconSearch::start(vec!["https://example.com/".to_string()]);
    let step = search.on_page(Some(("https://example.com/".to_string(), String::new())));
    assert!(matches!(step, FaviconStep::LoadIcon(_)));
    assert!(matches!(search.on_icon(false), FaviconStep::LoadIcon(_)));
    assert!(matches!(search.on_icon(false), FaviconStep::NotFound));
    let (_, none) = FaviconSearch::start(vec![]);
    assert!(matches!(none, FaviconStep::NotFound));
}
