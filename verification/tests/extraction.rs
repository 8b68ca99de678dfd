use brazen::extraction::extract_entities;

#[test]
fn extracts_links_images_headings_forms_and_metadata() {
    let html = r##"<html><head><meta name="description" content="A page"><meta property="og:title" content="T"><meta name="empty" content=""></head>
<body><h1> Title </h1><h2></h2><a href="/x">  Go  there </a><a href="#top">skip</a><a href="/y"></a>
<img src="a.png" alt="Pic"><img src="b.png"><form action="/s"></form></body></html>"##;
    let entities = extract_entities(html);
    let kinds: Vec<&str> = entities.iter().map(|e| e.kind.as_str()).collect();
    assert_eq!(kinds, vec!["link", "link", "image", "image", "h1", "form", "metadata", "metadata"]);
    assert_eq!(entities[0].value, "/x");
    assert_eq!(entities[0].label, "Go  there");
    assert_eq!(entities[1].label, "/y");
    assert_eq!(entities[2].label, "Pic");
    assert_eq!(entities[3].label, "b.png");
    assert_eq!(entities[4].value, "Title");
    assert_eq!(entities[5].label, "/s [GET]");
    assert_eq!(entities[5].metadata, vec![("method".to_string(), "GET".to_string())]);
    assert_eq!(entities[6].label, "description: A page");
    assert_eq!(entities[7].label, "og:title: T");
}

#[test]
fn empty_page_has_no_entities() {
    assert!(extract_entities("").is_empty());
}
