use kasetophono::category::{
    categories_from_anchors, normalize_name, scrape_categories, Category,
};
use kasetophono::error::ScrapeError;
use kasetophono::html::{select, Selected};

fn front_page() -> String {
    let links = [
        ("https://www.kasetophono.com/p/blog-page_28.html", "ΞΕΝΑ"),
        ("http://www.kasetophono.com/search/label/Playlist", "_Νέες"),
        ("http://www.kasetophono.com/search/label/Rock", "_Ροκ"),
        ("https://www.kasetophono.com/p/blog-page_28.html", "_Κι άλλα μουσικά είδη"),
        ("https://www.kasetophono.com/p/blog-page_3.html", " ΜΕΡΕΣ "),
        ("https://www.kasetophono.com/p/4.html", "_4 Εποχές"),
        ("https://www.kasetophono.com/p/blog-page_5.html", "Ελληνικα"),
        ("https://www.kasetophono.com/p/blog-page_6.html", "διαθεση"),
        ("https://www.kasetophono.com/p/blog-page_7.html", "Ταξιδια"),
        ("https://www.kasetophono.com/p/blog-page_8.html", "ΣΙΝΕΜΑ"),
        ("https://www.kasetophono.com/p/blog-page_9.html", "Παιδικα"),
        ("https://www.kasetophono.com/p/blog-page_10.html", "Radio"),
        ("https://www.kasetophono.com/p/blog-page_11.html", "Info"),
        ("https://www.kasetophono.com/p/4.html", "Εποχές"),
    ];
    let mut page = String::from(
        "<!DOCTYPE html><html><head><title>kasetophono</title></head><body>\
         <ul id='nav1'><li><a href='https://www.kasetophono.com/p/other.html'>Other</a></li></ul>\
         <ul id='nav2'>\n",
    );
    for (href, text) in links {
        page.push_str(&format!("<li><a href='{}'>{}</a></li>\n", href, text));
    }
    page.push_str("</ul><p><a href='https://www.kasetophono.com/p/footer.html'>Footer</a></p></body></html>");
    page
}

#[test]
fn category_correct_parse() {
    let body = front_page();
    let categories = scrape_categories(&body).unwrap();

    // check we chose the correct name for the double category
    let double_sub = Category {
        name: "Ξενα".into(),
        url: "https://www.kasetophono.com/p/blog-page_28.html".into(),
    };
    assert!(categories.contains(&double_sub));

    // check that a sigma at the end is written in its final form
    let name_check = Category {
        name: "Μερες".into(),
        url: "https://www.kasetophono.com/p/blog-page_3.html".into(),
    };
    assert!(categories.contains(&name_check));

    // check that we hoisted the anomalous subcategory
    let fake_category = Category {
        name: "4 εποχές".into(),
        url: "https://www.kasetophono.com/p/4.html".into(),
    };
    assert!(categories.contains(&fake_category));

    // check that we got the correct number of categories
    assert_eq!(categories.len(), 10);
}

#[test]
fn categories_keep_the_order_of_the_page() {
    let categories = scrape_categories(&front_page()).unwrap();
    let urls: Vec<&str> = categories.iter().map(|c| c.url.as_str()).collect();
    assert_eq!(urls[0], "https://www.kasetophono.com/p/blog-page_28.html");
    assert_eq!(urls[1], "https://www.kasetophono.com/p/blog-page_3.html");
    assert_eq!(urls[2], "https://www.kasetophono.com/p/4.html");
    assert_eq!(urls[9], "https://www.kasetophono.com/p/blog-page_11.html");
}

#[test]
fn name_normalization() {
    assert_eq!(normalize_name("_ξενα"), "Ξενα");
    assert_eq!(normalize_name("  _ξενα\n"), "Ξενα");
    assert_eq!(normalize_name("ΜΕΡΕΣ"), "Μερες");
    assert_eq!(normalize_name("μερεσ"), "Μερες");
    assert_eq!(normalize_name("σ"), "Σ");
    assert_eq!(normalize_name("ασ"), "Ας");
    assert_eq!(normalize_name("ΣΟΣ"), "Σος");
    assert_eq!(normalize_name("__x"), "X");
    assert_eq!(normalize_name("_ x"), " x");
    assert_eq!(normalize_name(""), "");
    assert_eq!(normalize_name(" _ "), "");
    assert_eq!(normalize_name("ßA"), "SSa");
    assert_eq!(normalize_name("aİ"), "Ai\u{307}");
}

#[test]
fn a_page_without_navigation_fails() {
    assert_eq!(
        scrape_categories("<html><body><p>nothing here</p></body></html>"),
        Err(ScrapeError::MissingNavigation)
    );
    assert_eq!(scrape_categories(""), Err(ScrapeError::MissingNavigation));
    assert_eq!(
        scrape_categories("<ul id='nav2'><li>no link</li></ul>"),
        Err(ScrapeError::MissingNavigation)
    );
    assert_eq!(categories_from_anchors(&vec![]), Err(ScrapeError::MissingNavigation));
    // links, but none to a category
    let page = "<ul id='nav2'><li><a href='https://k/search/label/x'>_x</a></li></ul>";
    assert_eq!(scrape_categories(page), Ok(vec![]));
}

fn anchor(href: Option<&str>, text: Option<&str>) -> Selected {
    Selected { attribute: href.map(str::to_string), text: text.map(str::to_string) }
}

#[test]
fn a_second_link_to_an_address_adds_nothing() {
    let anchors = vec![
        anchor(Some("https://k/p/a.html"), Some("first")),
        anchor(Some("https://k/search/label/x"), Some("_label")),
        anchor(Some("https://k/p/a.html"), Some("second")),
        anchor(Some("https://k/p/b.html"), Some("other")),
        anchor(Some("https://k/p/a.html"), None),
    ];
    let categories = categories_from_anchors(&anchors).unwrap();
    assert_eq!(
        categories,
        vec![
            Category { name: "First".into(), url: "https://k/p/a.html".into() },
            Category { name: "Other".into(), url: "https://k/p/b.html".into() },
        ]
    );
}

#[test]
fn malformed_navigation_fails() {
    let no_address = vec![anchor(Some("https://k/p/a.html"), Some("a")), anchor(None, Some("b"))];
    assert_eq!(categories_from_anchors(&no_address), Err(ScrapeError::MissingAddress));
    let no_text = vec![anchor(Some("https://k/p/a.html"), None)];
    assert_eq!(categories_from_anchors(&no_text), Err(ScrapeError::MissingText));
    // a link that is no category needs no text
    let label = vec![anchor(Some("https://k/search/label/x"), None)];
    assert_eq!(categories_from_anchors(&label), Ok(vec![]));
    // the first fault in the order of the page is the one reported
    let both = vec![anchor(Some("https://k/p/a.html"), None), anchor(None, None)];
    assert_eq!(categories_from_anchors(&both), Err(ScrapeError::MissingText));

    let page = "<ul id='nav2'><li><a>no address</a></li></ul>";
    assert_eq!(scrape_categories(page), Err(ScrapeError::MissingAddress));
    let page = "<ul id='nav2'><li><a href='https://k/p/a.html'></a></li></ul>";
    assert_eq!(scrape_categories(page), Err(ScrapeError::MissingText));
}

#[test]
fn the_text_of_a_link_is_its_first_piece_of_text() {
    let page = "<ul id='nav2'><li><a href='https://k/p/a.html'><b>_bold</b> rest</a></li></ul>";
    assert_eq!(
        scrape_categories(page).unwrap(),
        vec![Category { name: "Bold".into(), url: "https://k/p/a.html".into() }]
    );
}

#[test]
fn error_messages() {
    assert_eq!(ScrapeError::MissingAddress.message(), "a link has no address");
    assert_eq!(ScrapeError::MissingText.message(), "a link has no text");
    assert_eq!(ScrapeError::Selector.message(), "the selector for the links is malformed");
    assert_eq!(ScrapeError::MissingNavigation.message(), "the front page has no navigation");
    assert_eq!(ScrapeError::Label.message(), "the label of a subcategory is not valid text");
}

#[test]
fn elements_are_selected_in_the_order_of_the_page() {
    let page = "<p><a href='1' title='one'>first <b>x</b></a><a>second</a><i><a href='3'></a></i></p>";
    assert_eq!(
        select(page, "p a", "href"),
        Ok(vec![
            Selected { attribute: Some("1".into()), text: Some("first ".into()) },
            Selected { attribute: None, text: Some("second".into()) },
            Selected { attribute: Some("3".into()), text: None },
        ])
    );
    assert_eq!(
        select(page, "a", "title"),
        Ok(vec![
            Selected { attribute: Some("one".into()), text: Some("first ".into()) },
            Selected { attribute: None, text: Some("second".into()) },
            Selected { attribute: None, text: None },
        ])
    );
    assert_eq!(select(page, "ul a", "href"), Ok(vec![]));
}

#[test]
fn a_malformed_selector_fails() {
    assert_eq!(select("<a href='1'>x</a>", "a[", "href"), Err(ScrapeError::Selector));
    assert_eq!(select("<a href='1'>x</a>", "", "href"), Err(ScrapeError::Selector));
    assert_eq!(select("", "<<", "href"), Err(ScrapeError::Selector));
}
