use course_scraper::images::{
    clean_image_url, file_name_of_match, get_document_images, images_from_names,
};
use course_scraper::links::{discover_subpages, page_directory, subpages_from_links};
use course_scraper::model::{HTMLFile, ScrapeError};
use course_scraper::pattern::get_element_by_regex;

fn page(url: &str, body: &str) -> HTMLFile {
    HTMLFile {
        url: url.to_string(),
        html_body: Some(body.to_string()),
        html_document_title: "page".to_string(),
    }
}

#[test]
fn find_all_returns_matches_in_order_of_appearance() {
    let found = get_element_by_regex("[0-9]+", "a12b345c6").unwrap();
    assert_eq!(found, vec!["12", "345", "6"]);
}

#[test]
fn find_all_matches_do_not_overlap() {
    let found = get_element_by_regex("aa", "aaaaa").unwrap();
    assert_eq!(found, vec!["aa", "aa"]);
}

#[test]
fn find_all_never_yields_two_matches_at_one_place() {
    let found = get_element_by_regex("a*", "baab").unwrap();
    assert_eq!(found, vec!["", "aa", ""]);
}

#[test]
fn find_all_without_a_match_is_empty() {
    let found = get_element_by_regex("[0-9]+", "no digits here").unwrap();
    assert_eq!(found, Vec::<String>::new());
}

#[test]
fn find_all_rejects_a_pattern_that_does_not_compile() {
    assert_eq!(get_element_by_regex("foo(bar", "foobar"), Err(ScrapeError::Pattern));
}

#[test]
fn extract_image_filename_strips_the_quotes() {
    let name = clean_image_url("<img src=\"diagram.png\">").unwrap();
    assert_eq!(name, Some("diagram.png".to_string()));
}

#[test]
fn extract_image_filename_without_a_quoted_name_is_none() {
    assert_eq!(clean_image_url("<img src=diagram.png>").unwrap(), None);
    assert_eq!(clean_image_url("<img src=\"diagram.bmx\">").unwrap(), None);
    assert_eq!(clean_image_url("<img src=\"\">").unwrap(), None);
    assert_eq!(clean_image_url("").unwrap(), None);
}

#[test]
fn extract_image_filename_accepts_any_last_character_of_the_class() {
    let name = |tag: &str| clean_image_url(tag).unwrap();
    assert_eq!(name("<img src=\"notes.pdf\">"), Some("notes.pdf".to_string()));
    assert_eq!(name("<img src=\"a|\">"), Some("a|".to_string()));
    assert_eq!(name("<img src=\"archive.zip\">"), Some("archive.zip".to_string()));
    assert_eq!(name("<img alt=\"x\" src=\"a.jpeg\">"), Some("x\" src=\"a.jpeg".to_string()));
}

#[test]
fn file_name_of_match_trims_only_the_ends() {
    assert_eq!(file_name_of_match(None), None);
    assert_eq!(
        file_name_of_match(Some("\"a.png\" alt=\"pig\"".to_string())),
        Some("a.png\" alt=\"pig".to_string())
    );
}

#[test]
fn discover_images_finds_each_tag_of_a_page() {
    let html = page(
        "http://x/42/enunc.html",
        "<img src=\"a.png\"><p>text</p><img src=\"b.gif\">",
    );
    let images = get_document_images("http://x/42".to_string(), &html).unwrap();
    assert_eq!(images.len(), 2);
    assert_eq!(images[0].url, "http://x/42/a.png");
    assert_eq!(images[0].name, "a.png");
    assert_eq!(images[1].url, "http://x/42/b.gif");
    assert_eq!(images[1].name, "b.gif");
}

#[test]
fn discover_images_skips_tags_without_a_name() {
    let html = page(
        "http://x/1/enunc.html",
        "<img src=a.png>\n<img src=\"b.png\">\n<p>\"c.png\"</p><img >",
    );
    let images = get_document_images("http://x/1".to_string(), &html).unwrap();
    assert_eq!(images.len(), 1);
    assert_eq!(images[0].url, "http://x/1/b.png");
    assert_eq!(images[0].name, "b.png");
}

#[test]
fn discover_images_of_a_page_without_images_is_empty() {
    let html = page("http://x/1/enunc.html", "<p>no pictures</p>");
    assert_eq!(get_document_images("http://x/1".to_string(), &html).unwrap().len(), 0);
}

#[test]
fn discover_images_keeps_repeated_images() {
    let html = page("http://x/1/enunc.html", "<img src=\"a.png\"><img src=\"a.png\">");
    let images = get_document_images("http://x/1".to_string(), &html).unwrap();
    assert_eq!(images.len(), 2);
    assert_eq!(images[0].name, images[1].name);
}

#[test]
fn discover_images_rejects_a_name_with_a_path_separator() {
    let html = page("http://x/1/enunc.html", "<img src=\"a.png\"><img src=\"img/b.png\">");
    let images = get_document_images("http://x/1".to_string(), &html);
    assert_eq!(images.err(), Some(ScrapeError::Pattern));
}

#[test]
fn images_from_names_builds_one_image_per_name() {
    let names = vec![Some("a.png".to_string()), None, Some("b.gif".to_string())];
    let images = images_from_names("http://x/42", &names).unwrap();
    assert_eq!(images.len(), 2);
    assert_eq!(images[0].url, "http://x/42/a.png");
    assert_eq!(images[1].url, "http://x/42/b.gif");
    assert_eq!(images[1].name, "b.gif");
}

#[test]
fn images_from_names_rejects_unsafe_names() {
    assert_eq!(
        images_from_names("http://x", &vec![Some("".to_string())]).err(),
        Some(ScrapeError::Pattern)
    );
    assert_eq!(
        images_from_names("http://x", &vec![Some("a.png".to_string()), Some("..".to_string())])
            .err(),
        Some(ScrapeError::Pattern)
    );
    assert_eq!(images_from_names("http://x", &vec![None]).unwrap().len(), 0);
}

#[test]
fn discover_subpages_builds_title_and_address() {
    let listing = "<a href=\"../../mc202ABC/7\">Lab 7</a>";
    let pages = discover_subpages("https://host/mc202ABC", listing).unwrap();
    assert_eq!(pages.len(), 1);
    assert_eq!(pages[0].html_document_title, "7");
    assert_eq!(pages[0].url, "https://host/mc202ABC/../../mc202ABC/7/enunc.html");
    assert_eq!(pages[0].html_body, None);
}

#[test]
fn discover_subpages_address_resolves_to_the_assignment_page() {
    let listing = "<a href=\"../../mc202ABC/7\">Lab 7</a>";
    let pages = discover_subpages("https://host/mc202ABC", listing).unwrap();
    let resolved = url::Url::parse(&pages[0].url).unwrap();
    assert_eq!(resolved.as_str(), "https://host/mc202ABC/7/enunc.html");
}

#[test]
fn discover_subpages_keeps_document_order_and_duplicates() {
    let listing = "<a href=\"../../mc202ABC/12\">a</a> <a href=\"../../mc202ABC/3\">b</a>\n\
                   <a href=\"../../mc202ABC/12\">again</a>";
    let pages = discover_subpages("http://h/c", listing).unwrap();
    let urls: Vec<&str> = pages.iter().map(|p| p.url.as_str()).collect();
    assert_eq!(
        urls,
        vec![
            "http://h/c/../../mc202ABC/12/enunc.html",
            "http://h/c/../../mc202ABC/3/enunc.html",
            "http://h/c/../../mc202ABC/12/enunc.html",
        ]
    );
    let titles: Vec<&str> = pages.iter().map(|p| p.html_document_title.as_str()).collect();
    assert_eq!(titles, vec!["12", "3", "12"]);
}

#[test]
fn discover_subpages_of_a_listing_without_links_is_empty() {
    assert_eq!(discover_subpages("http://h/c", "<html></html>").unwrap().len(), 0);
}

#[test]
fn discover_subpages_rejects_a_link_without_a_number() {
    let pages = discover_subpages("http://h/c", "<a href=\"../../mc202ABC/\">empty</a>");
    assert_eq!(pages.err(), Some(ScrapeError::Pattern));
}

#[test]
fn discover_subpages_rejects_a_title_with_a_path_separator() {
    let pages = discover_subpages("http://h/c", "<a href=\"../x./mc202ABC/5\">odd</a>");
    assert_eq!(pages.err(), Some(ScrapeError::Pattern));
}

#[test]
fn subpages_from_links_strips_only_a_leading_prefix() {
    let links = vec!["../../mc202ABC/21".to_string(), "8".to_string()];
    let pages = subpages_from_links("b", &links).unwrap();
    assert_eq!(pages[0].html_document_title, "21");
    assert_eq!(pages[0].url, "b/../../mc202ABC/21/enunc.html");
    assert_eq!(pages[1].html_document_title, "8");
    assert_eq!(pages[1].url, "b/8/enunc.html");
}

#[test]
fn page_directory_drops_the_file_name() {
    assert_eq!(page_directory("http://x/42/enunc.html"), "http://x/42");
    assert_eq!(page_directory("http://x/42/other.html"), "http://x/42/other.html");
}
