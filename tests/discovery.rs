use glit::discovery::{
    build_page_links, count_from_inner_html, links_from_hrefs, pages_count, repo_link_text,
    repositories_count, repository_links, DiscoveryError,
};
use glit::text::{decimal_string, last_path_segment};
use glit::web::{fix_input_url, WebUrl};

#[test]
fn page_count_is_ceiling_division() {
    let counts = [0usize, 30, 31, 59, 60, 61];
    let pages = [0usize, 1, 2, 2, 2, 3];
    for (c, p) in counts.iter().zip(pages.iter()) {
        assert_eq!(pages_count(*c), *p);
    }
}

#[test]
fn page_count_of_largest_count() {
    assert_eq!(pages_count(usize::MAX), usize::MAX / 30 + 1);
}

#[test]
fn page_links_are_numbered_from_one() {
    let base = "https://github.com/orgs/acme/repositories?q=&type=source";
    let links = build_page_links(base, 2);
    assert_eq!(
        links,
        vec![
            format!("{}&page=1", base),
            format!("{}&page=2", base),
        ]
    );
    assert!(build_page_links(base, 0).is_empty());
}

#[test]
fn decimal_notation() {
    assert_eq!(decimal_string(0), "0");
    assert_eq!(decimal_string(7), "7");
    assert_eq!(decimal_string(1203), "1203");
    assert_eq!(decimal_string(usize::MAX), usize::MAX.to_string());
}

#[test]
fn input_url_gets_one_trailing_slash() {
    assert_eq!(fix_input_url("https://github.com/acme"), "https://github.com/acme/");
    assert_eq!(fix_input_url("https://github.com/acme/"), "https://github.com/acme/");
    assert_eq!(fix_input_url(""), "/");
}

#[test]
fn last_segment_of_href() {
    assert_eq!(last_path_segment("/acme/widgets"), "widgets");
    assert_eq!(last_path_segment("widgets"), "widgets");
    assert_eq!(last_path_segment("/acme/"), "");
}

#[test]
fn repo_link_is_base_name_slash() {
    assert_eq!(
        repo_link_text("https://github.com/acme/", "/acme/widgets"),
        "https://github.com/acme/widgets/"
    );
}

#[test]
fn count_text_with_separators_and_space() {
    let texts = vec![" 1,234 \n".to_string(), "9".to_string()];
    assert_eq!(count_from_inner_html(&texts), Ok(1234));
    assert_eq!(count_from_inner_html(&vec!["+31".to_string()]), Ok(31));
}

#[test]
fn count_errors() {
    assert_eq!(count_from_inner_html(&vec![]), Err(DiscoveryError::MissingCount));
    assert_eq!(
        count_from_inner_html(&vec!["many".to_string()]),
        Err(DiscoveryError::InvalidCount)
    );
    assert_eq!(
        count_from_inner_html(&vec!["   ".to_string()]),
        Err(DiscoveryError::InvalidCount)
    );
    assert_eq!(
        count_from_inner_html(&vec!["99999999999999999999999".to_string()]),
        Err(DiscoveryError::InvalidCount)
    );
}

#[test]
fn count_from_page() {
    let html = "<html><body><div><strong> 2,031 </strong><strong>5</strong></div></body></html>";
    assert_eq!(repositories_count(html, "div > strong"), Ok(2031));
    assert_eq!(repositories_count(html, "p > strong"), Err(DiscoveryError::MissingCount));
    assert_eq!(repositories_count(html, "div >"), Err(DiscoveryError::InvalidSelector));
}

#[test]
fn links_from_page() {
    let base = WebUrl::parse("https://github.com/acme/").unwrap();
    let html = "<ul><li><a href=\"/acme/one\">one</a></li><li><a href=\"/acme/two\">two</a></li></ul>";
    let links = repository_links(&base, html, "li > a").unwrap();
    let texts: Vec<&str> = links.iter().map(|l| l.url.as_str()).collect();
    assert_eq!(texts, vec!["https://github.com/acme/one/", "https://github.com/acme/two/"]);
    let names: Vec<&str> = links.iter().map(|l| l.name.as_str()).collect();
    assert_eq!(names, vec!["one", "two"]);
    assert_eq!(
        repository_links(&base, "<a>no link</a>", "a").map(|v| v.len()),
        Err(DiscoveryError::MissingHref)
    );
    assert_eq!(
        repository_links(&base, html, "[").map(|v| v.len()),
        Err(DiscoveryError::InvalidSelector)
    );
}

#[test]
fn links_from_hrefs_stop_at_first_bad_link() {
    let base = WebUrl::parse("https://github.com/acme/").unwrap();
    let hrefs = vec![Some("/acme/one".to_string()), None, Some("/acme/two".to_string())];
    assert_eq!(links_from_hrefs(&base, &hrefs).map(|v| v.len()), Err(DiscoveryError::MissingHref));
    let good = vec![Some("/acme/one".to_string())];
    let links = links_from_hrefs(&base, &good).unwrap();
    assert_eq!(links[0].url.segment(1), Some("one".to_string()));
    assert_eq!(links[0].name, "one");
}

#[test]
fn page_without_links_is_an_error() {
    let base = WebUrl::parse("https://github.com/acme/").unwrap();
    assert_eq!(links_from_hrefs(&base, &vec![]).map(|v| v.len()), Err(DiscoveryError::NoLinks));
    assert_eq!(
        repository_links(&base, "<html><body><p>nothing here</p></body></html>", "li > a").map(|v| v.len()),
        Err(DiscoveryError::NoLinks)
    );
}

#[test]
fn url_parts_are_read() {
    let u = WebUrl::parse("https://github.com/acme/widgets/").unwrap();
    assert_eq!(u.as_str(), "https://github.com/acme/widgets/");
    assert_eq!(u.scheme(), "https");
    assert_eq!(u.host(), Some("github.com".to_string()));
    assert_eq!(u.segment(0), Some("acme".to_string()));
    assert_eq!(u.segment(1), Some("widgets".to_string()));
    assert_eq!(u.segment(2), Some("".to_string()));
    assert_eq!(u.segment(3), None);
    assert!(WebUrl::parse("not a url").is_none());
    let data = WebUrl::parse("data:text/plain,hi").unwrap();
    assert_eq!(data.segment(0), None);
}
