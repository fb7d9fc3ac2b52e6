use comment_harvester::request::{PageRequest, URL_HEAD, URL_MIDDLE, URL_TAIL};

fn url(item_id: &str, page_number: u32) -> String {
    PageRequest { item_id: item_id.to_string(), page_number }.url()
}

#[test]
fn url_of_the_first_page() {
    assert_eq!(url("123", 0), "https://club.jd.com/productpage/p-123-s-0-t-6-p-0.html");
}

#[test]
fn url_writes_the_page_number_in_decimal() {
    assert_eq!(url("4586850", 12), "https://club.jd.com/productpage/p-4586850-s-0-t-6-p-12.html");
    assert_eq!(url("1", 9), "https://club.jd.com/productpage/p-1-s-0-t-6-p-9.html");
    assert_eq!(url("1", 10), "https://club.jd.com/productpage/p-1-s-0-t-6-p-10.html");
    assert_eq!(url("1", 1090), "https://club.jd.com/productpage/p-1-s-0-t-6-p-1090.html");
}

#[test]
fn url_of_the_last_page_number() {
    assert_eq!(
        url("1", u32::MAX),
        "https://club.jd.com/productpage/p-1-s-0-t-6-p-4294967295.html"
    );
}

#[test]
fn url_takes_the_identity_as_it_is() {
    assert_eq!(url("", 3), "https://club.jd.com/productpage/p--s-0-t-6-p-3.html");
    assert_eq!(url("a-b", 3), "https://club.jd.com/productpage/p-a-b-s-0-t-6-p-3.html");
}

#[test]
fn url_parts() {
    assert_eq!(URL_HEAD, "https://club.jd.com/productpage/p-");
    assert_eq!(URL_MIDDLE, "-s-0-t-6-p-");
    assert_eq!(URL_TAIL, ".html");
}
