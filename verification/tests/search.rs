use moji_odpadki_parser::search::{
    get_address_search_url_and_request, get_street_search_url_and_request, SEARCH_URL,
};

#[test]
fn street_search_with_a_term() {
    let (url, req) = get_street_search_url_and_request(Some("Slovenska"));
    assert_eq!(url, "https://www.mojiodpadki.si/api2/");
    assert_eq!(
        req,
        "{\"method\":\"streets\",\"params\":{\"term\":\"Slovenska\"},\"id\":1723033621554,\"jsonrpc\":\"2.0\"}"
    );
}

#[test]
fn street_search_without_a_term() {
    let (url, req) = get_street_search_url_and_request(None);
    assert_eq!(url, SEARCH_URL);
    assert_eq!(
        req,
        "{\"method\":\"streets\",\"params\":{},\"id\":1723033621554,\"jsonrpc\":\"2.0\"}"
    );
}

#[test]
fn street_search_with_an_empty_term() {
    let (_, req) = get_street_search_url_and_request(Some(""));
    assert_eq!(
        req,
        "{\"method\":\"streets\",\"params\":{\"term\":\"\"},\"id\":1723033621554,\"jsonrpc\":\"2.0\"}"
    );
}

#[test]
fn address_search() {
    let (url, req) = get_address_search_url_and_request(4021);
    assert_eq!(url, SEARCH_URL);
    assert_eq!(
        req,
        "{\"method\":\"address\",\"params\":{\"streetId\":\"4021\"},\"id\":1723033621554,\"jsonrpc\":\"2.0\"}"
    );
    let (_, req) = get_address_search_url_and_request(0);
    assert_eq!(
        req,
        "{\"method\":\"address\",\"params\":{\"streetId\":\"0\"},\"id\":1723033621554,\"jsonrpc\":\"2.0\"}"
    );
}
