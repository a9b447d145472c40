//! The two search requests that resolve a street and a house number to the
//! reference number of a property.

use vstd::prelude::*;
use vstd::string::StringExecFns;
use crate::text::{decimal, push_decimal};

verus! {

/// Where both search requests are sent.
pub const SEARCH_URL: &'static str = "https://www.mojiodpadki.si/api2/";

/// The envelope of an answer to a search request.
#[derive(Debug)]
pub struct Response<'a, T> {
    pub id: &'a str,
    pub jsonrpc: &'a str,
    pub result: Vec<T>,
}

/// A street found by a street search.
#[derive(Debug, Clone)]
pub struct Street {
    pub id: u32,
    pub label: String,
}

/// An address found by an address search.
#[derive(Debug, Clone)]
pub struct Address {
    pub addition: String,
    pub id: u32,
    pub municipality: String,
    pub number: String,
    pub street: String,
}

/// The body of a street search: for all streets, or for those that match `term`.
pub open spec fn street_request(term: Option<Seq<char>>) -> Seq<char> {
    match term {
        Some(t) => "{\"method\":\"streets\",\"params\":{\"term\":\""@ + t
            + "\"},\"id\":1723033621554,\"jsonrpc\":\"2.0\"}"@,
        None => "{\"method\":\"streets\",\"params\":{},\"id\":1723033621554,\"jsonrpc\":\"2.0\"}"@,
    }
}

/// The body of an address search in the street with the number `street_id`.
pub open spec fn address_request(street_id: u32) -> Seq<char> {
    "{\"method\":\"address\",\"params\":{\"streetId\":\""@ + decimal(street_id as nat)
        + "\"},\"id\":1723033621554,\"jsonrpc\":\"2.0\"}"@
}

/// The address to post to and the body to post for a street search. The term
/// is put between the quotes as it is.
pub fn get_street_search_url_and_request(term: Option<&str>) -> (r: (String, String))
    ensures
        r.0@ == SEARCH_URL@,
        r.1@ == street_request(
            match term {
                Some(t) => Some(t@),
                None => None,
            },
        ),
{
    let request = match term {
        Some(t) => {
            let mut s = String::from_str("{\"method\":\"streets\",\"params\":{\"term\":\"");
            s.append(t);
            s.append("\"},\"id\":1723033621554,\"jsonrpc\":\"2.0\"}");
            s
        },
        None => String::from_str(
            "{\"method\":\"streets\",\"params\":{},\"id\":1723033621554,\"jsonrpc\":\"2.0\"}",
        ),
    };
    (String::from_str(SEARCH_URL), request)
}

/// The address to post to and the body to post for an address search.
pub fn get_address_search_url_and_request(street_id: u32) -> (r: (String, String))
    ensures
        r.0@ == SEARCH_URL@,
        r.1@ == address_request(street_id),
{
    let mut s = String::from_str("{\"method\":\"address\",\"params\":{\"streetId\":\"");
    push_decimal(&mut s, street_id);
    s.append("\"},\"id\":1723033621554,\"jsonrpc\":\"2.0\"}");
    (String::from_str(SEARCH_URL), s)
}

} // verus!
