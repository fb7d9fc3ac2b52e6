//! The request for one page of one item's records, and the address it is
//! fetched from.

use crate::text::{append_decimal, decimal};
use vstd::prelude::*;
use vstd::string::*;

verus! {

/// What the address of a page begins with, up to the item's identity.
pub const URL_HEAD: &'static str = "https://club.jd.com/productpage/p-";

/// What stands between the item's identity and the page number: all
/// scores, sorted by time.
pub const URL_MIDDLE: &'static str = "-s-0-t-6-p-";

/// What the address of a page ends with.
pub const URL_TAIL: &'static str = ".html";

/// One page of the records of one item. Pages are numbered from zero.
#[derive(Debug, PartialEq, Eq)]
pub struct PageRequest {
    pub item_id: String,
    pub page_number: u32,
}

/// The address of page `page_number` of the records of item `item_id`.
pub open spec fn page_url(item_id: Seq<char>, page_number: nat) -> Seq<char> {
    URL_HEAD@ + item_id + URL_MIDDLE@ + decimal(page_number) + URL_TAIL@
}

impl PageRequest {
    /// The address to fetch this page from.
    pub fn url(&self) -> (url: String)
        ensures
            url@ == page_url(self.item_id@, self.page_number as nat),
    {
        let mut url = String::from_str(URL_HEAD);
        url.append(self.item_id.as_str());
        url.append(URL_MIDDLE);
        append_decimal(&mut url, self.page_number as u64);
        url.append(URL_TAIL);
        url
    }
}

} // verus!
