//! The stock record kept in the company database.
use vstd::prelude::*;

verus! {

/// A listed company, as the company database keeps it.
#[derive(Debug)]
pub struct StockInfo {
    pub code: String,
    pub name: String,
    pub market_type: String,
    pub industry_type: String,
    pub listing_date: String,
    pub international_code: String,
    pub website: Option<String>,
    pub product_description: Option<String>,
    pub last_updated: Option<String>,
}

/// A company record as plain values.
pub struct StockInfoView {
    pub code: Seq<char>,
    pub name: Seq<char>,
    pub market_type: Seq<char>,
    pub industry_type: Seq<char>,
    pub listing_date: Seq<char>,
    pub international_code: Seq<char>,
    pub website: Option<Seq<char>>,
    pub product_description: Option<Seq<char>>,
    pub last_updated: Option<Seq<char>>,
}

/// The characters of an optional string.
pub open spec fn opt_chars(s: Option<String>) -> Option<Seq<char>> {
    match s {
        Some(v) => Some(v@),
        None => None,
    }
}

impl View for StockInfo {
    type V = StockInfoView;

    open spec fn view(&self) -> StockInfoView {
        StockInfoView {
            code: self.code@,
            name: self.name@,
            market_type: self.market_type@,
            industry_type: self.industry_type@,
            listing_date: self.listing_date@,
            international_code: self.international_code@,
            website: opt_chars(self.website),
            product_description: opt_chars(self.product_description),
            last_updated: opt_chars(self.last_updated),
        }
    }
}

/// A copy of an optional string.
pub fn copy_opt(s: &Option<String>) -> (res: Option<String>)
    ensures
        res == *s,
{
    match s {
        Some(v) => Some(v.clone()),
        None => None,
    }
}

impl StockInfo {
    /// A field-by-field copy.
    pub fn copy(&self) -> (res: StockInfo)
        ensures
            res == *self,
    {
        StockInfo {
            code: self.code.clone(),
            name: self.name.clone(),
            market_type: self.market_type.clone(),
            industry_type: self.industry_type.clone(),
            listing_date: self.listing_date.clone(),
            international_code: self.international_code.clone(),
            website: copy_opt(&self.website),
            product_description: copy_opt(&self.product_description),
            last_updated: copy_opt(&self.last_updated),
        }
    }
}

/// A company still lacks its product description or its website.
pub open spec fn lacks_details(stock: StockInfo) -> bool {
    stock.product_description is None || stock.website is None
}

/// Whether the company still needs its product description or its website looked up.
pub fn needs_update(stock: &StockInfo) -> (res: bool)
    ensures
        res == lacks_details(*stock),
{
    stock.product_description.is_none() || stock.website.is_none()
}

} // verus!
