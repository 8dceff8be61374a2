//! What Digi-Key says of a product.

use vstd::prelude::*;
use vstd::string::*;

verus! {

/// An answer about a product.
#[derive(Debug)]
pub struct ProductDetailsResponse {
    pub product: Option<Product>,
}

/// A product.
#[derive(Debug)]
pub struct Product {
    pub digi_key_product_number: Option<String>,
    pub manufacturer_product_number: Option<String>,
    pub manufacturer: Option<Named>,
    pub quantity_available: Option<i64>,
    pub manufacturer_lead_weeks: Option<String>,
    pub product_status: Option<ProductStatus>,
    pub discontinued: Option<bool>,
    pub end_of_life: Option<bool>,
    pub classifications: Option<Classifications>,
    pub category: Option<Named>,
    pub country_of_origin: Option<String>,
}

/// Something with a name.
#[derive(Debug)]
pub struct Named {
    pub name: Option<String>,
}

/// Where a product is in its life.
#[derive(Debug)]
pub struct ProductStatus {
    pub status: Option<String>,
}

/// How a product is classified.
#[derive(Debug)]
pub struct Classifications {
    pub htsus_code: Option<String>,
}

} // verus!
