//! The catalog endpoints: base URL plus path template, each a pure
//! function of the station uuid.

use vstd::prelude::*;

verus! {

/// The station's assigned-product list endpoint.
pub fn station_products_url(station_uuid: &str) -> (r: String)
    ensures
        r@ == "https://services.drova.io/product-manager/serverproduct/list/"@ + station_uuid@,
{
    let base = String::from_str("https://services.drova.io/product-manager/serverproduct/list/");
    base.concat(station_uuid)
}

/// The station's public info endpoint.
pub fn station_info_url(station_uuid: &str) -> (r: String)
    ensures
        r@ == "https://services.drova.io/server-manager/servers/"@ + station_uuid@,
{
    let base = String::from_str("https://services.drova.io/server-manager/servers/");
    base.concat(station_uuid)
}

/// The station's hardware list endpoint.
pub fn station_hardware_url(station_uuid: &str) -> (r: String)
    ensures
        r@ == "https://services.drova.io/server-manager/hardware/list/"@ + station_uuid@,
{
    let base = String::from_str("https://services.drova.io/server-manager/hardware/list/");
    base.concat(station_uuid)
}

/// The full product-metadata catalog endpoint.
pub fn products_full_url() -> (r: String)
    ensures
        r@ == "https://services.drova.io/product-manager/product/listfull2?limit=2000"@,
{
    String::from_str("https://services.drova.io/product-manager/product/listfull2?limit=2000")
}

} // verus!
