//! What the merchant configures once, before any purchase is handled.

use vstd::prelude::*;

verus! {

/// The merchant's identity at the gateway. The password signs every request
/// and is written nowhere else.
#[derive(Clone, PartialEq, Eq)]
pub struct MerchantCredentials {
    pub merchant_id: u64,
    pub merchant_password: String,
}

/// The configuration of the running service.
#[derive(Clone, PartialEq, Eq)]
pub struct AppConfig {
    /// The address under which this service is reached from outside; the
    /// gateway's callbacks are addressed relative to it.
    pub site_url: String,
    pub credentials: MerchantCredentials,
}

impl AppConfig {
    /// A configuration from its three settings.
    pub fn new(site_url: String, merchant_id: u64, merchant_password: String) -> (config:
        AppConfig)
        ensures
            config.site_url == site_url,
            config.credentials.merchant_id == merchant_id,
            config.credentials.merchant_password == merchant_password,
    {
        AppConfig { site_url, credentials: MerchantCredentials { merchant_id, merchant_password } }
    }
}

} // verus!
