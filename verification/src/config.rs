//! What the user has set for the weather report.

use vstd::prelude::*;
use vstd::string::*;

verus! {

/// The key for the forecast service and the place to ask about.
pub struct Config {
    pub api_key: String,
    pub city: String,
    pub country: String,
}

/// The address that asks the forecast service where a place lies.
pub open spec fn geocode_address(config: Config) -> Seq<char> {
    "http://api.openweathermap.org/geo/1.0/direct?q="@ + config.city@ + ","@ + config.country@
        + "&limit=1&appid="@ + config.api_key@
}

/// The address that asks the forecast service where the place of the
/// configuration lies.
pub fn geocode_url(config: &Config) -> (url: String)
    ensures
        url@ == geocode_address(*config),
{
    let mut url = String::from_str("http://api.openweathermap.org/geo/1.0/direct?q=");
    url.append(config.city.as_str());
    url.append(",");
    url.append(config.country.as_str());
    url.append("&limit=1&appid=");
    url.append(config.api_key.as_str());
    url
}

} // verus!
