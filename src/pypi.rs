//! The PyPI JSON API.

use vstd::prelude::*;

verus! {

/// The address of the JSON description of a PyPI package.
pub fn pypi_json_url(package_name: &str) -> (r: String)
    ensures
        r@ == "https://pypi.org/pypi/"@ + package_name@ + "/json"@,
{
    let mut url = String::from_str("https://pypi.org/pypi/");
    url.append(package_name);
    url.append("/json");
    url
}

} // verus!
