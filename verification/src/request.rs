//! Request addresses: the service's endpoints under a base URL.

use vstd::prelude::*;

verus! {

/// The upload endpoint: studies are posted here as one bundle each.
pub fn studies_url(base: &str) -> (r: String)
    ensures
        r@ == base@ + "/v3/studies"@,
{
    String::from_str(base).concat("/v3/studies")
}

/// One study's endpoint: its results are fetched from here.
pub fn study_url(base: &str, study_key: &str) -> (r: String)
    ensures
        r@ == base@ + "/v3/studies/"@ + study_key@,
{
    let r = String::from_str(base).concat("/v3/studies/");
    r.concat(study_key)
}

/// One study's status endpoint, polled until the study is done.
pub fn status_url(base: &str, study_key: &str) -> (r: String)
    ensures
        r@ == base@ + "/v3/studies/"@ + study_key@ + "/status"@,
{
    let r = study_url(base, study_key);
    r.concat("/status")
}

} // verus!
