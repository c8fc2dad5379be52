//! Upstream broker credentials: an application identifier and its access key.
//!
//! These are sample values; a deployment substitutes its own before the
//! session connects.

use vstd::prelude::*;

verus! {

/// The username/password pair presented to the upstream broker at CONNECT.
pub struct Credentials<'a> {
    pub appid: &'a str,
    pub appaccesskey: &'a str,
}

impl Credentials<'static> {
    pub fn new(appid: &'static str, appaccesskey: &'static str) -> (r: Self)
        ensures
            r.appid@ == appid@,
            r.appaccesskey@ == appaccesskey@,
    {
        Self { appid, appaccesskey }
    }
}

/// The built-in sample credential pair.
pub fn get() -> (r: Credentials<'static>)
    ensures
        r.appid@ == "app_name"@,
        r.appaccesskey@ == "app_access_key"@,
{
    let appid = "app_name";
    let appaccesskey = "app_access_key";
    Credentials::new(appid, appaccesskey)
}

} // verus!
