use vstd::prelude::*;

verus! {

broadcast use vstd::string::group_string_axioms;

/// Configuration of an HTTP probe: the URL one GET fetches.
#[derive(Debug)]
pub struct Config {
    pub url: String,
}

impl Clone for Config {
    fn clone(&self) -> (r: Self)
        ensures
            r.url@ == self.url@,
    {
        Config { url: self.url.clone() }
    }
}

/// The probe's display name.
pub open spec fn spec_check_name(c: Config) -> Seq<char> {
    "http "@ + c.url@
}

pub fn check_name(config: &Config) -> (r: String)
    ensures
        r@ == spec_check_name(*config),
{
    let mut s = "http ".to_owned();
    s.append(config.url.as_str());
    s
}

/// Whether an HTTP status code counts as success: the 2xx class, as the
/// transport library classifies it.
pub fn status_is_success(code: u16) -> (r: bool)
    ensures
        r == (200 <= code < 300),
{
    200 <= code && code < 300
}

} // verus!
