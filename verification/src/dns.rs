use vstd::prelude::*;

verus! {

broadcast use vstd::string::group_string_axioms;

/// Configuration of a DNS probe: the domain one lookup resolves.
#[derive(Debug)]
pub struct Config {
    pub domain: String,
}

impl Clone for Config {
    fn clone(&self) -> (r: Self)
        ensures
            r.domain@ == self.domain@,
    {
        Config { domain: self.domain.clone() }
    }
}

/// The probe's display name.
pub open spec fn spec_check_name(c: Config) -> Seq<char> {
    "dns "@ + c.domain@
}

pub fn check_name(config: &Config) -> (r: String)
    ensures
        r@ == spec_check_name(*config),
{
    let mut s = "dns ".to_owned();
    s.append(config.domain.as_str());
    s
}

} // verus!
