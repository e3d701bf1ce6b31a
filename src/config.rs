use vstd::prelude::*;

verus! {

/// Startup settings: the credential the transport connects with.
pub struct Config {
    pub token: String,
}

impl Config {
    pub fn new(token: &str) -> (r: Self)
        ensures
            r.token@ == token@,
    {
        Config { token: token.to_owned() }
    }
}

} // verus!
