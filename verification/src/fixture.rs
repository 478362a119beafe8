//! The small fixture program shipped with the server's test repositories: a
//! named configuration with a retry count, and the status line a run of it
//! prints.

use vstd::prelude::*;

use crate::text::{concat3, decimal_text, owned, u32_decimal};

verus! {

/// A fixture configuration.
#[derive(Debug, Clone, PartialEq, Eq)]
pub struct Config {
    pub name: String,
    pub retries: u8,
}

impl Default for Config {
    /// The configuration named `fixture`, with three retries.
    fn default() -> (r: Config)
        ensures
            r.name@ == "fixture"@,
            r.retries == 3,
    {
        Config { name: owned("fixture"), retries: 3 }
    }
}

/// The status line of a run: `ok: <name> (retries=<n>)`.
pub open spec fn run_line(name: Seq<char>, retries: u8) -> Seq<char> {
    "ok: "@ + name + " (retries="@ + decimal_text(retries as nat) + ")"@
}

pub fn run(cfg: Config) -> (r: String)
    ensures
        r@ == run_line(cfg.name@, cfg.retries),
{
    let head = concat3("ok: ", cfg.name.as_str(), " (retries=");
    let n = u32_decimal(cfg.retries as u32);
    concat3(head.as_str(), n.as_str(), ")")
}

} // verus!
