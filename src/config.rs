use vstd::prelude::*;
use vstd::string::StringExecFns;

verus! {

/// The command-line client's settings: where the node listens and how much
/// disk it may use.
#[derive(Clone, Debug)]
pub struct CliConfig {
    pub host: String,
    pub port: String,
    pub disk_allocated: String,
}

pub open spec fn default_host() -> Seq<char> {
    seq!['l', 'o', 'c', 'a', 'l', 'h', 'o', 's', 't']
}

pub open spec fn default_port() -> Seq<char> {
    seq!['7', '8', '8', '8']
}

pub open spec fn default_disk_allocated() -> Seq<char> {
    seq!['1', '0', ' ', 'G', 'B']
}

impl Default for CliConfig {
    fn default() -> (r: CliConfig)
        ensures
            r.host@ == default_host(),
            r.port@ == default_port(),
            r.disk_allocated@ == default_disk_allocated(),
    {
        proof {
            reveal_strlit("localhost");
            reveal_strlit("7888");
            reveal_strlit("10 GB");
        }
        CliConfig {
            host: String::from_str("localhost"),
            port: String::from_str("7888"),
            disk_allocated: String::from_str("10 GB"),
        }
    }
}

impl PartialEq for CliConfig {
    fn eq(&self, other: &CliConfig) -> (r: bool) {
        self.host == other.host && self.port == other.port && self.disk_allocated == other.disk_allocated
    }
}

impl vstd::std_specs::cmp::PartialEqSpecImpl for CliConfig {
    open spec fn obeys_eq_spec() -> bool {
        true
    }

    open spec fn eq_spec(&self, other: &CliConfig) -> bool {
        self.host@ == other.host@ && self.port@ == other.port@ && self.disk_allocated@ == other.disk_allocated@
    }
}

pub open spec fn updated_field(current: Seq<char>, update: Seq<char>) -> Seq<char> {
    if update.len() == 0 {
        current
    } else {
        update
    }
}

/// The settings after an update: each non-empty field of `update` replaces
/// the stored one, an empty field keeps it.
pub fn merge_config(current: CliConfig, update: CliConfig) -> (r: CliConfig)
    ensures
        r.host@ == updated_field(current.host@, update.host@),
        r.port@ == updated_field(current.port@, update.port@),
        r.disk_allocated@ == updated_field(current.disk_allocated@, update.disk_allocated@),
{
    let mut cfg = current;
    if !update.host.as_str().is_empty() {
        cfg.host = update.host;
    }
    if !update.port.as_str().is_empty() {
        cfg.port = update.port;
    }
    if !update.disk_allocated.as_str().is_empty() {
        cfg.disk_allocated = update.disk_allocated;
    }
    cfg
}

} // verus!
