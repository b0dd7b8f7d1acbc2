use vstd::prelude::*;

verus! {

/// Where to poll for a session: the server's base address plus the logical
/// partition (platform) the session lives on. Built once from configuration
/// or from a `Region`, never mutated afterwards.
pub struct SpectatorEndpoint {
    pub base_url: String,
    pub platform_id: String,
}

impl SpectatorEndpoint {
    pub fn new(base_url: String, platform_id: String) -> (e: SpectatorEndpoint)
        ensures
            e.base_url@ == base_url@,
            e.platform_id@ == platform_id@,
    {
        SpectatorEndpoint { base_url, platform_id }
    }
}

} // verus!
