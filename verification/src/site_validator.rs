//! The domain allow-list.

use vstd::prelude::*;

use crate::config::Config;
use crate::strutil::str_eq;

verus! {

/// The configuration-supplied set of supported domains.
#[derive(Debug)]
pub struct SupportedSites {
    sites: Vec<String>,
}

/// Clones a list of site names.
fn clone_sites(v: &Vec<String>) -> (r: Vec<String>)
    ensures
        r@ =~= v@,
{
    let mut out: Vec<String> = Vec::new();
    let n = v.len();
    let mut i: usize = 0;
    while i < n
        invariant
            i <= n,
            n == v.len(),
            out@ =~= v@.subrange(0, i as int),
        decreases n - i,
    {
        out.push(v[i].clone());
        proof {
            assert(out@ =~= v@.subrange(0, i + 1));
        }
        i += 1;
    }
    proof {
        assert(v@.subrange(0, n as int) =~= v@);
    }
    out
}

impl SupportedSites {
    /// The configured domains, as character sequences.
    pub closed spec fn spec_sites(&self) -> Seq<Seq<char>> {
        self.sites.deep_view()
    }

    /// Builds the allow-list from the application configuration.
    pub fn new(config: &Config) -> (r: Self)
        ensures
            r.spec_sites() == config.supported_sites.spec_sites(),
    {
        let r = Self { sites: clone_sites(&config.supported_sites.sites) };
        proof {
            assert(r.spec_sites() =~= config.supported_sites.spec_sites());
        }
        r
    }

    /// Builds the allow-list from a plain list of domains.
    pub fn from_sites(sites: Vec<String>) -> (r: Self)
        ensures
            r.spec_sites() == sites.deep_view(),
    {
        Self { sites }
    }

    /// How many domains are configured.
    pub fn len(&self) -> (r: usize)
        ensures
            r == self.spec_sites().len(),
    {
        self.sites.len()
    }

    /// Exact, case-sensitive membership test of `site` in the allow-list.
    pub fn is_supported(&self, site: &str) -> (r: bool)
        ensures
            r == self.spec_sites().contains(site@),
    {
        let n = self.sites.len();
        let mut i: usize = 0;
        while i < n
            invariant
                i <= n,
                n == self.sites.len(),
                forall|j: int| 0 <= j < i ==> self.spec_sites()[j] != site@,
            decreases n - i,
        {
            if str_eq(self.sites[i].as_str(), site) {
                assert(self.spec_sites()[i as int] == site@);
                return true;
            }
            i += 1;
        }
        assert(forall|j: int|
            0 <= j < self.spec_sites().len() ==> self.spec_sites()[j] != site@);
        false
    }
}

} // verus!
