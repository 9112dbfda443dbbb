use vstd::prelude::*;
use vstd::string::StringExecFns;

use rand::seq::SliceRandom;

use crate::instance::FetchError;

verus! {

broadcast use vstd::seq_lib::group_to_multiset_ensures;

/// The fixed fallback pool of known-good mirror addresses, used only
/// when the dynamic directory cannot be fetched.
pub open spec fn spec_static_mirrors() -> Seq<Seq<char>> {
    seq![
        "https://inv.nadeko.net"@,
        "https://invidious.nerdvpn.de"@,
        "https://yewtu.be"@,
        "https://y.com.sb"@,
        "https://yt.artemislena.eu"@,
    ]
}

/// Builds the static fallback pool.
pub fn static_mirrors() -> (v: Vec<String>)
    ensures
        v.deep_view() == spec_static_mirrors(),
{
    let mut v: Vec<String> = Vec::new();
    v.push("https://inv.nadeko.net".to_owned());
    v.push("https://invidious.nerdvpn.de".to_owned());
    v.push("https://yewtu.be".to_owned());
    v.push("https://y.com.sb".to_owned());
    v.push("https://yt.artemislena.eu".to_owned());
    proof {
        assert(v.deep_view() =~~= spec_static_mirrors());
    }
    v
}

/// Relies on rand's SliceRandom::shuffle (with rand::rng as its
/// generator): it permutes the slice in place, so the elements' views
/// form the same multiset afterwards.
#[verifier::external_body]
fn shuffle_strings(v: &mut Vec<String>)
    ensures
        final(v).deep_view().to_multiset() == old(v).deep_view().to_multiset(),
{
    v.shuffle(&mut rand::rng());
}

/// One linear scan over a shuffled candidate pool: mirrors are handed
/// out one at a time, each exactly once, until the caller stops after
/// a success or the pool runs out.
pub struct MirrorScan {
    candidates: Vec<String>,
    next: usize,
}

impl MirrorScan {
    pub closed spec fn wf(self) -> bool {
        self.next <= self.candidates@.len()
    }

    /// The candidate addresses, in the order the scan offers them.
    pub closed spec fn pool(self) -> Seq<Seq<char>> {
        self.candidates.deep_view()
    }

    /// How many candidates were offered so far.
    pub closed spec fn attempted(self) -> int {
        self.next as int
    }

    /// What the next call to `next_candidate` returns.
    pub open spec fn peek(self) -> Option<Seq<char>> {
        if self.attempted() < self.pool().len() {
            Some(self.pool()[self.attempted()])
        } else {
            None
        }
    }

    /// Builds the scan pool: the directory's list when the fetch
    /// succeeded, the full static fallback pool otherwise, shuffled to
    /// spread load and dodge a consistently dead first mirror.
    pub fn start(directory: Option<Vec<String>>) -> (s: Self)
        ensures
            s.wf(),
            s.attempted() == 0,
            match directory {
                Some(l) => s.pool().to_multiset() == l.deep_view().to_multiset() && s.pool().len()
                    == l@.len(),
                None => s.pool().to_multiset() == spec_static_mirrors().to_multiset()
                    && s.pool().len() == spec_static_mirrors().len(),
            },
    {
        let mut candidates = match directory {
            Some(l) => l,
            None => static_mirrors(),
        };
        let ghost orig = candidates.deep_view();
        shuffle_strings(&mut candidates);
        proof {
            assert(candidates.deep_view().to_multiset().len() == candidates.deep_view().len());
            assert(orig.to_multiset().len() == orig.len());
        }
        MirrorScan { candidates, next: 0 }
    }

    /// Hands out the next candidate, advancing the scan; `None` once
    /// every candidate was offered.
    pub fn next_candidate(&mut self) -> (r: Option<String>)
        requires
            old(self).wf(),
        ensures
            final(self).wf(),
            final(self).pool() == old(self).pool(),
            match r {
                Some(u) => old(self).peek() == Some(u@) && final(self).attempted() == old(
                    self,
                ).attempted() + 1,
                None => old(self).peek() is None && final(self).attempted() == old(
                    self,
                ).attempted(),
            },
    {
        if self.next < self.candidates.len() {
            let u = self.candidates[self.next].clone();
            self.next = self.next + 1;
            Some(u)
        } else {
            None
        }
    }

    /// How many candidates were offered so far.
    pub fn attempted_count(&self) -> (r: usize)
        ensures
            r as int == self.attempted(),
    {
        self.next
    }

    /// What the resolver must report once every candidate was offered
    /// and none succeeded: `NoMirrorAvailable` and nothing else. While
    /// a candidate remains there is nothing to report.
    pub fn failure(&self) -> (e: Option<FetchError>)
        requires
            self.wf(),
        ensures
            match e {
                Some(err) => self.peek() is None && err == FetchError::NoMirrorAvailable,
                None => self.peek() is Some,
            },
    {
        if self.next >= self.candidates.len() {
            Some(FetchError::NoMirrorAvailable)
        } else {
            None
        }
    }
}

/// An empty candidate pool is exhausted from the start: no mirror is
/// ever offered, so a resolver over it must fail without attempting
/// anything.
pub proof fn lemma_empty_pool_never_offers(s: MirrorScan)
    requires
        s.wf(),
        s.pool().len() == 0,
    ensures
        s.peek() is None,
        s.attempted() == 0,
{
}

/// The scan gives up only once every candidate was offered: the next
/// candidate is `None` exactly when as many mirrors were attempted as
/// the pool holds.
pub proof fn lemma_gives_up_only_after_all(s: MirrorScan)
    requires
        s.wf(),
    ensures
        s.peek() is None <==> s.attempted() == s.pool().len(),
{
}

/// The trending-music endpoint of a mirror, for a region.
pub fn trending_url(domain: &str, region: &str) -> (r: String)
    ensures
        r@ == domain@ + "/api/v1/trending?type=music&region="@ + region@,
{
    let mut url = domain.to_owned();
    url.append("/api/v1/trending?type=music&region=");
    url.append(region);
    url
}

} // verus!
