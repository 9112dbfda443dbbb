use vstd::prelude::*;

use crate::json::json_doc;
use crate::records::YoutubeVideo;
use crate::records::parse_records;
use crate::records::spec_parse_records;

verus! {

/// Why a call failed: the subprocess could not deliver, a single
/// remote query failed or came back unusable, every candidate mirror
/// was exhausted, or pagination was asked of a session with no bound
/// query.
#[derive(Clone, Copy, PartialEq, Eq, Structural, Debug)]
pub enum FetchError {
    ExternalToolFailure,
    RemoteQueryFailure,
    NoMirrorAvailable,
    MissingQuery,
}

/// A bound search session: which backend served discovery, and the
/// query the session was created with. The HTTP handle the session
/// travels with is not part of the verified state.
#[derive(Debug)]
pub struct Instance {
    pub domain: Option<String>,
    pub query: Option<String>,
}

impl Instance {
    /// The query bound at creation, by view.
    pub open spec fn spec_query(self) -> Option<Seq<char>> {
        match self.query {
            Some(q) => Some(q@),
            None => None,
        }
    }

    /// Binds a session to the backend label that served discovery and
    /// to the query it was created with.
    pub fn bind(domain: &str, query: &str) -> (r: Self)
        ensures
            r.domain matches Some(d) && d@ == domain@,
            r.spec_query() == Some(query@),
    {
        Instance { domain: Some(domain.to_owned()), query: Some(query.to_owned()) }
    }

    /// The bound query, or the error a pagination call must fail with
    /// when the session has none.
    pub fn bound_query(&self) -> (r: Result<&String, FetchError>)
        ensures
            match r {
                Ok(q) => self.spec_query() == Some(q@),
                Err(e) => self.spec_query() is None && e == FetchError::MissingQuery,
            },
    {
        match &self.query {
            Some(q) => Ok(q),
            None => Err(FetchError::MissingQuery),
        }
    }
}

impl Clone for Instance {
    fn clone(&self) -> (r: Self)
        ensures
            r.domain == self.domain,
            r.spec_query() == self.spec_query(),
    {
        Instance {
            domain: match &self.domain {
                Some(d) => Some(d.clone()),
                None => None,
            },
            query: match &self.query {
                Some(q) => Some(q.clone()),
                None => None,
            },
        }
    }
}

impl PartialEq for Instance {
    /// Two sessions are equal when their backend labels agree.
    fn eq(&self, other: &Self) -> (r: bool) {
        match (&self.domain, &other.domain) {
            (Some(a), Some(b)) => a.eq(b),
            (None, None) => true,
            _ => false,
        }
    }
}

impl vstd::std_specs::cmp::PartialEqSpecImpl for Instance {
    open spec fn obeys_eq_spec() -> bool {
        true
    }

    open spec fn eq_spec(&self, other: &Instance) -> bool {
        match (self.domain, other.domain) {
            (Some(a), Some(b)) => a@ == b@,
            (None, None) => true,
            _ => false,
        }
    }
}

impl Eq for Instance {

}

impl Default for Instance {
    /// A blank session: empty backend label, empty query.
    fn default() -> (r: Self)
        ensures
            r.domain matches Some(d) && d@ == Seq::<char>::empty(),
            r.spec_query() == Some(Seq::<char>::empty()),
    {
        Instance { domain: Some(String::new()), query: Some(String::new()) }
    }
}

/// Interprets an autocomplete response body; an unusable one is a
/// `RemoteQueryFailure`.
pub fn parse_suggestions(body: &str) -> (r: Result<Vec<YoutubeVideo>, FetchError>)
    ensures
        match r {
            Ok(v) => spec_parse_records(json_doc(body@)) == Some(v@),
            Err(e) => spec_parse_records(json_doc(body@)) is None && e
                == FetchError::RemoteQueryFailure,
        },
{
    match parse_records(body) {
        Some(v) => Ok(v),
        None => Err(FetchError::RemoteQueryFailure),
    }
}

} // verus!
