//! The two output streams: one entry on "exists" per discovered URL, one on
//! "error" per failed probe, nothing for a path that is not found.
use vstd::prelude::*;
use vstd::string::StringExecFns;
use crate::probe::{Outcome, ProbeResult};

verus! {

/// Which output stream an entry goes to.
#[derive(Clone, Copy, Debug, PartialEq, Eq, Structural)]
pub enum Stream {
    Exists,
    Error,
}

/// One line of output, and the stream it belongs to.
#[derive(Debug, PartialEq, Eq)]
pub struct Emission {
    pub stream: Stream,
    pub text: String,
}

/// The entry written on the "exists" stream for a discovered URL.
pub open spec fn exists_entry(url: Seq<char>) -> Seq<char> {
    seq!['U', 'R', 'L', ':', ' '] + url
}

/// The entry that one outcome produces, if any.
pub open spec fn emission_of(o: Outcome) -> Option<(Stream, Seq<char>)> {
    match o {
        Outcome::Exists(url) => Some((Stream::Exists, exists_entry(url))),
        Outcome::NotFound => None,
        Outcome::Failed(e) => Some((Stream::Error, e)),
    }
}

/// The "exists" stream produced by outcomes taken in this order.
pub open spec fn exists_stream(rs: Seq<Outcome>) -> Seq<Seq<char>>
    decreases rs.len(),
{
    if rs.len() == 0 {
        seq![]
    } else {
        let prev = exists_stream(rs.drop_last());
        match rs.last() {
            Outcome::Exists(url) => prev.push(exists_entry(url)),
            _ => prev,
        }
    }
}

/// The "error" stream produced by outcomes taken in this order.
pub open spec fn error_stream(rs: Seq<Outcome>) -> Seq<Seq<char>>
    decreases rs.len(),
{
    if rs.len() == 0 {
        seq![]
    } else {
        let prev = error_stream(rs.drop_last());
        match rs.last() {
            Outcome::Failed(e) => prev.push(e),
            _ => prev,
        }
    }
}

/// The models of a sequence of results.
pub open spec fn outcomes(rs: Seq<ProbeResult>) -> Seq<Outcome> {
    rs.map_values(|r: ProbeResult| r@)
}

/// The output line for one result: `URL: <url>` on "exists" for a discovery,
/// the error text on "error" for a failure, nothing for "not found".
pub fn emission(r: &ProbeResult) -> (e: Option<Emission>)
    ensures
        match emission_of(r@) {
            Some((stream, text)) => e is Some && e->0.stream == stream && e->0.text@ == text,
            None => e is None,
        },
{
    match r {
        ProbeResult::Exists(url) => {
            let mut text = String::from_str("URL: ");
            text.append(url.as_str());
            proof {
                reveal_strlit("URL: ");
            }
            Some(Emission { stream: Stream::Exists, text })
        },
        ProbeResult::NotFound => None,
        ProbeResult::Failed(err) => Some(Emission { stream: Stream::Error, text: err.clone() }),
    }
}

/// Both streams of a finished run, in the order the results came in.
pub struct Report {
    pub exists: Vec<String>,
    pub errors: Vec<String>,
}

/// Renders results, in the order they completed, into the two streams.
pub fn collect(results: &Vec<ProbeResult>) -> (r: Report)
    ensures
        r.exists.deep_view() == exists_stream(outcomes(results@)),
        r.errors.deep_view() == error_stream(outcomes(results@)),
{
    let mut exists: Vec<String> = Vec::new();
    let mut errors: Vec<String> = Vec::new();
    let mut i: usize = 0;
    while i < results.len()
        invariant
            i <= results@.len(),
            exists.deep_view() == exists_stream(outcomes(results@).take(i as int)),
            errors.deep_view() == error_stream(outcomes(results@).take(i as int)),
        decreases results@.len() - i,
    {
        let ghost done = outcomes(results@).take(i as int);
        let ghost next = outcomes(results@).take(i + 1);
        assert(next.drop_last() =~= done);
        match emission(&results[i]) {
            Some(e) => match e.stream {
                Stream::Exists => exists.push(e.text),
                Stream::Error => errors.push(e.text),
            },
            None => {},
        }
        assert(exists.deep_view() =~= exists_stream(next));
        assert(errors.deep_view() =~= error_stream(next));
        i = i + 1;
    }
    assert(outcomes(results@).take(results@.len() as int) =~= outcomes(results@));
    Report { exists, errors }
}

} // verus!
