//! What is asked of the server over HTTP, and what its answers mean.
use crate::config::Config;
use crate::error::PollError;
use crate::text::{cat, cat4};
use vstd::prelude::*;
use vstd::string::*;

verus! {

/// An HTTP GET that succeeded, with the wall-clock round trip in nanoseconds.
#[derive(Debug)]
pub struct Fetched {
    pub status: u16,
    pub body: String,
    pub rtt: u64,
}

/// Where the server is, and what it is told of us: the timeout and the bearer token of
/// every request.
#[derive(Debug)]
pub struct Http {
    pub base: String,
    pub api_key: String,
    pub timeout_ms: u64,
}

/// A text without the slashes at its end.
pub open spec fn without_slashes(s: Seq<char>) -> Seq<char>
    decreases s.len(),
{
    if s.len() > 0 && s.last() == '/' {
        without_slashes(s.drop_last())
    } else {
        s
    }
}

/// A text without the slashes at its end.
fn trim_slashes(s: &str) -> (r: String)
    ensures
        r@ == without_slashes(s@),
{
    let v = crate::text::chars_of(s);
    let mut end: usize = v.len();
    assert(v@.take(end as int) =~= v@);
    while end > 0 && v[end - 1] == '/'
        invariant
            end <= v@.len(),
            without_slashes(v@) == without_slashes(v@.take(end as int)),
        decreases end,
    {
        assert(v@.take(end as int).drop_last() =~= v@.take(end - 1));
        end -= 1;
    }
    let r = crate::text::of_chars(&v, 0, end);
    assert(v@.subrange(0, end as int) =~= v@.take(end as int));
    r
}

/// Whether a status is one of success.
pub open spec fn is_success(status: u16) -> bool {
    200 <= status < 300
}

impl Http {
    pub fn new(cfg: &Config) -> (r: Http)
        ensures
            r.base@ == without_slashes(cfg.url@),
            r.api_key@ == cfg.api_key@,
            r.timeout_ms == cfg.timeout_ms,
    {
        Http {
            base: trim_slashes(cfg.url.as_str()),
            api_key: cfg.api_key.clone(),
            timeout_ms: cfg.timeout_ms,
        }
    }

    /// The address of `path`.
    pub fn url(&self, path: &str) -> (r: String)
        ensures
            r@ == self.base@ + path@,
    {
        cat(self.base.as_str(), path)
    }

    /// The authorization header of a request, where there is a key.
    pub fn authorization(&self) -> (r: Option<String>)
        ensures
            match r {
                Some(h) => self.api_key@.len() > 0 && h@ == "Bearer "@ + self.api_key@,
                None => self.api_key@.len() == 0,
            },
    {
        if self.api_key.as_str().unicode_len() == 0 {
            None
        } else {
            Some(cat("Bearer ", self.api_key.as_str()))
        }
    }
}

/// The error of a request for `path` that was not sent or not answered; `message` is
/// what the client says.
pub fn send_error(path: &str, timed_out: bool, message: &str) -> (r: PollError)
    ensures
        match r {
            PollError::Transport(t) => t@ == if timed_out {
                "timeout "@ + path@
            } else {
                message@
            },
            _ => false,
        },
{
    PollError::Transport(
        if timed_out {
            cat("timeout ", path)
        } else {
            message.to_owned()
        },
    )
}

/// The error of an answer to `path` whose body did not arrive.
pub fn read_error(path: &str, message: &str) -> (r: PollError)
    ensures
        match r {
            PollError::Transport(t) => t@ == "read "@ + path@ + ": "@ + message@,
            _ => false,
        },
{
    PollError::Transport(cat4("read ", path, ": ", message))
}

/// What an answer to `path` means: its body where the status is one of success, else an
/// error with the status.
pub fn answered(path: &str, status: u16, body: String, rtt: u64) -> (r: Result<Fetched, PollError>)
    ensures
        match r {
            Ok(f) => is_success(status) && f == (Fetched { status, body, rtt }),
            Err(PollError::Status { status: s, path: p }) => !is_success(status) && s == status && p@
                == path@,
            Err(_) => false,
        },
{
    if status < 200 || status >= 300 {
        return Err(PollError::Status { status, path: path.to_owned() });
    }
    Ok(Fetched { status, body, rtt })
}

/// Whether an error says that the route does not exist.
pub open spec fn is_missing(e: PollError) -> bool {
    match e {
        PollError::Status { status, .. } => status == 404,
        _ => false,
    }
}

/// The body of a route that may be absent on this server build: none on 404, other
/// failures as errors.
pub fn optional(r: Result<Fetched, PollError>) -> (o: Result<Option<String>, PollError>)
    ensures
        match r {
            Ok(f) => o == Ok::<Option<String>, PollError>(Some(f.body)),
            Err(e) => if is_missing(e) {
                o == Ok::<Option<String>, PollError>(None)
            } else {
                o == Err::<Option<String>, PollError>(e)
            },
        },
{
    match r {
        Ok(f) => Ok(Some(f.body)),
        Err(PollError::Status { status, path }) => {
            if status == 404 {
                Ok(None)
            } else {
                Err(PollError::Status { status, path })
            }
        },
        Err(e) => Err(e),
    }
}

// ---- candidates ----

/// The routes of the model's metadata, the canonical one first.
pub const MODEL_ROUTES: [&'static str; 2] = ["/model_info", "/get_model_info"];

/// The routes of the server's metadata, the canonical one first.
pub const SERVER_ROUTES: [&'static str; 2] = ["/server_info", "/get_server_info"];

/// What is said where none of the routes exists.
pub const NO_ROUTE: &'static str =
    "no model_info/server_info route (tried canonical + /get_ aliases)";

/// What comes after the answer of a candidate.
#[derive(Debug)]
pub enum Step {
    /// This is the body.
    Done(String),
    /// Ask the candidate of this number.
    Ask(usize),
    Fail(PollError),
}

/// What comes after candidate `i` of `n` has answered `r`: the first body is taken; an
/// absent route and, but for the last candidate, any failure lead to the next one.
pub fn after_candidate(i: usize, n: usize, r: Result<Option<String>, PollError>) -> (s: Step)
    requires
        i < n,
    ensures
        match r {
            Ok(Some(body)) => s == Step::Done(body),
            Ok(None) => s == if i + 1 < n {
                Step::Ask((i + 1) as usize)
            } else {
                Step::Fail(PollError::Disabled(NO_ROUTE))
            },
            Err(e) => s == if i + 1 < n {
                Step::Ask((i + 1) as usize)
            } else {
                Step::Fail(e)
            },
        },
{
    match r {
        Ok(Some(body)) => Step::Done(body),
        Ok(None) => if i + 1 < n {
            Step::Ask(i + 1)
        } else {
            Step::Fail(PollError::Disabled(NO_ROUTE))
        },
        Err(e) => if i + 1 < n {
            Step::Ask(i + 1)
        } else {
            Step::Fail(e)
        },
    }
}

/// The addresses of a server do not depend on slashes at the end of its base.
pub proof fn slashes_do_not_matter(s: Seq<char>)
    ensures
        without_slashes(s.push('/')) == without_slashes(s),
{
    assert(s.push('/').drop_last() =~= s);
}

}
