use vstd::prelude::*;

verus! {

/// Milliseconds to wait between a failed attempt and the next one.
pub const BACKOFF_MS: u64 = 100;

/// Settings shared by every cycle of a run. Durations are in milliseconds,
/// the cycle interval in seconds.
#[derive(Clone, Debug)]
pub struct Config {
    /// Declared for interface compatibility; no decision consults it.
    pub worker_threads: usize,
    pub timeout_ms: u64,
    pub max_retries: usize,
    pub interval_secs: u64,
}

/// The record one probe produces for one URL. `status` is `Ok` with the HTTP
/// status code when a response came back (whatever the code), and `Err` with
/// the last transport error's description otherwise. `response_time_ms` is the
/// duration of the last attempt only; `timestamp_ms` is milliseconds since the
/// Unix epoch. `ssl_valid` and `body_contains` are set only when a response
/// was received.
#[derive(Debug)]
pub struct ProbeResult {
    pub url: String,
    pub status: Result<u16, String>,
    pub response_time_ms: u64,
    pub timestamp_ms: i64,
    pub ssl_valid: Option<bool>,
    pub body_contains: Option<bool>,
}

/// What one HTTP attempt came to. `body` is `None` when the response body
/// could not be read.
#[derive(Debug)]
pub enum AttemptOutcome {
    Response { code: u16, elapsed_ms: u64, body: Option<Vec<u8>> },
    TransportError { description: String, elapsed_ms: u64 },
}

/// What the caller does after reporting an attempt: wait and try again, or
/// take the finished result.
#[derive(Debug)]
pub enum ProbeStep {
    Retry { backoff_ms: u64 },
    Done(ProbeResult),
}

/// The prefix of a URL with a secure scheme.
pub open spec fn secure_prefix() -> Seq<char> {
    seq!['h', 't', 't', 'p', 's', ':', '/', '/']
}

pub open spec fn is_secure_url(url: Seq<char>) -> bool {
    url.len() >= 8 && url.subrange(0, 8) == secure_prefix()
}

/// The literal looked for in a response body.
pub open spec fn body_marker() -> Seq<u8> {
    seq![104u8, 116u8, 109u8, 108u8]
}

pub open spec fn has_marker(body: Seq<u8>) -> bool {
    exists|i: int| 0 <= i && i + 4 <= body.len() && #[trigger] body.subrange(i, i + 4) == body_marker()
}

/// Whether `url` starts with `https://`.
pub fn url_is_secure(url: &str) -> (r: bool)
    ensures
        r == is_secure_url(url@),
{
    let n = url.unicode_len();
    if n < 8 {
        return false;
    }
    let c0 = url.get_char(0);
    let c1 = url.get_char(1);
    let c2 = url.get_char(2);
    let c3 = url.get_char(3);
    let c4 = url.get_char(4);
    let c5 = url.get_char(5);
    let c6 = url.get_char(6);
    let c7 = url.get_char(7);
    let r = c0 == 'h' && c1 == 't' && c2 == 't' && c3 == 'p' && c4 == 's' && c5 == ':' && c6 == '/'
        && c7 == '/';
    proof {
        let p = url@.subrange(0, 8);
        if r {
            assert(p =~= secure_prefix());
        } else if p == secure_prefix() {
            assert(p[0] == 'h' && p[1] == 't' && p[2] == 't' && p[3] == 'p');
            assert(p[4] == 's' && p[5] == ':' && p[6] == '/' && p[7] == '/');
        }
    }
    r
}

/// Whether `body` contains the bytes of `html` anywhere.
pub fn contains_marker(body: &Vec<u8>) -> (r: bool)
    ensures
        r == has_marker(body@),
{
    let n = body.len();
    let mut i: usize = 0;
    while i < n && n - i >= 4
        invariant
            n == body@.len(),
            i <= n,
            forall|k: int| 0 <= k < i ==> #[trigger] body@.subrange(k, k + 4) != body_marker(),
        decreases n - i,
    {
        if body[i] == 104u8 && body[i + 1] == 116u8 && body[i + 2] == 109u8 && body[i + 3] == 108u8 {
            assert(body@.subrange(i as int, i + 4) =~= body_marker());
            return true;
        }
        proof {
            let w = body@.subrange(i as int, i + 4);
            assert(w[0] == body@[i as int] && w[1] == body@[i + 1] && w[2] == body@[i + 2] && w[3]
                == body@[i + 3]);
            assert(w != body_marker()) by {
                if w == body_marker() {
                    assert(w[0] == 104u8 && w[1] == 116u8 && w[2] == 109u8 && w[3] == 108u8);
                }
            }
        }
        i = i + 1;
    }
    proof {
        assert forall|k: int| 0 <= k && k + 4 <= body@.len() implies #[trigger] body@.subrange(
            k,
            k + 4,
        ) != body_marker() by {
            assert(k < i);
        }
    }
    false
}

/// Whether an attempt with this outcome, made after `made` earlier attempts,
/// ends the probe: a response always does, a transport error does once the
/// retry budget is spent.
pub open spec fn ends_probe(made: nat, max_retries: nat, responded: bool) -> bool {
    responded || made >= max_retries
}

/// Feeds attempt outcomes in order (`true` for a response) to a probe that
/// has made `made` attempts: `Some((attempts made in all, ended on a
/// response))` once the probe ends, `None` if the outcomes run out first.
/// Every attempt but the last is followed by one backoff.
pub open spec fn probe_run(max_retries: nat, made: nat, responded: Seq<bool>) -> Option<(nat, bool)>
    decreases responded.len(),
{
    if responded.len() == 0 {
        None
    } else if ends_probe(made, max_retries, responded[0]) {
        Some((made + 1, responded[0]))
    } else {
        probe_run(max_retries, made + 1, responded.drop_first())
    }
}

proof fn lemma_failures_from(max_retries: nat, made: nat, responded: Seq<bool>)
    requires
        made <= max_retries,
        responded.len() + made >= max_retries + 1,
        forall|i: int| 0 <= i < responded.len() ==> !responded[i],
    ensures
        probe_run(max_retries, made, responded) == Some((max_retries + 1, false)),
    decreases responded.len(),
{
    if made < max_retries {
        lemma_failures_from(max_retries, made + 1, responded.drop_first());
    }
}

/// A URL whose every attempt fails at the transport level is attempted
/// exactly `max_retries + 1` times (so with `max_retries` backoffs), and the
/// probe ends once, with a failure.
pub proof fn lemma_failing_url_uses_every_attempt(max_retries: nat, responded: Seq<bool>)
    requires
        responded.len() >= max_retries + 1,
        forall|i: int| 0 <= i < responded.len() ==> !responded[i],
    ensures
        probe_run(max_retries, 0, responded) == Some((max_retries + 1, false)),
{
    lemma_failures_from(max_retries, 0, responded);
}

/// A URL that responds to its first attempt is attempted once, with no
/// backoff, and the probe ends with a success.
pub proof fn lemma_first_response_ends_probe(max_retries: nat, responded: Seq<bool>)
    requires
        responded.len() >= 1,
        responded[0],
    ensures
        probe_run(max_retries, 0, responded) == Some((1nat, true)),
{
}

/// `ssl_valid` follows the URL's scheme on a response and stays unset when
/// the probe ends without one.
pub proof fn lemma_ssl_follows_scheme(r: ProbeResult, url: Seq<char>, outcome: AttemptOutcome, now_ms: i64)
    requires
        is_final_result(r, url, outcome, now_ms),
    ensures
        outcome is Response && is_secure_url(url) ==> r.ssl_valid == Some(true),
        outcome is Response && !is_secure_url(url) ==> r.ssl_valid == Some(false),
        outcome is TransportError ==> r.ssl_valid is None,
{
}

/// The field values of the result that ends a probe of `url` on `outcome`,
/// finished at `now_ms`.
pub open spec fn is_final_result(r: ProbeResult, url: Seq<char>, outcome: AttemptOutcome, now_ms: i64) -> bool {
    &&& r.url@ == url
    &&& r.timestamp_ms == now_ms
    &&& match outcome {
        AttemptOutcome::Response { code, elapsed_ms, body } => {
            &&& r.status == Ok::<u16, String>(code)
            &&& r.response_time_ms == elapsed_ms
            &&& r.ssl_valid == Some(is_secure_url(url))
            &&& r.body_contains == Some(
                match body {
                    Some(b) => has_marker(b@),
                    None => false,
                },
            )
        },
        AttemptOutcome::TransportError { description, elapsed_ms } => {
            &&& r.status == Err::<u16, String>(description)
            &&& r.response_time_ms == elapsed_ms
            &&& r.ssl_valid is None
            &&& r.body_contains is None
        },
    }
}

/// The decisions of one probe of one URL: the caller makes each HTTP attempt,
/// reports its outcome with `record`, and waits or stops as told.
#[derive(Clone, Debug)]
pub struct ProbeSession {
    pub url: String,
    pub max_retries: usize,
    pub retries_left: usize,
    pub finished: bool,
}

impl ProbeSession {
    pub open spec fn wf(&self) -> bool {
        self.retries_left <= self.max_retries
    }

    /// Attempts reported so far.
    pub open spec fn attempts_made(&self) -> nat {
        (self.max_retries - self.retries_left) as nat + if self.finished {
            1nat
        } else {
            0nat
        }
    }

    /// A probe of `url` that has made no attempt yet.
    pub fn new(url: String, cfg: &Config) -> (s: ProbeSession)
        ensures
            s.wf(),
            s.url == url,
            s.max_retries == cfg.max_retries,
            !s.finished,
            s.attempts_made() == 0,
    {
        ProbeSession { url, max_retries: cfg.max_retries, retries_left: cfg.max_retries, finished: false }
    }

    /// Takes the outcome of the next attempt, finished at `now_ms`. A response
    /// ends the probe with a success; a transport error asks for a retry after
    /// the backoff while retries are left, and ends the probe with a failure
    /// otherwise.
    pub fn record(&mut self, outcome: AttemptOutcome, now_ms: i64) -> (step: ProbeStep)
        requires
            old(self).wf(),
            !old(self).finished,
        ensures
            final(self).wf(),
            final(self).url == old(self).url,
            final(self).max_retries == old(self).max_retries,
            final(self).attempts_made() == old(self).attempts_made() + 1,
            final(self).finished == (step is Done),
            (step is Done) == ends_probe(
                old(self).attempts_made(),
                old(self).max_retries as nat,
                outcome is Response,
            ),
            step is Retry ==> step->backoff_ms == BACKOFF_MS,
            step is Done ==> is_final_result(step->Done_0, old(self).url@, outcome, now_ms),
    {
        let ghost original = outcome;
        match outcome {
            AttemptOutcome::Response { code, elapsed_ms, body } => {
                let ssl = url_is_secure(self.url.as_str());
                let marker = match body {
                    Some(b) => contains_marker(&b),
                    None => false,
                };
                self.finished = true;
                ProbeStep::Done(
                    ProbeResult {
                        url: self.url.clone(),
                        status: Ok(code),
                        response_time_ms: elapsed_ms,
                        timestamp_ms: now_ms,
                        ssl_valid: Some(ssl),
                        body_contains: Some(marker),
                    },
                )
            },
            AttemptOutcome::TransportError { description, elapsed_ms } => {
                if self.retries_left > 0 {
                    self.retries_left = self.retries_left - 1;
                    ProbeStep::Retry { backoff_ms: BACKOFF_MS }
                } else {
                    self.finished = true;
                    ProbeStep::Done(
                        ProbeResult {
                            url: self.url.clone(),
                            status: Err(description),
                            response_time_ms: elapsed_ms,
                            timestamp_ms: now_ms,
                            ssl_valid: None,
                            body_contains: None,
                        },
                    )
                }
            },
        }
    }
}

} // verus!
