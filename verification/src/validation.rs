use vstd::prelude::*;

use crate::classify::{classify, spec_classify, Classification, ClassificationView};
use crate::feed::{Feed, FeedView};
use crate::numfmt::{spec_decimal, u64_to_string, usize_to_string};
use crate::report::{bump_count, counts_view, lemma_bump_bound, spec_bump};
use crate::strutil::{clone_strings, join_strings, push_char, spec_join, str_eq};

verus! {

/// The definitive verdict on one feed: `status` is `valid`, `invalid` or
/// `error`, `error` is the human-readable diagnostic (empty for a valid
/// feed), and `feed`, `url` and `categories` echo the input feed's title,
/// URL and category path unchanged.
#[derive(Debug)]
pub struct ValidationResult {
    pub feed: String,
    pub url: String,
    pub status: String,
    pub error: String,
    pub categories: Vec<String>,
}

/// The mathematical value of a `ValidationResult`.
pub struct ValidationResultView {
    pub feed: Seq<char>,
    pub url: Seq<char>,
    pub status: Seq<char>,
    pub error: Seq<char>,
    pub categories: Seq<Seq<char>>,
}

impl View for ValidationResult {
    type V = ValidationResultView;

    open spec fn view(&self) -> ValidationResultView {
        ValidationResultView {
            feed: self.feed@,
            url: self.url@,
            status: self.status@,
            error: self.error@,
            categories: self.categories.deep_view(),
        }
    }
}

/// The outcome of sending one request, before any response arrives.
pub enum TransportError {
    /// The request exceeded the client's timeout. Never retried.
    Timeout,
    /// A connection-level failure, with the transport's message. Retryable.
    Connect(String),
    /// A request-construction failure, with the transport's message.
    /// Retryable.
    Request(String),
    /// Any other transport-level failure. Terminal.
    Other(String),
}

/// The mathematical value of a `TransportError`.
pub enum TransportErrorView {
    Timeout,
    Connect(Seq<char>),
    Request(Seq<char>),
    Other(Seq<char>),
}

impl View for TransportError {
    type V = TransportErrorView;

    open spec fn view(&self) -> TransportErrorView {
        match self {
            TransportError::Timeout => TransportErrorView::Timeout,
            TransportError::Connect(m) => TransportErrorView::Connect(m@),
            TransportError::Request(m) => TransportErrorView::Request(m@),
            TransportError::Other(m) => TransportErrorView::Other(m@),
        }
    }
}

/// What the driver must do next after handing the engine an event.
pub enum Step {
    /// Sleep out the rest of the given backoff window (measured from the
    /// start of the attempt), then fetch again.
    Retry { backoff_secs: u64 },
    /// The validation reached a terminal outcome.
    Finished(ValidationResult),
}

/// The mathematical value of a `Step`.
pub enum StepView {
    Retry { backoff_secs: nat },
    Finished(ValidationResultView),
}

impl View for Step {
    type V = StepView;

    open spec fn view(&self) -> StepView {
        match self {
            Step::Retry { backoff_secs } => StepView::Retry {
                backoff_secs: *backoff_secs as nat,
            },
            Step::Finished(r) => StepView::Finished(r@),
        }
    }
}

/// What the driver must do next after reporting a response status.
pub enum StatusStep {
    /// The status was a success: read the body and report it.
    ReadBody,
    /// Sleep out the rest of the given backoff window, then fetch again.
    Retry { backoff_secs: u64 },
    /// The validation reached a terminal outcome.
    Finished(ValidationResult),
}

/// The mathematical value of a `StatusStep`.
pub enum StatusStepView {
    ReadBody,
    Retry { backoff_secs: nat },
    Finished(ValidationResultView),
}

impl View for StatusStep {
    type V = StatusStepView;

    open spec fn view(&self) -> StatusStepView {
        match self {
            StatusStep::ReadBody => StatusStepView::ReadBody,
            StatusStep::Retry { backoff_secs } => StatusStepView::Retry {
                backoff_secs: *backoff_secs as nat,
            },
            StatusStep::Finished(r) => StatusStepView::Finished(r@),
        }
    }
}

/// The abstract state of one validation: the feed's identity fields, how
/// many attempts have begun, and the current backoff window.
pub struct ValidatorView {
    pub title: Seq<char>,
    pub url: Seq<char>,
    pub categories: Seq<Seq<char>>,
    pub attempts: nat,
    pub backoff_secs: nat,
}

/// Powers of two, for the exponential backoff bound.
pub open spec fn spec_pow2(n: nat) -> nat
    decreases n,
{
    if n == 0 {
        1
    } else {
        2 * spec_pow2((n - 1) as nat)
    }
}

/// At most five attempts ever begin, and the backoff window starts at one
/// second and at most doubles per attempt.
pub open spec fn spec_wf(v: ValidatorView) -> bool {
    v.attempts <= 5 && 1 <= v.backoff_secs && v.backoff_secs <= spec_pow2(v.attempts)
}

/// The fresh state for a feed: no attempts yet, one second of backoff.
pub open spec fn spec_init(f: FeedView) -> ValidatorView {
    ValidatorView {
        title: f.title,
        url: f.xml_url,
        categories: f.category,
        attempts: 0,
        backoff_secs: 1,
    }
}

/// A terminal `error` result carrying the given diagnostic.
pub open spec fn spec_error_result(v: ValidatorView, msg: Seq<char>) -> ValidationResultView {
    ValidationResultView {
        feed: v.title,
        url: v.url,
        status: "error"@,
        error: msg,
        categories: v.categories,
    }
}

/// A terminal `valid` result: the error text is empty.
pub open spec fn spec_valid_result(v: ValidatorView) -> ValidationResultView {
    ValidationResultView {
        feed: v.title,
        url: v.url,
        status: "valid"@,
        error: ""@,
        categories: v.categories,
    }
}

/// A terminal `invalid` result carrying the classifier's diagnostic.
pub open spec fn spec_invalid_result(v: ValidatorView, msg: Seq<char>) -> ValidationResultView {
    ValidationResultView {
        feed: v.title,
        url: v.url,
        status: "invalid"@,
        error: msg,
        categories: v.categories,
    }
}

/// One more attempt has begun.
pub open spec fn spec_bump_attempt(v: ValidatorView) -> ValidatorView {
    ValidatorView { attempts: v.attempts + 1, ..v }
}

/// The state after a backoff retry was granted: the window doubles.
pub open spec fn spec_double(v: ValidatorView) -> ValidatorView {
    ValidatorView { backoff_secs: v.backoff_secs * 2, ..v }
}

/// How a transport error resolves: a timeout is terminal at once with the
/// fixed message; connection and request-construction failures retry while
/// attempts remain and otherwise surface the transport's message; any other
/// failure is terminal at once with the transport's message.
pub open spec fn spec_on_transport(v: ValidatorView, e: TransportErrorView) -> (
    ValidatorView,
    StepView,
) {
    let v2 = spec_bump_attempt(v);
    match e {
        TransportErrorView::Timeout => (
            v2,
            StepView::Finished(spec_error_result(v, "Network timeout"@)),
        ),
        TransportErrorView::Connect(m) => if v2.attempts < 5 {
            (spec_double(v2), StepView::Retry { backoff_secs: v.backoff_secs })
        } else {
            (v2, StepView::Finished(spec_error_result(v, m)))
        },
        TransportErrorView::Request(m) => if v2.attempts < 5 {
            (spec_double(v2), StepView::Retry { backoff_secs: v.backoff_secs })
        } else {
            (v2, StepView::Finished(spec_error_result(v, m)))
        },
        TransportErrorView::Other(m) => (v2, StepView::Finished(spec_error_result(v, m))),
    }
}

/// How a response status resolves: a success status (2xx) proceeds to the
/// body read; a server error (5xx) retries while attempts remain and
/// otherwise exhausts the budget; any other status is terminal at once with
/// a message carrying the numeric code.
pub open spec fn spec_on_status(v: ValidatorView, status: u16) -> (ValidatorView, StatusStepView) {
    let v2 = spec_bump_attempt(v);
    if 200 <= status < 300 {
        (v2, StatusStepView::ReadBody)
    } else if 500 <= status < 600 {
        if v2.attempts < 5 {
            (spec_double(v2), StatusStepView::Retry { backoff_secs: v.backoff_secs })
        } else {
            (v2, StatusStepView::Finished(spec_error_result(v, "Max retry attempts reached"@)))
        }
    } else {
        (
            v2,
            StatusStepView::Finished(
                spec_error_result(v, "HTTP "@ + spec_decimal(status as nat)),
            ),
        )
    }
}

/// How the body of a success response resolves: a readable body is
/// classified — RSS or Atom is `valid`, anything else `invalid` with the
/// classifier's reason; a failed body read retries immediately (no extra
/// sleep, no doubling) while attempts remain and is otherwise terminal.
pub open spec fn spec_on_body(v: ValidatorView, body: Option<Seq<char>>) -> (
    ValidatorView,
    StepView,
) {
    match body {
        Some(text) => match spec_classify(text) {
            ClassificationView::Rss => (v, StepView::Finished(spec_valid_result(v))),
            ClassificationView::Atom => (v, StepView::Finished(spec_valid_result(v))),
            ClassificationView::NeitherWithReason(m) => (
                v,
                StepView::Finished(spec_invalid_result(v, m)),
            ),
        },
        None => if v.attempts >= 5 {
            (v, StepView::Finished(spec_error_result(v, "Failed to read response text"@)))
        } else {
            (v, StepView::Retry { backoff_secs: 0 })
        },
    }
}

/// One whole attempt as the driver sees it: either the transport failed, or
/// a response arrived with its status and, when the status was a success,
/// the outcome of the body read (`None` when the read failed).
pub enum AttemptEventView {
    Transport(TransportErrorView),
    Response { status: u16, body: Option<Seq<char>> },
}

/// How the engine resolves one whole attempt: the state afterwards and, when
/// the attempt was terminal, its result.
pub open spec fn spec_attempt(v: ValidatorView, ev: AttemptEventView) -> (
    ValidatorView,
    Option<ValidationResultView>,
) {
    match ev {
        AttemptEventView::Transport(e) => {
            let r = spec_on_transport(v, e);
            match r.1 {
                StepView::Finished(res) => (r.0, Some(res)),
                StepView::Retry { backoff_secs } => (r.0, None),
            }
        },
        AttemptEventView::Response { status, body } => {
            let r = spec_on_status(v, status);
            match r.1 {
                StatusStepView::ReadBody => {
                    let r2 = spec_on_body(r.0, body);
                    match r2.1 {
                        StepView::Finished(res) => (r2.0, Some(res)),
                        StepView::Retry { backoff_secs } => (r2.0, None),
                    }
                },
                StatusStepView::Finished(res) => (r.0, Some(res)),
                StatusStepView::Retry { backoff_secs } => (r.0, None),
            }
        },
    }
}

/// Drives the engine over a sequence of attempt outcomes until a terminal
/// one: the result, together with how many attempts were consumed. `None`
/// when the events ran out before a terminal outcome was reached.
pub open spec fn spec_run(v: ValidatorView, evs: Seq<AttemptEventView>) -> Option<
    (ValidationResultView, int),
>
    decreases evs.len(),
{
    if evs.len() == 0 {
        None
    } else {
        let r = spec_attempt(v, evs[0]);
        match r.1 {
            Some(res) => Some((res, 1int)),
            None => match spec_run(r.0, evs.skip(1)) {
                Some(p) => Some((p.0, p.1 + 1)),
                None => None,
            },
        }
    }
}

/// However one attempt resolves, the engine keeps the feed's title, URL and
/// category path, and a terminal result carries them unchanged.
pub proof fn lemma_attempt_keeps_identity(v: ValidatorView, ev: AttemptEventView)
    ensures
        spec_attempt(v, ev).0.title == v.title,
        spec_attempt(v, ev).0.url == v.url,
        spec_attempt(v, ev).0.categories == v.categories,
        spec_attempt(v, ev).1 matches Some(r) ==> r.feed == v.title && r.url == v.url
            && r.categories == v.categories,
{
}

/// Validation produces exactly one result per feed, whose `feed`, `url` and
/// `categories` fields exactly match the input feed's title, URL and
/// category path, however many retries occurred: a terminal run consumes
/// between one attempt and all the events offered, and its result echoes the
/// identity fields unchanged.
pub proof fn lemma_run_identity(v: ValidatorView, evs: Seq<AttemptEventView>)
    ensures
        spec_run(v, evs) matches Some(p) ==> p.0.feed == v.title && p.0.url == v.url
            && p.0.categories == v.categories && 1 <= p.1 <= evs.len(),
    decreases evs.len(),
{
    if evs.len() > 0 {
        lemma_attempt_keeps_identity(v, evs[0]);
        lemma_run_identity(spec_attempt(v, evs[0]).0, evs.skip(1));
    }
}

/// A timeout is terminal immediately: the run ends after that single
/// request, with the `Network timeout` error and no retry.
pub proof fn lemma_timeout_never_retried(v: ValidatorView, evs: Seq<AttemptEventView>)
    requires
        evs.len() >= 1,
        evs[0] == AttemptEventView::Transport(TransportErrorView::Timeout),
    ensures
        spec_run(v, evs) == Some((spec_error_result(v, "Network timeout"@), 1int)),
{
}

/// Whether an attempt outcome is a response with a server error status.
pub open spec fn spec_is_server_error_event(ev: AttemptEventView) -> bool {
    match ev {
        AttemptEventView::Transport(e) => false,
        AttemptEventView::Response { status, body } => 500 <= status < 600,
    }
}

proof fn lemma_server_errors_from(v: ValidatorView, evs: Seq<AttemptEventView>, k: int)
    requires
        v.attempts == k,
        0 <= k < 5,
        evs.len() >= 5 - k,
        forall|i: int| 0 <= i < 5 - k ==> spec_is_server_error_event(#[trigger] evs[i]),
    ensures
        spec_run(v, evs) == Some((spec_error_result(v, "Max retry attempts reached"@), 5 - k)),
    decreases 5 - k,
{
    assert(spec_is_server_error_event(evs[0]));
    if k < 4 {
        let v2 = spec_attempt(v, evs[0]).0;
        assert(v2.attempts == k + 1);
        assert forall|i: int|
            0 <= i < 5 - (k + 1) implies spec_is_server_error_event(#[trigger] evs.skip(1)[i]) by {
            assert(evs.skip(1)[i] == evs[i + 1]);
        }
        lemma_server_errors_from(v2, evs.skip(1), k + 1);
        assert(spec_error_result(v2, "Max retry attempts reached"@) == spec_error_result(
            v,
            "Max retry attempts reached"@,
        ));
    }
}

/// A server that answers a 5xx status to every request exhausts the attempt
/// budget: starting fresh, exactly five requests are made and the outcome is
/// the `Max retry attempts reached` error.
pub proof fn lemma_server_errors_exhaust_attempts(v: ValidatorView, evs: Seq<AttemptEventView>)
    requires
        v.attempts == 0,
        evs.len() >= 5,
        forall|i: int| 0 <= i < 5 ==> spec_is_server_error_event(#[trigger] evs[i]),
    ensures
        spec_run(v, evs) == Some((spec_error_result(v, "Max retry attempts reached"@), 5int)),
{
    lemma_server_errors_from(v, evs, 0);
}

/// Whether an attempt outcome carries only non-empty diagnostics: a
/// transport failure comes with a message, and a body that is not a feed
/// classifies with a non-empty reason. The real collaborators satisfy this:
/// transport errors render a message, and `classify` ensures its reasons (a
/// parser message, or the fixed unrecognized-structure text) are non-empty.
pub open spec fn spec_event_diagnosed(ev: AttemptEventView) -> bool {
    match ev {
        AttemptEventView::Transport(e) => match e {
            TransportErrorView::Timeout => true,
            TransportErrorView::Connect(m) => m.len() > 0,
            TransportErrorView::Request(m) => m.len() > 0,
            TransportErrorView::Other(m) => m.len() > 0,
        },
        AttemptEventView::Response { status, body } => match body {
            Some(t) => match spec_classify(t) {
                ClassificationView::NeitherWithReason(m) => m.len() > 0,
                ClassificationView::Rss => true,
                ClassificationView::Atom => true,
            },
            None => true,
        },
    }
}

/// A terminal result's error text is empty exactly when its status is
/// `valid`.
pub proof fn lemma_error_empty_iff_valid(v: ValidatorView, ev: AttemptEventView)
    requires
        spec_event_diagnosed(ev),
    ensures
        spec_attempt(v, ev).1 matches Some(r) ==> (r.status == "valid"@ <==> r.error.len()
            == 0),
{
    lemma_status_literals();
}

/// Over a whole run: the one result per feed has an empty error text exactly
/// when its status is `valid`.
pub proof fn lemma_run_error_empty_iff_valid(v: ValidatorView, evs: Seq<AttemptEventView>)
    requires
        forall|i: int| 0 <= i < evs.len() ==> spec_event_diagnosed(#[trigger] evs[i]),
    ensures
        spec_run(v, evs) matches Some(p) ==> (p.0.status == "valid"@ <==> p.0.error.len() == 0),
    decreases evs.len(),
{
    if evs.len() > 0 {
        lemma_error_empty_iff_valid(v, evs[0]);
        assert forall|i: int|
            0 <= i < evs.skip(1).len() implies spec_event_diagnosed(#[trigger] evs.skip(1)[i]) by {
            assert(evs.skip(1)[i] == evs[i + 1]);
        }
        lemma_run_error_empty_iff_valid(spec_attempt(v, evs[0]).0, evs.skip(1));
    }
}

/// The validation engine for one feed. Each feed's validation owns its own
/// state; concurrent validations share nothing.
pub struct Validator {
    title: String,
    url: String,
    categories: Vec<String>,
    attempts: u8,
    backoff_secs: u64,
}

impl View for Validator {
    type V = ValidatorView;

    closed spec fn view(&self) -> ValidatorView {
        ValidatorView {
            title: self.title@,
            url: self.url@,
            categories: self.categories.deep_view(),
            attempts: self.attempts as nat,
            backoff_secs: self.backoff_secs as nat,
        }
    }
}

proof fn lemma_status_literals()
    ensures
        "error"@ != "valid"@,
        "invalid"@ != "valid"@,
        ""@.len() == 0,
        ""@ =~= Seq::<char>::empty(),
        "Failed to read response text"@.len() > 0,
        "Network timeout"@.len() > 0,
        "Max retry attempts reached"@.len() > 0,
        "HTTP "@.len() == 5,
{
    reveal_strlit("error");
    reveal_strlit("valid");
    reveal_strlit("invalid");
    reveal_strlit("");
    reveal_strlit("Failed to read response text");
    reveal_strlit("Network timeout");
    reveal_strlit("Max retry attempts reached");
    reveal_strlit("HTTP ");
    assert(("error"@)[0] == 'e');
    assert(("valid"@)[0] == 'v');
    assert(("invalid"@).len() == 7);
    assert(("valid"@).len() == 5);
}

proof fn lemma_pow2_le_16(n: nat)
    requires
        n <= 4,
    ensures
        spec_pow2(n) <= 16,
{
    assert(spec_pow2(0) == 1);
    assert(spec_pow2(1) == 2);
    assert(spec_pow2(2) == 4);
    assert(spec_pow2(3) == 8);
    assert(spec_pow2(4) == 16);
}

impl Validator {
    /// Begins a validation for one feed, copying its identity fields.
    pub fn new(feed: &Feed) -> (v: Validator)
        ensures
            v@ == spec_init(feed@),
            spec_wf(v@),
    {
        let v = Validator {
            title: feed.title.clone(),
            url: feed.xml_url.clone(),
            categories: clone_strings(&feed.category),
            attempts: 0,
            backoff_secs: 1,
        };
        proof {
            assert(v@ == spec_init(feed@));
        }
        v
    }

    /// Whether another attempt may begin.
    pub fn can_attempt(&self) -> (r: bool)
        ensures
            r == (self@.attempts < 5),
    {
        self.attempts < 5
    }

    fn error_result(&self, msg: String) -> (r: ValidationResult)
        ensures
            r@ == spec_error_result(self@, msg@),
    {
        ValidationResult {
            feed: self.title.clone(),
            url: self.url.clone(),
            status: String::from_str("error"),
            error: msg,
            categories: clone_strings(&self.categories),
        }
    }

    /// Resolves a transport error for the attempt that just ran.
    pub fn on_transport_error(&mut self, e: TransportError) -> (step: Step)
        requires
            spec_wf(old(self)@),
            old(self)@.attempts < 5,
        ensures
            spec_wf(final(self)@),
            (final(self)@, step@) == spec_on_transport(old(self)@, e@),
            step@ matches StepView::Finished(r) ==> r.feed == old(self)@.title && r.url == old(
                self,
            )@.url && r.categories == old(self)@.categories,
    {
        proof {
            lemma_pow2_le_16(old(self)@.attempts);
        }
        self.attempts = self.attempts + 1;
        match e {
            TransportError::Timeout => {
                let msg = String::from_str("Network timeout");
                Step::Finished(self.error_result(msg))
            },
            TransportError::Connect(m) => {
                if self.attempts < 5 {
                    let granted = self.backoff_secs;
                    self.backoff_secs = self.backoff_secs * 2;
                    Step::Retry { backoff_secs: granted }
                } else {
                    Step::Finished(self.error_result(m))
                }
            },
            TransportError::Request(m) => {
                if self.attempts < 5 {
                    let granted = self.backoff_secs;
                    self.backoff_secs = self.backoff_secs * 2;
                    Step::Retry { backoff_secs: granted }
                } else {
                    Step::Finished(self.error_result(m))
                }
            },
            TransportError::Other(m) => Step::Finished(self.error_result(m)),
        }
    }

    /// Resolves the status line of the response that just arrived.
    pub fn on_status(&mut self, status: u16) -> (step: StatusStep)
        requires
            spec_wf(old(self)@),
            old(self)@.attempts < 5,
        ensures
            spec_wf(final(self)@),
            (final(self)@, step@) == spec_on_status(old(self)@, status),
            step@ matches StatusStepView::Finished(r) ==> r.feed == old(self)@.title && r.url
                == old(self)@.url && r.categories == old(self)@.categories,
    {
        proof {
            lemma_pow2_le_16(old(self)@.attempts);
        }
        self.attempts = self.attempts + 1;
        if 200 <= status && status < 300 {
            StatusStep::ReadBody
        } else if 500 <= status && status < 600 {
            if self.attempts < 5 {
                let granted = self.backoff_secs;
                self.backoff_secs = self.backoff_secs * 2;
                StatusStep::Retry { backoff_secs: granted }
            } else {
                let msg = String::from_str("Max retry attempts reached");
                StatusStep::Finished(self.error_result(msg))
            }
        } else {
            let mut msg = String::from_str("HTTP ");
            let digits = u64_to_string(status as u64);
            msg.append(digits.as_str());
            StatusStep::Finished(self.error_result(msg))
        }
    }

    /// Resolves the body of a success response: classification decides
    /// between `valid` and `invalid`; a failed read (`None`) retries
    /// immediately while attempts remain.
    pub fn on_body(&mut self, body: Option<String>) -> (step: Step)
        requires
            spec_wf(old(self)@),
        ensures
            spec_wf(final(self)@),
            (final(self)@, step@) == spec_on_body(old(self)@, body.deep_view()),
            step@ matches StepView::Finished(r) ==> r.feed == old(self)@.title && r.url == old(
                self,
            )@.url && r.categories == old(self)@.categories,
            step@ matches StepView::Finished(r) ==> (r.status == "valid"@ <==> r.error.len()
                == 0),
    {
        proof {
            lemma_status_literals();
        }
        match body {
            Some(text) => match classify(text.as_str()) {
                Classification::Rss => Step::Finished(self.valid_result()),
                Classification::Atom => Step::Finished(self.valid_result()),
                Classification::NeitherWithReason(m) => Step::Finished(self.invalid_result(m)),
            },
            None => {
                if self.attempts >= 5 {
                    let msg = String::from_str("Failed to read response text");
                    Step::Finished(self.error_result(msg))
                } else {
                    Step::Retry { backoff_secs: 0 }
                }
            },
        }
    }

    fn valid_result(&self) -> (r: ValidationResult)
        ensures
            r@ == spec_valid_result(self@),
    {
        let r = ValidationResult {
            feed: self.title.clone(),
            url: self.url.clone(),
            status: String::from_str("valid"),
            error: String::new(),
            categories: clone_strings(&self.categories),
        };
        proof {
            lemma_status_literals();
            assert(r.error@ =~= ""@);
        }
        r
    }

    fn invalid_result(&self, msg: String) -> (r: ValidationResult)
        ensures
            r@ == spec_invalid_result(self@, msg@),
    {
        ValidationResult {
            feed: self.title.clone(),
            url: self.url.clone(),
            status: String::from_str("invalid"),
            error: msg,
            categories: clone_strings(&self.categories),
        }
    }
}

/// The mathematical values of a list of validation results.
pub open spec fn results_view(results: Seq<ValidationResult>) -> Seq<ValidationResultView> {
    results.map_values(|r: ValidationResult| r@)
}

/// The error text with each pipe escaped, so it cannot break a Markdown
/// table cell.
pub open spec fn spec_escape_pipes(s: Seq<char>) -> Seq<char>
    decreases s.len(),
{
    if s.len() == 0 {
        Seq::empty()
    } else {
        spec_escape_pipes(s.drop_last()) + (if s.last() == '|' {
            "\\|"@
        } else {
            seq![s.last()]
        })
    }
}

#[verifier::loop_isolation(false)]
fn escape_pipes(text: &str) -> (r: String)
    ensures
        r@ == spec_escape_pipes(text@),
{
    let mut r = String::new();
    let n = text.unicode_len();
    proof {
        assert(r@ =~= spec_escape_pipes(text@.take(0)));
    }
    let mut i: usize = 0;
    while i < n
        invariant
            0 <= i <= n,
            r@ == spec_escape_pipes(text@.take(i as int)),
        decreases n - i,
    {
        let c = text.get_char(i);
        if c == '|' {
            r.append("\\|");
        } else {
            push_char(&mut r, c);
        }
        proof {
            assert(text@.take(i + 1).drop_last() =~= text@.take(i as int));
            assert(text@.take(i + 1).last() == text@[i as int]);
            assert(r@ =~= spec_escape_pipes(text@.take(i + 1)));
        }
        i = i + 1;
    }
    proof {
        assert(text@.take(n as int) =~= text@);
    }
    r
}

/// How many results carry each status, statuses in order of first
/// appearance.
pub open spec fn spec_status_counts(results: Seq<ValidationResultView>) -> Seq<(Seq<char>, int)>
    decreases results.len(),
{
    if results.len() == 0 {
        Seq::empty()
    } else {
        spec_bump(spec_status_counts(results.drop_last()), results.last().status)
    }
}

/// One summary line per status.
pub open spec fn spec_status_count_lines(counts: Seq<(Seq<char>, int)>) -> Seq<char>
    decreases counts.len(),
{
    if counts.len() == 0 {
        Seq::empty()
    } else {
        spec_status_count_lines(counts.drop_last()) + "- "@ + counts.last().0 + ": "@
            + spec_decimal(counts.last().1 as nat) + "\n"@
    }
}

/// One table row per result: feed, URL, pipe-escaped error, and the joined
/// category path.
pub open spec fn spec_result_row(r: ValidationResultView) -> Seq<char> {
    "| "@ + r.feed + " | "@ + r.url + " | "@ + spec_escape_pipes(r.error) + " | "@ + spec_join(
        r.categories,
        " > "@,
    ) + " |\n"@
}

/// The rows for the results with the given status, in input order.
pub open spec fn spec_status_rows(results: Seq<ValidationResultView>, status: Seq<char>) -> Seq<
    char,
>
    decreases results.len(),
{
    if results.len() == 0 {
        Seq::empty()
    } else {
        spec_status_rows(results.drop_last(), status) + (if results.last().status == status {
            spec_result_row(results.last())
        } else {
            Seq::<char>::empty()
        })
    }
}

/// Whether any result carries the given status.
pub open spec fn spec_has_status(results: Seq<ValidationResultView>, status: Seq<char>) -> bool {
    exists|i: int| 0 <= i < results.len() && (#[trigger] results[i]).status == status
}

/// The table section for one status, absent when no result carries it.
pub open spec fn spec_status_section(
    results: Seq<ValidationResultView>,
    status: Seq<char>,
    heading: Seq<char>,
) -> Seq<char> {
    if spec_has_status(results, status) {
        "## "@ + heading + " Feeds\n\n"@ + "| Feed | URL | Error | Categories |\n"@
            + "|------|-----|-------|------------|\n"@ + spec_status_rows(results, status)
            + "\n"@
    } else {
        Seq::empty()
    }
}

/// The whole validation report for a batch of results: the source file, the
/// summary counts, and one table per status in the order valid, invalid,
/// error.
pub open spec fn spec_validation_report(
    results: Seq<ValidationResultView>,
    source: Seq<char>,
    date: Seq<char>,
) -> Seq<char> {
    "# Feed Validation Report\n\n"@ + "Generated on: "@ + date + "\n\n"@ + "Source OPML: "@
        + source + "\n\n"@ + "## Summary\n\n"@ + "- Total feeds checked: "@ + spec_decimal(
        results.len(),
    ) + "\n"@ + spec_status_count_lines(spec_status_counts(results)) + "\n"@
        + spec_status_section(results, "valid"@, "Valid"@) + spec_status_section(
        results,
        "invalid"@,
        "Invalid"@,
    ) + spec_status_section(results, "error"@, "Error"@)
}

#[verifier::loop_isolation(false)]
fn push_status_section(out: &mut String, results: &Vec<ValidationResult>, status: &str, heading: &str)
    ensures
        final(out)@ == old(out)@ + spec_status_section(results_view(results@), status@, heading@),
{
    let ghost rv = results_view(results@);
    proof {
        assert(rv.len() == results@.len());
    }
    let n = results.len();
    // Is any result tagged with this status?
    let mut found = false;
    let mut i: usize = 0;
    while i < n
        invariant
            0 <= i <= n,
            found == exists|t: int| 0 <= t < i && (#[trigger] rv[t]).status == status@,
        decreases n - i,
    {
        proof {
            assert(rv[i as int] == results@[i as int]@);
        }
        if str_eq(results[i].status.as_str(), status) {
            found = true;
        }
        i = i + 1;
    }
    assert(found == spec_has_status(rv, status@));
    if !found {
        return ;
    }
    out.append("## ");
    out.append(heading);
    out.append(" Feeds\n\n");
    out.append("| Feed | URL | Error | Categories |\n");
    out.append("|------|-----|-------|------------|\n");
    let ghost header_part = out@;
    proof {
        assert(out@ =~= header_part + spec_status_rows(rv.take(0), status@));
    }
    let mut i: usize = 0;
    while i < n
        invariant
            0 <= i <= n,
            out@ == header_part + spec_status_rows(rv.take(i as int), status@),
        decreases n - i,
    {
        proof {
            assert(rv[i as int] == results@[i as int]@);
            assert(rv.take(i + 1).drop_last() =~= rv.take(i as int));
        }
        if str_eq(results[i].status.as_str(), status) {
            out.append("| ");
            out.append(results[i].feed.as_str());
            out.append(" | ");
            out.append(results[i].url.as_str());
            out.append(" | ");
            let err = escape_pipes(results[i].error.as_str());
            out.append(err.as_str());
            out.append(" | ");
            let cats = join_strings(&results[i].categories, " > ");
            out.append(cats.as_str());
            out.append(" |\n");
        }
        proof {
            assert(out@ =~= header_part + spec_status_rows(rv.take(i + 1), status@));
        }
        i = i + 1;
    }
    out.append("\n");
    proof {
        assert(rv.take(n as int) =~= rv);
        assert(out@ =~= old(out)@ + spec_status_section(rv, status@, heading@));
    }
}

/// Renders the validation report for a batch of results, with the given
/// generation date.
#[verifier::loop_isolation(false)]
pub fn format_validation_report_with_date(
    results: &Vec<ValidationResult>,
    source: &str,
    date: &str,
) -> (r: String)
    ensures
        r@ == spec_validation_report(results_view(results@), source@, date@),
{
    let ghost rv = results_view(results@);
    proof {
        assert(rv.len() == results@.len());
    }
    let mut out = String::from_str("# Feed Validation Report\n\n");
    out.append("Generated on: ");
    out.append(date);
    out.append("\n\n");
    out.append("Source OPML: ");
    out.append(source);
    out.append("\n\n");
    out.append("## Summary\n\n");
    out.append("- Total feeds checked: ");
    let total = usize_to_string(results.len());
    out.append(total.as_str());
    out.append("\n");
    let ghost head_part = out@;
    // Count the results per status.
    let mut counts: Vec<(String, usize)> = Vec::new();
    proof {
        assert(counts_view(counts@) =~= spec_status_counts(rv.take(0)));
    }
    let n = results.len();
    let mut i: usize = 0;
    while i < n
        invariant
            0 <= i <= n,
            counts_view(counts@) == spec_status_counts(rv.take(i as int)),
            forall|t: int| 0 <= t < counts@.len() ==> (#[trigger] counts@[t]).1 <= i,
        decreases n - i,
    {
        proof {
            assert(rv[i as int] == results@[i as int]@);
            assert(rv.take(i + 1).drop_last() =~= rv.take(i as int));
            lemma_bump_bound(counts_view(counts@), rv[i as int].status, i as int);
        }
        bump_count(&mut counts, &results[i].status);
        proof {
            assert(counts_view(counts@) =~= spec_status_counts(rv.take(i + 1)));
            assert forall|t: int| 0 <= t < counts@.len() implies (#[trigger] counts@[t]).1 <= i
                + 1 by {
                assert(counts_view(counts@)[t] == (counts@[t].0@, counts@[t].1 as int));
            }
        }
        i = i + 1;
    }
    proof {
        assert(rv.take(n as int) =~= rv);
    }
    // One line per status.
    let ghost cv = counts_view(counts@);
    proof {
        assert(cv.len() == counts@.len());
        assert(out@ =~= head_part + spec_status_count_lines(cv.take(0)));
    }
    let m = counts.len();
    let mut j: usize = 0;
    while j < m
        invariant
            0 <= j <= m,
            out@ == head_part + spec_status_count_lines(cv.take(j as int)),
        decreases m - j,
    {
        proof {
            assert(cv[j as int] == (counts@[j as int].0@, counts@[j as int].1 as int));
            assert(cv.take(j + 1).drop_last() =~= cv.take(j as int));
        }
        out.append("- ");
        out.append(counts[j].0.as_str());
        out.append(": ");
        let digits = usize_to_string(counts[j].1);
        out.append(digits.as_str());
        out.append("\n");
        proof {
            assert(out@ =~= head_part + spec_status_count_lines(cv.take(j + 1)));
        }
        j = j + 1;
    }
    proof {
        assert(cv.take(m as int) =~= cv);
    }
    out.append("\n");
    push_status_section(&mut out, results, "valid", "Valid");
    push_status_section(&mut out, results, "invalid", "Invalid");
    push_status_section(&mut out, results, "error", "Error");
    proof {
        assert(out@ =~= spec_validation_report(rv, source@, date@));
    }
    out
}

/// Renders the validation report for a batch of results, dated now.
pub fn format_validation_report(results: &Vec<ValidationResult>, source: &str) -> (r: String)
    ensures
        exists|date: Seq<char>|
            r@ == spec_validation_report(results_view(results@), source@, date),
{
    let date = crate::clock::now_report_date();
    let r = format_validation_report_with_date(results, source, date.as_str());
    proof {
        assert(r@ == spec_validation_report(results_view(results@), source@, date@));
    }
    r
}

} // verus!
