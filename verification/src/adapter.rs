//! Which server is watched, when it is asked next, and what its answers add up to.
use crate::double::Double;
use crate::json::{json_document, Json, JsonTree, DOCUMENT_LIMIT};
use crate::kobold::{kobold_reading, parse_kobold, rate};
use crate::llama::{
    gauges, merge_llama_metrics, parse_llama_slots, slots_reading, with_metrics, LlamaMetrics,
};
use crate::providers::{canonical, canonical_provider, either, RequestUsage, UsageModel};
use crate::telemetry::{LlmTelemetry, TelemetryModel, TelemetrySource};
use crate::text::{
    all_digits, characters, decimal, digits_value, is_digit, push_decimal, same_optional,
    same_text,
};
use crate::time::{Moment, Timestamp, SECOND};
use crate::usage_file::{file_reading, read_usage_file, UsageFile};
use vstd::prelude::*;
use vstd::utf8::encode_utf8;

verus! {

/// The longest pause between two attempts, in seconds.
pub const MAX_BACKOFF: u64 = 30;

/// The state of watching one server.
#[derive(Debug)]
pub struct Adapter {
    /// The provider that the operator asked for.
    pub configured: Option<String>,
    /// Whether there is a usage file.
    pub usage_file: bool,
    /// The provider that is watched, by its canonical name.
    pub selected: Option<String>,
    /// The port that the operator asked for.
    pub port: Option<u16>,
    /// The last answer.
    pub cached: Option<LlmTelemetry>,
    /// When the server is asked next.
    pub next_poll: Moment,
    /// The pause after an attempt, in seconds.
    pub backoff: u64,
    /// How long the KoboldCpp server had been up when it last said so.
    pub kobold_uptime: Option<Double>,
    /// Counts the runs of the KoboldCpp server that were told apart.
    pub kobold_session: u64,
}

/// The content of an [`Adapter`].
#[verifier::ext_equal]
pub struct AdapterModel {
    pub configured: Option<Seq<char>>,
    pub usage_file: bool,
    pub selected: Option<Seq<char>>,
    pub port: Option<u16>,
    pub cached: Option<TelemetryModel>,
    pub next_poll: Moment,
    pub backoff: u64,
    pub kobold_uptime: Option<Double>,
    pub kobold_session: u64,
}

impl DeepView for Adapter {
    type V = AdapterModel;

    open spec fn deep_view(&self) -> AdapterModel {
        AdapterModel {
            configured: self.configured.deep_view(),
            usage_file: self.usage_file,
            selected: self.selected.deep_view(),
            port: self.port,
            cached: self.cached.deep_view(),
            next_poll: self.next_poll,
            backoff: self.backoff,
            kobold_uptime: self.kobold_uptime,
            kobold_session: self.kobold_session,
        }
    }
}

/// What the server answered. An answer that did not come is `None`.
#[derive(Debug)]
pub struct Replies {
    /// The body of KoboldCpp's performance endpoint.
    pub perf: Option<String>,
    /// The body of llama.cpp's slots endpoint.
    pub slots: Option<String>,
    /// The body of llama.cpp's metrics endpoint.
    pub metrics: Option<String>,
}

/// The content of [`Replies`].
#[verifier::ext_equal]
pub struct RepliesModel {
    pub perf: Option<Seq<char>>,
    pub slots: Option<Seq<char>>,
    pub metrics: Option<Seq<char>>,
}

impl DeepView for Replies {
    type V = RepliesModel;

    open spec fn deep_view(&self) -> RepliesModel {
        RepliesModel {
            perf: self.perf.deep_view(),
            slots: self.slots.deep_view(),
            metrics: self.metrics.deep_view(),
        }
    }
}

/// The server to ask.
#[derive(Clone, Copy, Debug, PartialEq, Eq, Structural)]
pub enum Endpoint {
    Nothing,
    Kobold,
    Llama,
}

/// What to ask a server on this machine for.
#[derive(Clone, Copy, Debug)]
pub struct Query {
    pub port: u16,
    pub path: &'static str,
}

/// The content of a [`Query`].
pub struct QueryModel {
    pub port: u16,
    pub path: Seq<char>,
}

impl DeepView for Query {
    type V = QueryModel;

    open spec fn deep_view(&self) -> QueryModel {
        QueryModel { port: self.port, path: self.path@ }
    }
}

/// What a server answered.
#[derive(Debug)]
pub struct Answer {
    pub status: u16,
    pub body: String,
}

/// The port on which a KoboldCpp server listens.
pub const KOBOLD_PORT: u16 = 5001;

/// The port on which a llama.cpp server listens.
pub const LLAMA_PORT: u16 = 8080;

/// The port to ask: the one that the operator asked for, or the server's own.
pub open spec fn port_asked(configured: Option<u16>, own: u16) -> u16 {
    match configured {
        Some(port) => port,
        None => own,
    }
}

/// What to ask a server for, in this order.
pub open spec fn queries_of(endpoint: Endpoint, port: Option<u16>) -> Seq<QueryModel> {
    match endpoint {
        Endpoint::Nothing => Seq::empty(),
        Endpoint::Kobold => seq![
            QueryModel { port: port_asked(port, KOBOLD_PORT), path: "/api/extra/perf"@ },
        ],
        Endpoint::Llama => seq![
            QueryModel { port: port_asked(port, LLAMA_PORT), path: "/slots"@ },
            QueryModel { port: port_asked(port, LLAMA_PORT), path: "/metrics"@ },
        ],
    }
}

/// The body of one of some answers, which is kept only of a success.
pub open spec fn body_at(answers: Seq<Option<Answer>>, i: int) -> Option<Seq<char>> {
    if 0 <= i < answers.len() {
        match answers[i] {
            Some(answer) => if answer.status == 200 {
                Some(answer.body@)
            } else {
                None
            },
            None => None,
        }
    } else {
        None
    }
}

/// The answers to what a server was asked for, in the order of the asking, sorted by what
/// they answer.
pub open spec fn sorted_replies(endpoint: Endpoint, answers: Seq<Option<Answer>>) -> RepliesModel {
    match endpoint {
        Endpoint::Nothing => RepliesModel { perf: None, slots: None, metrics: None },
        Endpoint::Kobold => RepliesModel {
            perf: body_at(answers, 0),
            slots: None,
            metrics: None,
        },
        Endpoint::Llama => RepliesModel {
            perf: None,
            slots: body_at(answers, 0),
            metrics: body_at(answers, 1),
        },
    }
}

/// Takes the body out of one of some answers.
fn take_body(answers: &Vec<Option<Answer>>, i: usize) -> (r: Option<String>)
    ensures
        r.deep_view() == body_at(answers@, i as int),
{
    if i < answers.len() {
        match &answers[i] {
            Some(answer) => if answer.status == 200 {
                Some(answer.body.clone())
            } else {
                None
            },
            None => None,
        }
    } else {
        None
    }
}

impl Endpoint {
    /// Sorts the answers to what this server was asked for, in the order of the asking.
    pub fn replies(&self, answers: &Vec<Option<Answer>>) -> (r: Replies)
        ensures
            r.deep_view() == sorted_replies(*self, answers@),
    {
        match self {
            Endpoint::Nothing => Replies { perf: None, slots: None, metrics: None },
            Endpoint::Kobold => Replies {
                perf: take_body(answers, 0),
                slots: None,
                metrics: None,
            },
            Endpoint::Llama => Replies {
                perf: None,
                slots: take_body(answers, 0),
                metrics: take_body(answers, 1),
            },
        }
    }
}

/// The port that a text names: decimal digits, perhaps after a plus sign, of a
/// number that is a port and not zero.
pub open spec fn port_number(s: Seq<char>) -> Option<u16> {
    let digits = if s.len() > 0 && s[0] == '+' {
        s.drop_first()
    } else {
        s
    };
    if digits.len() > 0 && all_digits(digits) && 0 < digits_value(digits) <= u16::MAX {
        Some(digits_value(digits) as u16)
    } else {
        None
    }
}

proof fn lemma_prefix_value(s: Seq<char>, n: int)
    requires
        0 <= n <= s.len(),
    ensures
        digits_value(s.take(n)) <= digits_value(s),
    decreases s.len(),
{
    if n == s.len() {
        assert(s.take(n) =~= s);
    } else {
        lemma_prefix_value(s.drop_last(), n);
        assert(s.drop_last().take(n) =~= s.take(n));
    }
}

fn digit_of(c: char) -> (r: Option<u32>)
    ensures
        match r {
            Some(d) => is_digit(c) && d == c as nat - 48 && d < 10,
            None => !is_digit(c),
        },
{
    let code = c as u32;
    if 48 <= code && code <= 57 {
        Some(code - 48)
    } else {
        None
    }
}

/// The port that a text names.
pub fn parse_port(text: &str) -> (r: Option<u16>)
    ensures
        r == port_number(text@),
{
    let letters = characters(text);
    let from: usize = if letters.len() > 0 && letters[0] == '+' {
        1
    } else {
        0
    };
    let ghost digits = letters@.skip(from as int);
    proof {
        assert(letters@.skip(0) =~= letters@);
        assert(letters@.len() > 0 ==> letters@.skip(1) =~= letters@.drop_first());
    }
    let mut value: u32 = 0;
    let mut i = from;
    assert(digits.take(0) =~= Seq::empty());
    while i < letters.len()
        invariant
            from <= i <= letters@.len(),
            digits == letters@.skip(from as int),
            letters@ == text@,
            digits.len() == letters@.len() - from,
            port_number(text@) == (if digits.len() > 0 && all_digits(digits) && 0 < digits_value(
                digits,
            ) <= u16::MAX {
                Some(digits_value(digits) as u16)
            } else {
                None
            }),
            value == digits_value(digits.take(i - from)),
            value <= u16::MAX,
            all_digits(digits.take(i - from)),
        decreases letters@.len() - i,
    {
        let ghost n = i - from;
        proof {
            assert(digits.take(n + 1).drop_last() =~= digits.take(n));
            assert(digits[n] == letters@[i as int]);
        }
        match digit_of(letters[i]) {
            Some(d) => {
                value = value * 10 + d;
            },
            None => {
                assert(!is_digit(digits[n]));
                return None;
            },
        }
        proof {
            assert(digits.take(n + 1).last() == digits[n]);
            assert(value == digits_value(digits.take(n + 1)));
            lemma_prefix_value(digits, n + 1);
            assert forall|k: int| 0 <= k < n + 1 implies is_digit(
                #[trigger] digits.take(n + 1)[k],
            ) by {
                if k < n {
                    assert(digits.take(n)[k] == digits.take(n + 1)[k]);
                }
            }
        }
        if value > 65535 {
            return None;
        }
        i += 1;
    }
    assert(digits.take(digits.len() as int) =~= digits);
    if from < letters.len() && value > 0 {
        Some(value as u16)
    } else {
        None
    }
}

/// The provider to watch: the configured one before the detected one, by its
/// canonical name.
pub open spec fn choice(configured: Option<Seq<char>>, detected: Option<Seq<char>>) -> Option<
    Seq<char>,
> {
    match either(configured, detected) {
        Some(name) => Some(
            match canonical(name) {
                Some(name) => name,
                None => "unsupported"@,
            },
        ),
        None => None,
    }
}

/// A counter plus one, as far as it goes.
pub open spec fn next_count(n: u64) -> u64 {
    if n < u64::MAX {
        (n + 1) as u64
    } else {
        n
    }
}

/// The identifier of a KoboldCpp generation within one run of the server.
pub open spec fn session_id(session: u64, id: Seq<char>) -> Seq<char> {
    "session-"@ + decimal(session as nat) + "-"@ + id
}

/// The requests of one run of the server.
pub open spec fn session_requests(session: u64, requests: Seq<UsageModel>) -> Seq<UsageModel> {
    Seq::new(
        requests.len(),
        |i: int| UsageModel { id: session_id(session, requests[i].id), ..requests[i] },
    )
}

/// The document that a body holds.
pub open spec fn body_document(body: Option<Seq<char>>) -> Option<JsonTree> {
    match body {
        Some(body) => json_document(encode_utf8(body)),
        None => None,
    }
}

/// Whether a body is not too long to be read.
pub open spec fn readable(body: Option<Seq<char>>) -> bool {
    match body {
        Some(body) => encode_utf8(body).len() <= DOCUMENT_LIMIT,
        None => true,
    }
}

/// Whether what was read of the usage file is not too long.
pub open spec fn readable_file(file: Option<&UsageFile>) -> bool {
    match file {
        Some(file) => file.bytes@.len() <= DOCUMENT_LIMIT,
        None => true,
    }
}

/// The identifier of the first request, if there is one.
pub open spec fn first_id(requests: Seq<UsageModel>) -> Option<Seq<char>> {
    if requests.len() > 0 {
        Some(requests[0].id)
    } else {
        None
    }
}

/// An answer next to the one before it: a generation that was known already keeps
/// the time at which it was first seen.
pub open spec fn aged(result: TelemetryModel, previous: Option<TelemetryModel>) -> TelemetryModel {
    match previous {
        Some(previous) => if result.provider == Some("KoboldCpp"@) && first_id(result.requests)
            == first_id(previous.requests) {
            TelemetryModel { observed_at: previous.observed_at, ..result }
        } else {
            result
        },
        None => result,
    }
}

/// A live reading and what clients reported, put together. Reported requests join
/// the history of a live reading; its own counters stay as they are.
pub open spec fn combined(
    native: Option<TelemetryModel>,
    reported: Option<TelemetryModel>,
) -> Option<TelemetryModel> {
    match (native, reported) {
        (Some(native), Some(reported)) => if native.source == TelemetrySource::Live {
            Some(TelemetryModel { requests: native.requests + reported.requests, ..native })
        } else {
            Some(reported)
        },
        (native, reported) => either(reported, native),
    }
}

/// The state of a watcher that has seen nothing yet.
pub open spec fn new_adapter(
    configured: Option<Seq<char>>,
    usage_file: bool,
    port: Option<Seq<char>>,
    now: Moment,
) -> AdapterModel {
    AdapterModel {
        configured,
        usage_file,
        selected: None,
        port: match port {
            Some(text) => port_number(text),
            None => None,
        },
        cached: None,
        next_poll: now,
        backoff: 1,
        kobold_uptime: None,
        kobold_session: 0,
    }
}

impl Adapter {
    /// The pause is between one second and its maximum, and an uptime is a number.
    pub open spec fn wf(&self) -> bool {
        &&& 1 <= self.backoff <= MAX_BACKOFF
        &&& self.kobold_uptime matches Some(uptime) ==> uptime.usable()
    }

    /// A watcher that has seen nothing yet, from what the environment asks for.
    pub fn new(
        configured: Option<String>,
        usage_file: bool,
        port: Option<&str>,
        now: Moment,
    ) -> (r: Adapter)
        ensures
            r.wf(),
            r.deep_view() == new_adapter(
                configured.deep_view(),
                usage_file,
                port.deep_view(),
                now,
            ),
    {
        Adapter {
            configured,
            usage_file,
            selected: None,
            port: match port {
                Some(text) => parse_port(text),
                None => None,
            },
            cached: None,
            next_poll: now,
            backoff: 1,
            kobold_uptime: None,
            kobold_session: 0,
        }
    }

    /// Chooses the provider to watch, and tells whether this adapter is the one to
    /// ask. Another choice than before drops everything that was known.
    pub fn selected(&mut self, detected: Option<&str>, now: Moment) -> (r: bool)
        requires
            old(self).wf(),
        ensures
            final(self).wf(),
            final(self).deep_view() == old(self).deep_view().after_selection(
                detected.deep_view(),
                now,
            ),
            r == final(self).deep_view().wanted(),
    {
        let name: Option<&str> = match &self.configured {
            Some(name) => Some(name.as_str()),
            None => detected,
        };
        let chosen: Option<String> = match name {
            Some(name) => match canonical_provider(name) {
                Some(name) => Some(name.to_owned()),
                None => Some("unsupported".to_owned()),
            },
            None => None,
        };
        if !same_optional(&chosen, &self.selected) {
            self.selected = chosen;
            self.cached = None;
            self.next_poll = now;
            self.backoff = 1;
            self.kobold_uptime = None;
            self.kobold_session = self.kobold_session.saturating_add(1);
        }
        self.usage_file || match &self.selected {
            Some(name) => !same_text(name.as_str(), "oMLX"),
            None => false,
        }
    }
}

impl AdapterModel {
    /// The state after choosing the provider to watch. Another choice than before drops
    /// everything that was known.
    pub open spec fn after_selection(
        self,
        detected: Option<Seq<char>>,
        now: Moment,
    ) -> AdapterModel {
        let chosen = choice(self.configured, detected);
        if chosen == self.selected {
            self
        } else {
            AdapterModel {
                selected: chosen,
                cached: None,
                next_poll: now,
                backoff: 1,
                kobold_uptime: None,
                kobold_session: next_count(self.kobold_session),
                ..self
            }
        }
    }

    /// Whether this adapter is the one to ask: there is a usage file, or the provider is
    /// one other than oMLX, which is watched elsewhere.
    pub open spec fn wanted(self) -> bool {
        self.usage_file || match self.selected {
            Some(name) => name != "oMLX"@,
            None => false,
        }
    }

    /// The server to ask at the time `now`.
    pub open spec fn endpoint(self, now: Moment) -> Endpoint {
        if now.nanos < self.next_poll.nanos {
            Endpoint::Nothing
        } else if self.selected == Some("KoboldCpp"@) {
            Endpoint::Kobold
        } else if self.selected == Some("llama.cpp"@) {
            Endpoint::Llama
        } else {
            Endpoint::Nothing
        }
    }

    /// The number of the run that a KoboldCpp answer comes from: an uptime below
    /// the one before shows a restart.
    pub open spec fn session_of(self, perf: JsonTree) -> u64 {
        match (perf.rate("uptime"@), self.kobold_uptime) {
            (Some(now), Some(before)) => if now.below(before) {
                next_count(self.kobold_session)
            } else {
                self.kobold_session
            },
            _ => self.kobold_session,
        }
    }

    /// The state after a KoboldCpp answer.
    pub open spec fn after_kobold(self, perf: JsonTree) -> AdapterModel {
        if perf.counter("total_gens"@) is Some {
            AdapterModel {
                kobold_session: self.session_of(perf),
                kobold_uptime: either(perf.rate("uptime"@), self.kobold_uptime),
                ..self
            }
        } else {
            self
        }
    }

    /// What a KoboldCpp answer says, with identifiers that tell the server's runs
    /// apart.
    pub open spec fn kobold_result(self, perf: JsonTree, now: Timestamp) -> Option<TelemetryModel> {
        match kobold_reading(perf, now) {
            Some(reading) => Some(
                TelemetryModel {
                    requests: session_requests(self.session_of(perf), reading.requests),
                    ..reading
                },
            ),
            None => None,
        }
    }

    /// What the answers say to this adapter.
    pub open spec fn result(
        self,
        perf: Option<JsonTree>,
        slots: Option<JsonTree>,
        metrics: Option<LlamaMetrics>,
        now: Timestamp,
    ) -> Option<TelemetryModel> {
        if self.selected == Some("KoboldCpp"@) {
            match perf {
                Some(perf) => self.kobold_result(perf, now),
                None => None,
            }
        } else if self.selected == Some("llama.cpp"@) {
            with_metrics(
                match slots {
                    Some(slots) => slots_reading(slots, now),
                    None => None,
                },
                metrics,
                now,
            )
        } else {
            None
        }
    }

    /// The state after an attempt at the time `now`: an answer is kept and the
    /// next attempt is due in a second; without one the pause doubles.
    pub open spec fn after_attempt(
        self,
        result: Option<TelemetryModel>,
        now: Moment,
    ) -> AdapterModel {
        let pause: u64 = match result {
            Some(_) => 1,
            None => if self.backoff * 2 < MAX_BACKOFF {
                (self.backoff * 2) as u64
            } else {
                MAX_BACKOFF
            },
        };
        AdapterModel {
            cached: match result {
                Some(result) => Some(aged(result, self.cached)),
                None => self.cached,
            },
            backoff: pause,
            next_poll: Moment { nanos: (now.nanos + pause * SECOND) as u64 },
            ..self
        }
    }

    /// The state after a poll.
    pub open spec fn after_poll(
        self,
        now: Moment,
        clock: Timestamp,
        perf: Option<JsonTree>,
        slots: Option<JsonTree>,
        metrics: Option<LlamaMetrics>,
    ) -> AdapterModel {
        if now.nanos < self.next_poll.nanos {
            self
        } else {
            let told = match perf {
                Some(perf) => if self.selected == Some("KoboldCpp"@) {
                    self.after_kobold(perf)
                } else {
                    self
                },
                None => self,
            };
            told.after_attempt(self.result(perf, slots, metrics, clock), now)
        }
    }

    /// The state after a KoboldCpp server was asked.
    pub open spec fn after_perf(self, body: Option<Seq<char>>) -> AdapterModel {
        match body_document(body) {
            Some(perf) => self.after_kobold(perf),
            None => self,
        }
    }

    /// What a KoboldCpp server that was asked says.
    pub open spec fn perf_result(self, body: Option<Seq<char>>, now: Timestamp) -> Option<
        TelemetryModel,
    > {
        match body_document(body) {
            Some(perf) => self.kobold_result(perf, now),
            None => None,
        }
    }

    /// The state after a poll with these replies.
    pub open spec fn after_replies(
        self,
        now: Moment,
        clock: Timestamp,
        replies: RepliesModel,
    ) -> AdapterModel {
        self.after_poll(
            now,
            clock,
            body_document(replies.perf),
            body_document(replies.slots),
            gauges(replies.metrics),
        )
    }

    /// What is known together with what the usage file says.
    pub open spec fn with_usage(
        self,
        file: Option<(Seq<u8>, bool)>,
        now: Timestamp,
    ) -> Option<TelemetryModel> {
        combined(
            self.cached,
            match file {
                Some((bytes, partial)) => if self.usage_file {
                    file_reading(bytes, partial, self.selected, now)
                } else {
                    None
                },
                None => None,
            },
        )
    }
}

/// What a llama.cpp server that was asked says.
pub open spec fn llama_result(
    slots: Option<Seq<char>>,
    metrics: Option<Seq<char>>,
    now: Timestamp,
) -> Option<TelemetryModel> {
    with_metrics(
        match body_document(slots) {
            Some(slots) => slots_reading(slots, now),
            None => None,
        },
        gauges(metrics),
        now,
    )
}

/// The content of what was read of the usage file.
pub open spec fn file_content(file: Option<&UsageFile>) -> Option<(Seq<u8>, bool)> {
    match file {
        Some(file) => Some((file.bytes@, file.partial)),
        None => None,
    }
}

fn is_selected(selected: &Option<String>, name: &str) -> (r: bool)
    ensures
        r == (selected.deep_view() == Some(name@)),
{
    match selected {
        Some(selected) => same_text(selected.as_str(), name),
        None => false,
    }
}

fn parse_body(body: &Option<String>) -> (r: Option<Json>)
    requires
        readable(body.deep_view()),
    ensures
        match r {
            Some(json) => body_document(body.deep_view()) == Some(json.tree()),
            None => body_document(body.deep_view()) is None,
        },
{
    match body {
        Some(body) => Json::parse(body.as_str().as_bytes()),
        None => None,
    }
}

fn same_first(a: &Vec<RequestUsage>, b: &Vec<RequestUsage>) -> (r: bool)
    ensures
        r == (first_id(a.deep_view()) == first_id(b.deep_view())),
{
    if a.len() > 0 && b.len() > 0 {
        assert(a.deep_view()[0] == a@[0].deep_view());
        assert(b.deep_view()[0] == b@[0].deep_view());
        a[0].id == b[0].id
    } else {
        a.len() == 0 && b.len() == 0
    }
}

impl Adapter {
    /// The server to ask at the time `now`.
    pub fn endpoint(&self, now: Moment) -> (r: Endpoint)
        ensures
            r == self.deep_view().endpoint(now),
    {
        if now.nanos < self.next_poll.nanos {
            Endpoint::Nothing
        } else if is_selected(&self.selected, "KoboldCpp") {
            Endpoint::Kobold
        } else if is_selected(&self.selected, "llama.cpp") {
            Endpoint::Llama
        } else {
            Endpoint::Nothing
        }
    }

    fn port_or(&self, own: u16) -> (r: u16)
        ensures
            r == port_asked(self.port, own),
    {
        match self.port {
            Some(port) => port,
            None => own,
        }
    }

    /// What to ask the server for at the time `now`, in this order.
    pub fn queries(&self, now: Moment) -> (r: Vec<Query>)
        ensures
            r.deep_view() == queries_of(self.deep_view().endpoint(now), self.port),
    {
        let endpoint = self.endpoint(now);
        let mut out: Vec<Query> = Vec::new();
        match endpoint {
            Endpoint::Nothing => {},
            Endpoint::Kobold => {
                out.push(Query { port: self.port_or(KOBOLD_PORT), path: "/api/extra/perf" });
            },
            Endpoint::Llama => {
                out.push(Query { port: self.port_or(LLAMA_PORT), path: "/slots" });
                out.push(Query { port: self.port_or(LLAMA_PORT), path: "/metrics" });
            },
        }
        assert(out.deep_view() =~= queries_of(endpoint, self.port));
        out
    }

    /// Takes in a KoboldCpp answer.
    pub fn kobold_result(&mut self, perf: &Json, now: Timestamp) -> (r: Option<LlmTelemetry>)
        requires
            old(self).wf(),
        ensures
            final(self).wf(),
            final(self).deep_view() == old(self).deep_view().after_kobold(perf.tree()),
            r.deep_view() == old(self).deep_view().kobold_result(perf.tree(), now),
    {
        let mut result = match parse_kobold(perf, now) {
            Some(result) => result,
            None => return None,
        };
        let uptime = rate(perf, "uptime");
        if let Some(now) = uptime {
            if let Some(before) = self.kobold_uptime {
                if now.is_below(&before) {
                    self.kobold_session = self.kobold_session.saturating_add(1);
                }
            }
        }
        if uptime.is_some() {
            self.kobold_uptime = uptime;
        }
        let session = self.kobold_session;
        let ghost plain = result.requests.deep_view();
        let mut requests: Vec<RequestUsage> = Vec::new();
        let mut i: usize = 0;
        while i < result.requests.len()
            invariant
                i <= result.requests@.len(),
                plain == result.requests.deep_view(),
                requests@.len() == i,
                forall|k: int|
                    0 <= k < i ==> (#[trigger] requests@[k]).deep_view() == session_requests(
                        session,
                        plain,
                    )[k],
            decreases result.requests@.len() - i,
        {
            let mut id = "session-".to_owned();
            push_decimal(&mut id, session);
            id.append("-");
            id.append(result.requests[i].id.as_str());
            let mut request = result.requests[i].clone();
            request.id = id;
            assert(plain[i as int] == result.requests@[i as int].deep_view());
            requests.push(request);
            i += 1;
        }
        result.requests = requests;
        assert(result.requests.deep_view() =~= session_requests(session, plain));
        Some(result)
    }

    /// Reads the answer of a KoboldCpp server.
    pub fn poll_kobold(&mut self, perf: &Option<String>, now: Timestamp) -> (r: Option<
        LlmTelemetry,
    >)
        requires
            old(self).wf(),
            readable(perf.deep_view()),
        ensures
            final(self).wf(),
            final(self).deep_view() == old(self).deep_view().after_perf(perf.deep_view()),
            r.deep_view() == old(self).deep_view().perf_result(perf.deep_view(), now),
    {
        match parse_body(perf) {
            Some(perf) => self.kobold_result(&perf, now),
            None => None,
        }
    }

    /// Reads the answers of a llama.cpp server. Either of its endpoints may be switched
    /// off.
    pub fn poll_llama(
        &self,
        slots: &Option<String>,
        metrics: &Option<String>,
        now: Timestamp,
    ) -> (r: Option<LlmTelemetry>)
        requires
            readable(slots.deep_view()),
        ensures
            r.deep_view() == llama_result(slots.deep_view(), metrics.deep_view(), now),
    {
        let slots = match parse_body(slots) {
            Some(json) => parse_llama_slots(&json, now),
            None => None,
        };
        let metrics = match metrics {
            Some(text) => Some(text.as_str()),
            None => None,
        };
        merge_llama_metrics(slots, metrics, now)
    }

    /// What is known together with what the usage file says.
    pub fn with_usage(&self, file: Option<&UsageFile>, now: Timestamp) -> (r: Option<LlmTelemetry>)
        requires
            readable_file(file),
        ensures
            r.deep_view() == self.deep_view().with_usage(file_content(file), now),
    {
        let reported = match file {
            Some(file) => if self.usage_file {
                read_usage_file(file, &self.selected, now)
            } else {
                None
            },
            None => None,
        };
        let native = match &self.cached {
            Some(cached) => Some(cached.clone()),
            None => None,
        };
        match (native, reported) {
            (Some(native), Some(reported)) => {
                if native.source == TelemetrySource::Live {
                    let ghost a = native.deep_view().requests;
                    let ghost b = reported.deep_view().requests;
                    let mut native = native;
                    let mut added = reported.requests;
                    native.requests.append(&mut added);
                    assert(native.requests.deep_view() =~= a + b);
                    Some(native)
                } else {
                    Some(reported)
                }
            },
            (native, reported) => match reported {
                Some(reported) => Some(reported),
                None => native,
            },
        }
    }

    /// Keeps the outcome of an attempt made at the time `now`, and sets when the next
    /// one is due.
    pub fn settle(&mut self, result: Option<LlmTelemetry>, now: Moment)
        requires
            old(self).wf(),
            now.nanos + MAX_BACKOFF * SECOND <= u64::MAX,
        ensures
            final(self).wf(),
            final(self).deep_view() == old(self).deep_view().after_attempt(result.deep_view(), now),
    {
        match result {
            Some(result) => {
                let mut result = result;
                if is_selected(&result.provider, "KoboldCpp") {
                    if let Some(previous) = &self.cached {
                        if same_first(&result.requests, &previous.requests) {
                            result.observed_at = previous.observed_at;
                        }
                    }
                }
                self.cached = Some(result);
                self.backoff = 1;
            },
            None => {
                self.backoff = if self.backoff * 2 < MAX_BACKOFF {
                    self.backoff * 2
                } else {
                    MAX_BACKOFF
                };
            },
        }
        self.next_poll = Moment { nanos: now.nanos + self.backoff * SECOND };
    }

    /// Takes in what the server answered by `now`, and gives what is known with
    /// what the usage file says. Before the next attempt is due, the answers play
    /// no part.
    pub fn poll(
        &mut self,
        now: Moment,
        clock: Timestamp,
        replies: &Replies,
        file: Option<&UsageFile>,
    ) -> (r: Option<LlmTelemetry>)
        requires
            old(self).wf(),
            now.nanos + MAX_BACKOFF * SECOND <= u64::MAX,
            readable(replies.perf.deep_view()),
            readable(replies.slots.deep_view()),
            readable_file(file),
        ensures
            final(self).wf(),
            final(self).deep_view() == old(self).deep_view().after_replies(
                now,
                clock,
                replies.deep_view(),
            ),
            r.deep_view() == final(self).deep_view().with_usage(file_content(file), clock),
    {
        if now.nanos < self.next_poll.nanos {
            return self.with_usage(file, clock);
        }
        let result = if is_selected(&self.selected, "KoboldCpp") {
            self.poll_kobold(&replies.perf, clock)
        } else if is_selected(&self.selected, "llama.cpp") {
            self.poll_llama(&replies.slots, &replies.metrics, clock)
        } else {
            None
        };
        self.settle(result, now);
        self.with_usage(file, clock)
    }
}

} // verus!
