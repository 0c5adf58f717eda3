//! The output component's decisions: how received logs are cached, when a
//! batch is sent to Elasticsearch, what the bulk request body holds, and what
//! is dropped from the cache after a delivery.
use vstd::prelude::*;
use chrono::TimeZone;

verus! {

/// How the output component reaches Elasticsearch and batches logs.
#[derive(Clone)]
pub struct ElasticOuputConfig {
    /// Max. messages for each HTTP request
    pub commit_max_messages: usize,
    /// Room reserved up front for the cache of logs awaiting delivery
    pub cache_size: usize,
    /// Timeout for communication, in seconds, for each delivery
    pub commit_timeout: u64,
    /// Send logs every X milliseconds
    pub commit_time: u64,
    /// ElasticSearch URI where it's listening
    pub elastic_address: String,
    /// ElasticSearch Data Stream to send logs to
    pub elastic_stream: String,
    pub bearer_token: Option<String>,
}

impl ElasticOuputConfig {
    /// The address that batches are sent to: `{address}/{stream}/_bulk`.
    pub fn bulk_url(&self) -> (url: String)
        ensures
            url@ == self.elastic_address@ + "/"@ + self.elastic_stream@ + "/_bulk"@,
    {
        let mut url = self.elastic_address.clone();
        url.append("/");
        url.append(self.elastic_stream.as_str());
        url.append("/_bulk");
        url
    }

    /// The `Authorization` header sent with a batch: `Bearer {token}`, when
    /// there is a token.
    pub fn authorization(&self) -> (header: Option<String>)
        ensures
            match self.bearer_token {
                Some(t) => header matches Some(h) && h@ == "Bearer "@ + t@,
                None => header is None,
            },
    {
        match &self.bearer_token {
            Some(t) => {
                let mut h = String::from_str("Bearer ");
                h.append(t.as_str());
                Some(h)
            },
            None => None,
        }
    }
}

/// The text of `Utc.timestamp_millis(millis)` as `{:?}` prints it, when chrono
/// can represent that instant.
pub uninterp spec fn utc_debug_text(millis: i64) -> Option<Seq<char>>;

/// Calls `chrono::Utc.timestamp_millis_opt(millis)` and formats the instant
/// with `{:?}`. Claims only that the text is the one `utc_debug_text` names,
/// and none where chrono gives no single instant, where
/// `Utc.timestamp_millis` would panic; which instants those are is left unsaid.
#[verifier::external_body]
fn utc_millis_debug(millis: i64) -> (res: Option<String>)
    ensures
        match res {
            Some(s) => utc_debug_text(millis) == Some(s@),
            None => utc_debug_text(millis) is None,
        },
{
    match chrono::Utc.timestamp_millis_opt(millis) {
        chrono::MappedLocalTime::Single(t) => Some(format!("{:?}", t)),
        chrono::MappedLocalTime::Ambiguous(_, _) => None,
        chrono::MappedLocalTime::None => None,
    }
}

/// The `@timestamp` a log gets from its creation time in milliseconds; none
/// where chrono cannot represent the instant.
pub fn log_timestamp(created_millis: i64) -> (res: Option<String>)
    ensures
        match res {
            Some(s) => utc_debug_text(created_millis) == Some(s@),
            None => utc_debug_text(created_millis) is None,
        },
{
    utc_millis_debug(created_millis)
}

/// The option view of a cached log.
pub open spec fn entry_view(e: Option<String>) -> Option<Seq<char>> {
    match e {
        Some(s) => Some(s@),
        None => None,
    }
}

/// The lines a cached log adds to a bulk body: a create action, then the log.
/// A log that could not be serialized adds nothing.
pub open spec fn entry_text(e: Option<Seq<char>>) -> Seq<char> {
    match e {
        Some(j) => "{\"create\":{}}\n"@ + j + "\n"@,
        None => Seq::empty(),
    }
}

/// The bulk lines of `entries`, in order.
pub open spec fn batch_text(entries: Seq<Option<Seq<char>>>) -> Seq<char>
    decreases entries.len(),
{
    if entries.len() == 0 {
        Seq::empty()
    } else {
        batch_text(entries.drop_last()) + entry_text(entries.last())
    }
}

/// Where the output loop stands.
#[derive(Clone, Copy, Debug, PartialEq, Eq, Structural)]
pub enum OutputPhase {
    /// Taking messages from the component's own channel.
    Commands,
    /// Taking logs from the log channel; `count` logs taken so far.
    Logs { count: usize },
    /// A batch of the first `sent` cached logs is out; on success they are dropped.
    Delivering { sent: usize },
}

/// What the driver of the output loop observed.
pub enum OutputEvent {
    /// A stop command arrived on the component's channel.
    StopCommand,
    /// Some other message arrived on the component's channel.
    OtherMessage,
    /// A log arrived (on either channel), serialized with its `@timestamp`, or
    /// none when it could not be serialized; `overdue` when more time than
    /// `commit_time` has passed since the last delivery.
    Log { json: Option<String>, overdue: bool },
    /// The channel polled was empty.
    Empty,
    /// The channel polled is disconnected.
    Disconnected,
    /// The batch was delivered, or failed to be.
    Delivered { ok: bool },
}

/// The mathematical form of `OutputEvent`.
pub enum OutputEventView {
    StopCommand,
    OtherMessage,
    Log { json: Option<Seq<char>>, overdue: bool },
    Empty,
    Disconnected,
    Delivered { ok: bool },
}

impl View for OutputEvent {
    type V = OutputEventView;

    open spec fn view(&self) -> OutputEventView {
        match self {
            OutputEvent::StopCommand => OutputEventView::StopCommand,
            OutputEvent::OtherMessage => OutputEventView::OtherMessage,
            OutputEvent::Log { json, overdue } => OutputEventView::Log {
                json: entry_view(*json),
                overdue: *overdue,
            },
            OutputEvent::Empty => OutputEventView::Empty,
            OutputEvent::Disconnected => OutputEventView::Disconnected,
            OutputEvent::Delivered { ok } => OutputEventView::Delivered { ok: *ok },
        }
    }
}

/// What the driver of the output loop is to do next.
pub enum OutputAction {
    /// Poll the component's own channel; first restart the commit clock when
    /// `restart_clock`.
    ReceiveCommand { restart_clock: bool },
    /// Poll the log channel.
    ReceiveLog,
    /// Sleep ten milliseconds, then poll the component's own channel.
    PauseThenReceiveCommand,
    /// Send `body` to the bulk address, giving up after `timeout_secs` seconds.
    Deliver { body: String, timeout_secs: u64 },
    /// End the loop.
    Stop,
}

/// The mathematical form of `OutputAction`.
pub enum OutputActionView {
    ReceiveCommand { restart_clock: bool },
    ReceiveLog,
    PauseThenReceiveCommand,
    Deliver { body: Seq<char>, timeout_secs: u64 },
    Stop,
}

impl View for OutputAction {
    type V = OutputActionView;

    open spec fn view(&self) -> OutputActionView {
        match self {
            OutputAction::ReceiveCommand { restart_clock } => OutputActionView::ReceiveCommand {
                restart_clock: *restart_clock,
            },
            OutputAction::ReceiveLog => OutputActionView::ReceiveLog,
            OutputAction::PauseThenReceiveCommand => OutputActionView::PauseThenReceiveCommand,
            OutputAction::Deliver { body, timeout_secs } => OutputActionView::Deliver {
                body: body@,
                timeout_secs: *timeout_secs,
            },
            OutputAction::Stop => OutputActionView::Stop,
        }
    }
}

/// The output loop's state: the cache of logs not yet delivered.
pub struct OutputBatcher {
    max_commit: usize,
    timeout_secs: u64,
    cache: Vec<Option<String>>,
    phase: OutputPhase,
}

/// The mathematical form of `OutputBatcher`.
pub struct OutputView {
    pub max_commit: nat,
    pub timeout_secs: u64,
    pub cache: Seq<Option<Seq<char>>>,
    pub phase: OutputPhase,
}

impl View for OutputBatcher {
    type V = OutputView;

    closed spec fn view(&self) -> OutputView {
        OutputView {
            max_commit: self.max_commit as nat,
            timeout_secs: self.timeout_secs,
            cache: self.cache@.map_values(|e: Option<String>| entry_view(e)),
            phase: self.phase,
        }
    }
}

/// How many cached logs a batch takes: at most `max_commit`.
pub open spec fn batch_len(s: OutputView) -> nat {
    if s.cache.len() < s.max_commit {
        s.cache.len()
    } else {
        s.max_commit
    }
}

/// The body of a batch of the first `n` cached logs, closed by an empty line.
pub open spec fn delivery_body(s: OutputView, n: nat) -> Seq<char> {
    batch_text(s.cache.take(n as int)) + "\n"@
}

/// The end of a polling round: the first `commit_max_messages` cached logs, or
/// all of them when fewer, go out when there is any; they are dropped once
/// delivered.
pub open spec fn flush(s: OutputView) -> (OutputView, OutputActionView) {
    let n = batch_len(s);
    if n >= 1 {
        (
            OutputView { phase: OutputPhase::Delivering { sent: n as usize }, ..s },
            OutputActionView::Deliver { body: delivery_body(s, n), timeout_secs: s.timeout_secs },
        )
    } else {
        (
            OutputView { phase: OutputPhase::Commands, ..s },
            OutputActionView::ReceiveCommand { restart_clock: false },
        )
    }
}

/// Turning to the log channel, unless the cache already holds a full batch.
pub open spec fn enter_logs(s: OutputView) -> (OutputView, OutputActionView) {
    if s.cache.len() < s.max_commit {
        (OutputView { phase: OutputPhase::Logs { count: 0 }, ..s }, OutputActionView::ReceiveLog)
    } else {
        flush(s)
    }
}

/// What the action for the current phase is, when an event does not belong to it.
pub open spec fn repeat_request(s: OutputView) -> (OutputView, OutputActionView) {
    match s.phase {
        OutputPhase::Commands => (s, OutputActionView::ReceiveCommand { restart_clock: false }),
        OutputPhase::Logs { .. } => (s, OutputActionView::ReceiveLog),
        OutputPhase::Delivering { sent } => (
            s,
            OutputActionView::Deliver {
                body: delivery_body(s, sent as nat),
                timeout_secs: s.timeout_secs,
            },
        ),
    }
}

/// The output loop: one step from an observed event.
pub open spec fn output_step(s: OutputView, e: OutputEventView) -> (OutputView, OutputActionView) {
    match s.phase {
        OutputPhase::Commands => match e {
            OutputEventView::StopCommand => (s, OutputActionView::Stop),
            OutputEventView::OtherMessage => (
                s,
                OutputActionView::ReceiveCommand { restart_clock: false },
            ),
            OutputEventView::Log { json, overdue } => {
                let t = OutputView { cache: s.cache.push(json), ..s };
                if t.cache.len() > t.max_commit || overdue {
                    enter_logs(t)
                } else {
                    (t, OutputActionView::ReceiveCommand { restart_clock: false })
                }
            },
            OutputEventView::Empty => enter_logs(s),
            OutputEventView::Disconnected => (s, OutputActionView::PauseThenReceiveCommand),
            OutputEventView::Delivered { .. } => repeat_request(s),
        },
        OutputPhase::Logs { count } => match e {
            OutputEventView::Log { json, overdue } => {
                let t = OutputView { cache: s.cache.push(json), ..s };
                if t.cache.len() > t.max_commit || overdue {
                    flush(t)
                } else if count >= s.max_commit {
                    flush(t)
                } else {
                    (
                        OutputView { phase: OutputPhase::Logs { count: (count + 1) as usize }, ..t },
                        OutputActionView::ReceiveLog,
                    )
                }
            },
            OutputEventView::Empty => flush(s),
            OutputEventView::Disconnected => flush(s),
            _ => repeat_request(s),
        },
        OutputPhase::Delivering { sent } => match e {
            OutputEventView::Delivered { ok } => if ok {
                (
                    OutputView {
                        cache: s.cache.skip(sent as int),
                        phase: OutputPhase::Commands,
                        ..s
                    },
                    OutputActionView::ReceiveCommand { restart_clock: true },
                )
            } else {
                (
                    OutputView { phase: OutputPhase::Commands, ..s },
                    OutputActionView::ReceiveCommand { restart_clock: false },
                )
            },
            _ => repeat_request(s),
        },
    }
}

/// What the loop keeps true: a delivery in flight holds at least one cached log
/// and at most a batch's worth, and the log count stays within the batch size.
pub open spec fn output_wf(s: OutputView) -> bool {
    &&& s.max_commit <= usize::MAX
    &&& match s.phase {
        OutputPhase::Commands => true,
        OutputPhase::Logs { count } => count <= s.max_commit,
        OutputPhase::Delivering { sent } => 1 <= sent && sent <= batch_len(s),
    }
}

impl OutputBatcher {
    /// The loop's state keeps `output_wf`.
    #[verifier::type_invariant]
    closed spec fn inv(&self) -> bool {
        output_wf(self@)
    }

    /// A loop with an empty cache, about to poll the component's own channel.
    pub fn new(config: &ElasticOuputConfig) -> (b: OutputBatcher)
        ensures
            b@.max_commit == config.commit_max_messages,
            b@.timeout_secs == config.commit_timeout,
            b@.cache == Seq::<Option<Seq<char>>>::empty(),
            b@.phase == OutputPhase::Commands,
            output_wf(b@),
    {
        let b = OutputBatcher {
            max_commit: config.commit_max_messages,
            timeout_secs: config.commit_timeout,
            cache: Vec::with_capacity(config.cache_size),
            phase: OutputPhase::Commands,
        };
        proof {
            assert(b@.cache =~= Seq::<Option<Seq<char>>>::empty());
        }
        b
    }

    /// The number of logs waiting in the cache.
    pub fn cached(&self) -> (n: usize)
        ensures
            n == self@.cache.len(),
    {
        self.cache.len()
    }

    /// The current phase.
    pub fn phase(&self) -> (p: OutputPhase)
        ensures
            p == self@.phase,
    {
        self.phase
    }

    fn body_of(&self, n: usize) -> (body: String)
        requires
            n <= self@.cache.len(),
        ensures
            body@ == delivery_body(self@, n as nat),
    {
        let mut body = String::new();
        let mut i: usize = 0;
        let ghost entries = self@.cache;
        proof {
            assert(entries.take(0) =~= Seq::<Option<Seq<char>>>::empty());
        }
        while i < n
            invariant
                n <= self@.cache.len(),
                entries == self@.cache,
                i <= n,
                body@ == batch_text(entries.take(i as int)),
            decreases n - i,
        {
            proof {
                assert(entries.take(i + 1).drop_last() =~= entries.take(i as int));
                assert(entries.take(i + 1).last() == entry_view(self.cache@[i as int]));
            }
            match &self.cache[i] {
                Some(j) => {
                    body.append("{\"create\":{}}\n");
                    body.append(j.as_str());
                    body.append("\n");
                    proof {
                        assert(body@ =~= batch_text(entries.take(i as int)) + entry_text(
                            Some(j@),
                        ));
                    }
                },
                None => {
                    proof {
                        assert(body@ =~= batch_text(entries.take(i as int)) + entry_text(None));
                    }
                },
            }
            i = i + 1;
        }
        body.append("\n");
        body
    }

    fn flush_now(&mut self) -> (a: OutputAction)
        ensures
            (final(self)@, a@) == flush(old(self)@),
            final(self).max_commit == old(self).max_commit,
    {
        let n: usize = if self.cache.len() < self.max_commit {
            self.cache.len()
        } else {
            self.max_commit
        };
        if n >= 1 {
            let body = self.body_of(n);
            self.phase = OutputPhase::Delivering { sent: n };
            OutputAction::Deliver { body, timeout_secs: self.timeout_secs }
        } else {
            self.phase = OutputPhase::Commands;
            OutputAction::ReceiveCommand { restart_clock: false }
        }
    }

    fn enter_logs_now(&mut self) -> (a: OutputAction)
        ensures
            (final(self)@, a@) == enter_logs(old(self)@),
    {
        if self.cache.len() < self.max_commit {
            self.phase = OutputPhase::Logs { count: 0 };
            OutputAction::ReceiveLog
        } else {
            self.flush_now()
        }
    }

    fn repeat_now(&self) -> (a: OutputAction)
        requires
            output_wf(self@),
        ensures
            (self@, a@) == repeat_request(self@),
    {
        match self.phase {
            OutputPhase::Commands => OutputAction::ReceiveCommand { restart_clock: false },
            OutputPhase::Logs { .. } => OutputAction::ReceiveLog,
            OutputPhase::Delivering { sent } => OutputAction::Deliver {
                body: self.body_of(sent),
                timeout_secs: self.timeout_secs,
            },
        }
    }

    fn push_log(&mut self, json: Option<String>)
        requires
            !(old(self)@.phase is Delivering),
        ensures
            final(self)@ == (OutputView { cache: old(self)@.cache.push(entry_view(json)), ..old(self)@ }),
    {
        proof {
            use_type_invariant(&*self);
        }
        let mut cache: Vec<Option<String>> = Vec::new();
        std::mem::swap(&mut cache, &mut self.cache);
        cache.push(json);
        std::mem::swap(&mut cache, &mut self.cache);
        proof {
            assert(self@.cache =~= old(self)@.cache.push(entry_view(json)));
        }
    }

    /// One step of the output loop: what the observed event changes, and what to do next.
    pub fn step(&mut self, event: OutputEvent) -> (a: OutputAction)
        ensures
            output_wf(old(self)@),
            (final(self)@, a@) == output_step(old(self)@, event@),
            output_wf(final(self)@),
    {
        proof {
            use_type_invariant(&*self);
        }
        match self.phase {
            OutputPhase::Commands => match event {
                OutputEvent::StopCommand => OutputAction::Stop,
                OutputEvent::OtherMessage => OutputAction::ReceiveCommand { restart_clock: false },
                OutputEvent::Log { json, overdue } => {
                    self.push_log(json);
                    if self.cache.len() > self.max_commit || overdue {
                        self.enter_logs_now()
                    } else {
                        OutputAction::ReceiveCommand { restart_clock: false }
                    }
                },
                OutputEvent::Empty => self.enter_logs_now(),
                OutputEvent::Disconnected => OutputAction::PauseThenReceiveCommand,
                OutputEvent::Delivered { .. } => self.repeat_now(),
            },
            OutputPhase::Logs { count } => match event {
                OutputEvent::Log { json, overdue } => {
                    self.push_log(json);
                    if self.cache.len() > self.max_commit || overdue {
                        self.flush_now()
                    } else if count >= self.max_commit {
                        self.flush_now()
                    } else {
                        self.phase = OutputPhase::Logs { count: count + 1 };
                        OutputAction::ReceiveLog
                    }
                },
                OutputEvent::Empty => self.flush_now(),
                OutputEvent::Disconnected => self.flush_now(),
                _ => self.repeat_now(),
            },
            OutputPhase::Delivering { sent } => match event {
                OutputEvent::Delivered { ok } => {
                    if ok {
                        self.phase = OutputPhase::Commands;
                        let mut cache: Vec<Option<String>> = Vec::new();
                        std::mem::swap(&mut cache, &mut self.cache);
                        let rest = cache.split_off(sent);
                        self.cache = rest;
                        proof {
                            assert(self@.cache =~= old(self)@.cache.skip(sent as int));
                        }
                        OutputAction::ReceiveCommand { restart_clock: true }
                    } else {
                        self.phase = OutputPhase::Commands;
                        OutputAction::ReceiveCommand { restart_clock: false }
                    }
                },
                _ => self.repeat_now(),
            },
        }
    }
}

/// Every state the loop reaches keeps a delivery in flight within the cache:
/// it drops at least one logged entry and leaves at least one.
pub proof fn lemma_output_wf_preserved(s: OutputView, e: OutputEventView)
    requires
        output_wf(s),
    ensures
        output_wf(output_step(s, e).0),
{
}

/// A batch holds at least one log and never more than `commit_max_messages`:
/// the body sent is the first `sent` cached logs, which the loop drops once the
/// batch is delivered, and the request gives up after `commit_timeout` seconds.
pub proof fn lemma_batch_within_limit(s: OutputView, e: OutputEventView)
    requires
        output_wf(s),
    ensures
        output_step(s, e).1 is Deliver ==> {
            let t = output_step(s, e).0;
            &&& t.phase matches OutputPhase::Delivering { sent }
            &&& 1 <= sent <= t.max_commit
            &&& sent <= t.cache.len()
            &&& output_step(s, e).1 == OutputActionView::Deliver {
                body: delivery_body(t, sent as nat),
                timeout_secs: t.timeout_secs,
            }
        },
{
}

/// Logs leave the cache only when a batch is delivered, and then exactly the
/// `sent` logs of the batch; otherwise the cache keeps its logs, and a received
/// log is added at its end.
pub proof fn lemma_logs_kept_until_delivered(s: OutputView, e: OutputEventView)
    requires
        output_wf(s),
    ensures
        ({
            let t = output_step(s, e).0;
            ||| t.cache == s.cache
            ||| e matches OutputEventView::Log { json, .. } && t.cache == s.cache.push(json)
            ||| s.phase matches OutputPhase::Delivering { sent } && e == (OutputEventView::Delivered {
                ok: true,
            }) && t.cache == s.cache.skip(sent as int)
        }),
{
}

/// Each log is delivered once: the logs of a delivered batch are exactly those
/// that leave the cache, and what stays is what came after them.
pub proof fn lemma_delivered_once(s: OutputView)
    requires
        output_wf(s),
        s.phase is Delivering,
    ensures
        ({
            let sent = s.phase->sent;
            let t = output_step(s, OutputEventView::Delivered { ok: true }).0;
            &&& s.cache == s.cache.take(sent as int) + t.cache
            &&& repeat_request(s).1 == OutputActionView::Deliver {
                body: delivery_body(s, sent as nat),
                timeout_secs: s.timeout_secs,
            }
            &&& t.phase == OutputPhase::Commands
        }),
{
    let sent = s.phase->sent;
    let t = output_step(s, OutputEventView::Delivered { ok: true }).0;
    assert(s.cache =~= s.cache.take(sent as int) + t.cache);
}

/// A round that ends with any log cached sends it: when the log channel turns
/// out empty, or is gone, every cached log up to the batch size goes out.
pub proof fn lemma_cached_log_sent(s: OutputView, e: OutputEventView)
    requires
        output_wf(s),
        s.phase is Logs,
        e == OutputEventView::Empty || e == OutputEventView::Disconnected,
        s.cache.len() >= 1,
        s.max_commit >= 1,
    ensures
        output_step(s, e).1 is Deliver,
{
}

/// A stop command ends the loop and changes nothing; nothing else ends it.
pub proof fn lemma_stop_command_stops(s: OutputView, e: OutputEventView)
    ensures
        s.phase == OutputPhase::Commands ==> output_step(s, OutputEventView::StopCommand) == (
            s,
            OutputActionView::Stop,
        ),
        output_step(s, e).1 is Stop ==> s.phase == OutputPhase::Commands && e
            == OutputEventView::StopCommand,
{
}

/// Whether `e` answers the action the loop asked for in the phase of `s`.
pub open spec fn answers(s: OutputView, e: OutputEventView) -> bool {
    match s.phase {
        OutputPhase::Commands => !(e is Delivered),
        OutputPhase::Logs { .. } => e is Log || e is Empty || e is Disconnected,
        OutputPhase::Delivering { .. } => e is Delivered,
    }
}

/// How far the loop is from polling commands again.
pub open spec fn rounds_left(s: OutputView) -> nat {
    match s.phase {
        OutputPhase::Commands => 0,
        OutputPhase::Delivering { .. } => 1,
        OutputPhase::Logs { count } => (s.max_commit - count + 2) as nat,
    }
}

/// The loop comes back to polling its own channel: away from it, every
/// answered step brings it closer, and it never ends there by itself. A stop
/// command sent while it runs is therefore seen and ends it.
pub proof fn lemma_returns_to_commands(s: OutputView, e: OutputEventView)
    requires
        output_wf(s),
        answers(s, e),
        !(s.phase is Commands),
    ensures
        output_step(s, e).0.phase == OutputPhase::Commands || rounds_left(output_step(s, e).0)
            < rounds_left(s),
        !(output_step(s, e).1 is Stop),
{
}

/// A received log is always cached: while the loop takes messages or logs, a
/// log event leaves the cache as it was with that log added at its end, even
/// when the event also ends the round and sends a batch.
pub proof fn lemma_log_always_cached(s: OutputView, json: Option<Seq<char>>, overdue: bool)
    requires
        output_wf(s),
        s.phase is Commands || s.phase is Logs,
    ensures
        output_step(s, OutputEventView::Log { json, overdue }).0.cache == s.cache.push(json),
{
}

/// `commit_time` is honoured: in the log round, a log that arrives after
/// `commit_time` has passed ends the round, and the batch that goes out is the
/// first `commit_max_messages` of the cached logs, that log included when it
/// fits, within the delivery timeout.
pub proof fn lemma_overdue_log_sends(s: OutputView, json: Option<Seq<char>>)
    requires
        output_wf(s),
        s.phase is Logs,
        s.max_commit >= 1,
    ensures
        ({
            let c = s.cache.push(json);
            let n = if c.len() < s.max_commit { c.len() } else { s.max_commit };
            let (t, a) = output_step(s, OutputEventView::Log { json, overdue: true });
            &&& a == OutputActionView::Deliver {
                body: batch_text(c.take(n as int)) + "\n"@,
                timeout_secs: s.timeout_secs,
            }
            &&& t.phase == OutputPhase::Delivering { sent: n as usize }
            &&& t.cache == c
        }),
{
}

} // verus!
