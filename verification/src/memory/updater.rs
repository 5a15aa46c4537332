//! The background update of the memory: what the queue's status becomes on each
//! event, what the model is asked, and what its reply does to the memory.

use crate::chat::{ChatMessage, MessageView, Provider, messages_view, plain_message, text_message};
use crate::json::{Json, JsonView, json_parsed, parse};
use crate::memory::excerpt::{build_conversation_excerpt, excerpt_of};
use crate::memory::merge::{
    cap_memory, capped_memory, law_capped_memory_bounded, merge_llm_response_into_memory,
    merged_memory,
};
use crate::memory::model::{
    CommandPattern, MemoryFact, MemoryLesson, MemoryView, OpenLoop, ProjectSignal,
    StructuredMemory, memory_entries,
};
use crate::memory::records::{Remembered, all_seen};
use crate::memory::status::{AuditView, MemoryAuditRecord, MemoryQueueStatusSnapshot, SnapshotView};
use crate::text::{char_count, clone_opt, concat3, owned, same, same_opt, trim, trimmed};
use vstd::prelude::*;
use vstd::string::*;

verus! {

/// The most requests that wait for the updater.
pub const MEMORY_QUEUE_CAPACITY: usize = 16;

/// How long the updater waits for a newer request, in seconds.
pub const DEBOUNCE_SECS: u64 = 3;

// ---------------------------------------------------------------------------
// The status of the queue
// ---------------------------------------------------------------------------

/// The status before the first request.
pub open spec fn idle_status() -> SnapshotView {
    SnapshotView {
        state: "idle"@,
        enqueued: 0,
        replaced_during_debounce: 0,
        started: 0,
        succeeded: 0,
        failed: 0,
        timed_out: 0,
        last_model: None,
        last_excerpt_chars: 0,
        last_duration_ms: 0,
        last_error: None,
        last_enqueued_at: 0,
        last_started_at: 0,
        last_finished_at: 0,
        last_success_at: 0,
        last_failure_at: 0,
    }
}

/// The status once a request was taken in.
pub open spec fn after_enqueue(s: SnapshotView, model: Seq<char>, now: u64) -> SnapshotView {
    SnapshotView {
        state: "pending"@,
        enqueued: (s.enqueued + 1) as u64,
        last_model: Some(model),
        last_enqueued_at: now,
        ..s
    }
}

/// The status once a waiting request gave way to a newer one.
pub open spec fn after_replacement(s: SnapshotView, model: Seq<char>, now: u64) -> SnapshotView {
    SnapshotView {
        state: "pending"@,
        replaced_during_debounce: (s.replaced_during_debounce + 1) as u64,
        last_model: Some(model),
        last_enqueued_at: now,
        ..s
    }
}

/// The status once an update began.
pub open spec fn after_start(
    s: SnapshotView,
    model: Seq<char>,
    excerpt_chars: usize,
    now: u64,
) -> SnapshotView {
    SnapshotView {
        state: "running"@,
        started: (s.started + 1) as u64,
        last_model: Some(model),
        last_excerpt_chars: excerpt_chars,
        last_started_at: now,
        ..s
    }
}

/// How an update ended.
#[derive(Debug, PartialEq, Eq)]
pub enum MemoryUpdateOutcome {
    Failed(String),
    TimedOut,
    Succeeded(MemoryProcessStats),
}

/// How an update ended, by its view.
pub enum OutcomeView {
    Failed(Seq<char>),
    TimedOut,
    Succeeded(MemoryProcessStats),
}

impl MemoryUpdateOutcome {
    pub open spec fn view(self) -> OutcomeView {
        match self {
            MemoryUpdateOutcome::Failed(e) => OutcomeView::Failed(e@),
            MemoryUpdateOutcome::TimedOut => OutcomeView::TimedOut,
            MemoryUpdateOutcome::Succeeded(s) => OutcomeView::Succeeded(s),
        }
    }
}

/// The status once an update ended.
pub open spec fn after_finish(
    s: SnapshotView,
    outcome: OutcomeView,
    duration_ms: u64,
    now: u64,
) -> SnapshotView {
    match outcome {
        OutcomeView::Failed(error) => SnapshotView {
            state: "idle"@,
            failed: (s.failed + 1) as u64,
            last_duration_ms: duration_ms,
            last_error: Some(error),
            last_failure_at: now,
            last_finished_at: now,
            ..s
        },
        OutcomeView::TimedOut => SnapshotView {
            state: "idle"@,
            timed_out: (s.timed_out + 1) as u64,
            last_duration_ms: duration_ms,
            last_error: Some("memory update timed out"@),
            last_failure_at: now,
            last_finished_at: now,
            ..s
        },
        OutcomeView::Succeeded(stats) => SnapshotView {
            state: "idle"@,
            succeeded: (s.succeeded + 1) as u64,
            last_duration_ms: duration_ms,
            last_error: None,
            last_success_at: now,
            last_finished_at: now,
            last_excerpt_chars: stats.excerpt_chars,
            ..s
        },
    }
}

impl MemoryQueueStatusSnapshot {
    /// The status before the first request.
    pub fn idle() -> (r: MemoryQueueStatusSnapshot)
        ensures
            r@ == idle_status(),
    {
        MemoryQueueStatusSnapshot {
            state: owned("idle"),
            enqueued: 0,
            replaced_during_debounce: 0,
            started: 0,
            succeeded: 0,
            failed: 0,
            timed_out: 0,
            last_model: None,
            last_excerpt_chars: 0,
            last_duration_ms: 0,
            last_error: None,
            last_enqueued_at: 0,
            last_started_at: 0,
            last_finished_at: 0,
            last_success_at: 0,
            last_failure_at: 0,
        }
    }

    /// Notes that a request was taken in.
    pub fn note_enqueued(&mut self, model: &str, now: u64)
        requires
            old(self)@.enqueued < u64::MAX,
        ensures
            final(self)@ == after_enqueue(old(self)@, model@, now),
    {
        self.state = owned("pending");
        self.enqueued = self.enqueued + 1;
        self.last_model = Some(owned(model));
        self.last_enqueued_at = now;
    }

    /// Notes that a waiting request gave way to a newer one.
    pub fn note_replaced(&mut self, model: &str, now: u64)
        requires
            old(self)@.replaced_during_debounce < u64::MAX,
        ensures
            final(self)@ == after_replacement(old(self)@, model@, now),
    {
        self.state = owned("pending");
        self.replaced_during_debounce = self.replaced_during_debounce + 1;
        self.last_model = Some(owned(model));
        self.last_enqueued_at = now;
    }

    /// Notes that an update began.
    pub fn note_started(&mut self, model: &str, excerpt_chars: usize, now: u64)
        requires
            old(self)@.started < u64::MAX,
        ensures
            final(self)@ == after_start(old(self)@, model@, excerpt_chars, now),
    {
        self.state = owned("running");
        self.started = self.started + 1;
        self.last_model = Some(owned(model));
        self.last_excerpt_chars = excerpt_chars;
        self.last_started_at = now;
    }

    /// Notes that an update ended.
    pub fn note_finished(&mut self, outcome: &MemoryUpdateOutcome, duration_ms: u64, now: u64)
        requires
            old(self)@.failed < u64::MAX,
            old(self)@.timed_out < u64::MAX,
            old(self)@.succeeded < u64::MAX,
        ensures
            final(self)@ == after_finish(old(self)@, outcome@, duration_ms, now),
    {
        self.state = owned("idle");
        self.last_duration_ms = duration_ms;
        self.last_finished_at = now;
        match outcome {
            MemoryUpdateOutcome::Failed(error) => {
                self.failed = self.failed + 1;
                self.last_error = Some(owned(error.as_str()));
                self.last_failure_at = now;
            },
            MemoryUpdateOutcome::TimedOut => {
                self.timed_out = self.timed_out + 1;
                self.last_error = Some(owned("memory update timed out"));
                self.last_failure_at = now;
            },
            MemoryUpdateOutcome::Succeeded(stats) => {
                self.succeeded = self.succeeded + 1;
                self.last_error = None;
                self.last_success_at = now;
                self.last_excerpt_chars = stats.excerpt_chars;
            },
        }
    }
}

// ---------------------------------------------------------------------------
// The updater
// ---------------------------------------------------------------------------

/// What becomes of a request for an update.
#[derive(Clone, Copy, Debug, PartialEq, Eq, Structural)]
pub enum QueueAction {
    /// It is left out: the updater is to stop.
    Ignore,
    /// It waits behind the others.
    Append,
    /// It takes the place of the latest one that waits.
    ReplaceLatest,
}

/// What becomes of a request while so many others wait.
pub open spec fn queue_next(cancelled: bool, waiting: nat) -> QueueAction {
    if cancelled {
        QueueAction::Ignore
    } else if waiting < MEMORY_QUEUE_CAPACITY {
        QueueAction::Append
    } else {
        QueueAction::ReplaceLatest
    }
}

/// What becomes of a request while so many others wait.
pub fn enqueue_step(cancelled: bool, waiting: usize) -> (r: QueueAction)
    ensures
        r == queue_next(cancelled, waiting as nat),
{
    if cancelled {
        QueueAction::Ignore
    } else if waiting < MEMORY_QUEUE_CAPACITY {
        QueueAction::Append
    } else {
        QueueAction::ReplaceLatest
    }
}

/// The waiting requests after one more.
pub open spec fn queue_after<R>(waiting: Seq<R>, cancelled: bool, request: R) -> Seq<R> {
    match queue_next(cancelled, waiting.len()) {
        QueueAction::Ignore => waiting,
        QueueAction::Append => waiting.push(request),
        QueueAction::ReplaceLatest => waiting.drop_last().push(request),
    }
}

/// The queue never grows beyond its capacity, and as long as the updater is not
/// to stop the newest request is always kept, as the last one.
pub proof fn law_queue_keeps_newest<R>(waiting: Seq<R>, cancelled: bool, request: R)
    requires
        waiting.len() <= MEMORY_QUEUE_CAPACITY,
    ensures
        queue_after(waiting, cancelled, request).len() <= MEMORY_QUEUE_CAPACITY,
        !cancelled ==> queue_after(waiting, cancelled, request).len() > 0 && queue_after(
            waiting,
            cancelled,
            request,
        ).last() == request,
        cancelled ==> queue_after(waiting, cancelled, request) == waiting,
{
}

/// What the updater learns from outside.
#[derive(Clone, Copy, Debug, PartialEq, Eq, Structural)]
pub enum UpdaterEvent {
    /// It is to stop.
    Cancelled,
    /// Nobody can send a request any more.
    Closed,
    /// A request arrived.
    Requested,
    /// The waiting time passed without a newer request.
    Quiet,
}

/// What the updater does next.
#[derive(Clone, Copy, Debug, PartialEq, Eq, Structural)]
pub enum UpdaterAction {
    /// End.
    Stop,
    /// Hold the request and wait for a newer one.
    Hold,
    /// Note that the newer request takes the place of the held one, and wait
    /// again.
    Replace,
    /// Process the held request.
    Process,
    /// Wait for a request.
    Wait,
}

/// What the updater does, and whether it holds a request then.
pub open spec fn updater_next(holding: bool, event: UpdaterEvent) -> (bool, UpdaterAction) {
    match event {
        UpdaterEvent::Cancelled => (false, UpdaterAction::Stop),
        UpdaterEvent::Closed => (false, UpdaterAction::Stop),
        UpdaterEvent::Requested => (
            true,
            if holding {
                UpdaterAction::Replace
            } else {
                UpdaterAction::Hold
            },
        ),
        UpdaterEvent::Quiet => (
            false,
            if holding {
                UpdaterAction::Process
            } else {
                UpdaterAction::Wait
            },
        ),
    }
}

/// One step of the updater, which holds a request or none.
pub fn memory_updater_step(holding: bool, event: UpdaterEvent) -> (r: (bool, UpdaterAction))
    ensures
        r == updater_next(holding, event),
{
    match event {
        UpdaterEvent::Cancelled => (false, UpdaterAction::Stop),
        UpdaterEvent::Closed => (false, UpdaterAction::Stop),
        UpdaterEvent::Requested => if holding {
            (true, UpdaterAction::Replace)
        } else {
            (true, UpdaterAction::Hold)
        },
        UpdaterEvent::Quiet => if holding {
            (false, UpdaterAction::Process)
        } else {
            (false, UpdaterAction::Wait)
        },
    }
}

/// Whether the updater holds a request after the first `n` events.
pub open spec fn holds_after(events: Seq<UpdaterEvent>, n: int) -> bool
    decreases n,
{
    if n <= 0 {
        false
    } else {
        updater_next(holds_after(events, n - 1), events[n - 1]).0
    }
}

/// The updater processes a request only once the waiting time has passed right
/// after a request: of requests that follow each other closely, the last one
/// alone is processed.
pub proof fn law_updater_debounces(events: Seq<UpdaterEvent>, n: int)
    requires
        0 < n <= events.len(),
        updater_next(holds_after(events, n - 1), events[n - 1]).1 is Process,
    ensures
        events[n - 1] is Quiet,
        n >= 2,
        events[n - 2] is Requested,
{
    assert(holds_after(events, n - 1));
}

// ---------------------------------------------------------------------------
// The audit log
// ---------------------------------------------------------------------------

/// What is known before an update.
#[derive(Clone, Copy, Debug, PartialEq, Eq, Structural)]
pub struct MemoryAuditBaseline {
    pub excerpt_chars: usize,
    pub facts_before: usize,
    pub entries_before: usize,
    pub had_user_context_before: bool,
}

/// What is known before an update of `existing` from a conversation.
pub fn build_audit_baseline(existing: &StructuredMemory, conversation: &Vec<ChatMessage>) -> (r:
    MemoryAuditBaseline)
    requires
        memory_entries(existing@) <= usize::MAX,
    ensures
        r.excerpt_chars == excerpt_of(messages_view(conversation@)).len(),
        r.facts_before == existing@.facts.len(),
        r.entries_before == memory_entries(existing@),
        r.had_user_context_before == existing@.user_context is Some,
{
    let excerpt = build_conversation_excerpt(conversation);
    MemoryAuditBaseline {
        excerpt_chars: char_count(excerpt.as_str()),
        facts_before: existing.facts.len(),
        entries_before: existing.entry_count(),
        had_user_context_before: existing.user_context.is_some(),
    }
}

/// The entry for an update that left the memory as it was.
pub open spec fn unchanged_entry(
    base: MemoryAuditBaseline,
    model: Seq<char>,
    status: Seq<char>,
    error: Seq<char>,
    duration_ms: u64,
    now: u64,
) -> AuditView {
    AuditView {
        timestamp: now,
        model,
        status,
        excerpt_chars: base.excerpt_chars,
        duration_ms,
        facts_before: base.facts_before,
        facts_after: base.facts_before,
        entries_before: base.entries_before,
        entries_after: base.entries_before,
        had_user_context_before: base.had_user_context_before,
        had_user_context_after: base.had_user_context_before,
        changed: false,
        error: Some(error),
    }
}

/// The entry for an update.
pub open spec fn audit_entry(
    base: MemoryAuditBaseline,
    outcome: OutcomeView,
    model: Seq<char>,
    duration_ms: u64,
    now: u64,
) -> AuditView {
    match outcome {
        OutcomeView::Failed(error) => unchanged_entry(
            base,
            model,
            "error"@,
            error,
            duration_ms,
            now,
        ),
        OutcomeView::TimedOut => unchanged_entry(
            base,
            model,
            "timeout"@,
            "memory update timed out"@,
            duration_ms,
            now,
        ),
        OutcomeView::Succeeded(stats) => AuditView {
            timestamp: now,
            model,
            status: "success"@,
            excerpt_chars: stats.excerpt_chars,
            duration_ms,
            facts_before: stats.facts_before,
            facts_after: stats.facts_after,
            entries_before: stats.entries_before,
            entries_after: stats.entries_after,
            had_user_context_before: stats.had_user_context_before,
            had_user_context_after: stats.had_user_context_after,
            changed: stats.changed,
            error: None,
        },
    }
}

fn unchanged_record(
    base: &MemoryAuditBaseline,
    model: &str,
    status: &str,
    error: &str,
    duration_ms: u64,
    now: u64,
) -> (r: MemoryAuditRecord)
    ensures
        r@ == unchanged_entry(*base, model@, status@, error@, duration_ms, now),
{
    MemoryAuditRecord {
        timestamp: now,
        model: owned(model),
        status: owned(status),
        excerpt_chars: base.excerpt_chars,
        duration_ms,
        facts_before: base.facts_before,
        facts_after: base.facts_before,
        entries_before: base.entries_before,
        entries_after: base.entries_before,
        had_user_context_before: base.had_user_context_before,
        had_user_context_after: base.had_user_context_before,
        changed: false,
        error: Some(owned(error)),
    }
}

/// The entry for an update.
pub fn audit_record(
    base: &MemoryAuditBaseline,
    outcome: &MemoryUpdateOutcome,
    model: &str,
    duration_ms: u64,
    now: u64,
) -> (r: MemoryAuditRecord)
    ensures
        r@ == audit_entry(*base, outcome@, model@, duration_ms, now),
{
    match outcome {
        MemoryUpdateOutcome::Failed(error) => unchanged_record(
            base,
            model,
            "error",
            error.as_str(),
            duration_ms,
            now,
        ),
        MemoryUpdateOutcome::TimedOut => unchanged_record(
            base,
            model,
            "timeout",
            "memory update timed out",
            duration_ms,
            now,
        ),
        MemoryUpdateOutcome::Succeeded(stats) => MemoryAuditRecord {
            timestamp: now,
            model: owned(model),
            status: owned("success"),
            excerpt_chars: stats.excerpt_chars,
            duration_ms,
            facts_before: stats.facts_before,
            facts_after: stats.facts_after,
            entries_before: stats.entries_before,
            entries_after: stats.entries_after,
            had_user_context_before: stats.had_user_context_before,
            had_user_context_after: stats.had_user_context_after,
            changed: stats.changed,
            error: None,
        },
    }
}

// ---------------------------------------------------------------------------
// An update
// ---------------------------------------------------------------------------

/// Where a count of tokens comes from.
#[derive(Clone, Copy, Debug, PartialEq, Eq, Structural)]
pub enum UsageSource {
    Provider,
    Estimated,
}

impl UsageSource {
    /// The name of this source.
    pub fn label(self) -> (r: &'static str)
        ensures
            r@ == (match self {
                UsageSource::Provider => "provider"@,
                UsageSource::Estimated => "estimated"@,
            }),
    {
        match self {
            UsageSource::Provider => "provider",
            UsageSource::Estimated => "estimated",
        }
    }
}

/// What a call of the model cost.
#[derive(Clone, Copy, Debug, PartialEq, Eq, Structural)]
pub struct MemoryUsage {
    pub input_tokens: u64,
    pub output_tokens: u64,
    pub input_source: UsageSource,
    pub output_source: UsageSource,
}

/// The count that the provider reported, or else the estimate.
pub open spec fn settled(reported: Option<u64>, estimate: u64) -> (u64, UsageSource) {
    match reported {
        Some(n) => (n, UsageSource::Provider),
        None => (estimate, UsageSource::Estimated),
    }
}

fn settle(reported: Option<u64>, estimate: u64) -> (r: (u64, UsageSource))
    ensures
        r == settled(reported, estimate),
{
    match reported {
        Some(n) => (n, UsageSource::Provider),
        None => (estimate, UsageSource::Estimated),
    }
}

/// What a call cost: what the provider reported, estimates for the rest.
pub fn settle_usage(
    input_tokens: Option<u64>,
    output_tokens: Option<u64>,
    input_estimate: u64,
    output_estimate: u64,
) -> (r: MemoryUsage)
    ensures
        (r.input_tokens, r.input_source) == settled(input_tokens, input_estimate),
        (r.output_tokens, r.output_source) == settled(output_tokens, output_estimate),
{
    let (input, input_source) = settle(input_tokens, input_estimate);
    let (output, output_source) = settle(output_tokens, output_estimate);
    MemoryUsage { input_tokens: input, output_tokens: output, input_source, output_source }
}

/// What an update did.
#[derive(Clone, Copy, Debug, PartialEq, Eq, Structural)]
pub struct MemoryProcessStats {
    pub excerpt_chars: usize,
    pub facts_before: usize,
    pub facts_after: usize,
    pub entries_before: usize,
    pub entries_after: usize,
    pub had_user_context_before: bool,
    pub had_user_context_after: bool,
    pub changed: bool,
    pub usage: Option<MemoryUsage>,
}

/// What an update from `before` to `after` did.
pub open spec fn stats_of(
    before: MemoryView,
    after: MemoryView,
    excerpt_chars: usize,
    changed: bool,
    usage: Option<MemoryUsage>,
) -> MemoryProcessStats {
    MemoryProcessStats {
        excerpt_chars,
        facts_before: before.facts.len() as usize,
        facts_after: after.facts.len() as usize,
        entries_before: memory_entries(before) as usize,
        entries_after: memory_entries(after) as usize,
        had_user_context_before: before.user_context is Some,
        had_user_context_after: after.user_context is Some,
        changed,
        usage,
    }
}

fn unchanged_stats(
    existing: &StructuredMemory,
    excerpt_chars: usize,
    usage: Option<MemoryUsage>,
) -> (r: MemoryProcessStats)
    requires
        memory_entries(existing@) <= usize::MAX,
    ensures
        r == stats_of(existing@, existing@, excerpt_chars, false, usage),
{
    let facts: usize = existing.facts.len();
    let entries: usize = existing.entry_count();
    let had_context: bool = existing.user_context.is_some();
    MemoryProcessStats {
        excerpt_chars,
        facts_before: facts,
        facts_after: facts,
        entries_before: entries,
        entries_after: entries,
        had_user_context_before: had_context,
        had_user_context_after: had_context,
        changed: false,
        usage,
    }
}

/// What the model is told before the memory.
pub open spec fn instructions_head() -> Seq<char> {
    "You are a memory extraction assistant. Your task is to analyze a conversation and update the user's structured memory.\n\nCurrent memory state:\n```json\n"@
}

/// What the model is told after the memory.
pub open spec fn instructions_tail() -> Seq<char> {
    "\n```\n\nInstructions:\n1. Extract any new user preferences, key decisions, project context, reusable lessons, unresolved loops, helpful command patterns, or important facts from the conversation.\n2. Return ONLY the changes needed — do not repeat unchanged facts.\n3. Update user_context if the user reveals preferences, background, or working style. Omit user_context from your response if it hasn't changed. Set to null to clear it.\n4. Return ONLY valid JSON matching this schema (no markdown fences, no explanation):\n\n{\"user_context\": \"string or null (omit if unchanged)\", \"update_facts\": [{\"key\": \"short_label\", \"value\": \"content\"}], \"delete_facts\": [\"key_to_remove\"], \"update_lessons\": [{\"title\": \"short title\", \"when_to_apply\": \"situation\", \"recommendation\": \"what to do\", \"scope\": \"repo|tool|workflow|general\", \"confidence\": \"low|medium|high\"}], \"delete_lessons\": [\"lesson title\"], \"update_open_loops\": [{\"goal\": \"unfinished goal\", \"blocker\": \"what is stuck\", \"next_step\": \"best next step\", \"status\": \"open|in_progress|resolved\"}], \"delete_open_loops\": [\"goal\"], \"update_command_patterns\": [{\"signature\": \"command or tool pattern\", \"purpose\": \"why it helps\", \"outcome\": \"what happened\", \"confidence\": \"low|medium|high\"}], \"delete_command_patterns\": [\"signature\"], \"update_project_signals\": [{\"key\": \"short_label\", \"value\": \"project signal\"}], \"delete_project_signals\": [\"key\"]}\n\n- `update_facts`: Stable facts or decisions that do not fit a richer type.\n- `update_lessons`: Reusable guidance inferred from what worked or failed. Store lessons that could help future runs, not one-off narration.\n- `update_open_loops`: Unresolved tasks, blockers, or follow-up items that may matter later. Mark `status` as `resolved` only when the conversation clearly closes the loop.\n- `update_command_patterns`: Commands or tool usage patterns that proved useful, risky, or diagnostic in this workspace.\n- `update_project_signals`: Stable project anchors such as build systems, entrypoints, test commands, or important file locations.\n- Only delete when you are certain the old entry is outdated or contradicted.\n- If there is nothing meaningful to extract, return: {\"update_facts\": [], \"delete_facts\": []}\nKeep all entries concise. Do not store ephemeral task chatter; prefer stable, reusable knowledge.\nKeep durable knowledge only; skip ephemeral task details."@
}

/// The messages that ask for the update of a memory, written as JSON.
pub open spec fn update_messages(memory_json: Seq<char>, excerpt: Seq<char>) -> Seq<MessageView> {
    seq![
        plain_message("system"@, instructions_head() + memory_json + instructions_tail()),
        plain_message("user"@, "Conversation to analyze:\n\n"@ + excerpt),
    ]
}

/// How an update begins.
#[derive(Debug)]
pub enum MemoryUpdateStart {
    /// There is nothing to ask.
    Nothing(MemoryProcessStats),
    /// The model is asked with these messages.
    Ask(Vec<ChatMessage>),
}

/// Begins an update: what the model is asked about a conversation, unless the
/// excerpt is blank. `existing_json` is the memory written as JSON.
pub fn begin_memory_update(
    existing: &StructuredMemory,
    existing_json: &str,
    conversation: &Vec<ChatMessage>,
) -> (r: MemoryUpdateStart)
    requires
        memory_entries(existing@) <= usize::MAX,
    ensures
        ({
            let excerpt = excerpt_of(messages_view(conversation@));
            match r {
                MemoryUpdateStart::Nothing(stats) => trimmed(excerpt).len() == 0 && stats
                    == stats_of(existing@, existing@, excerpt.len() as usize, false, None),
                MemoryUpdateStart::Ask(messages) => trimmed(excerpt).len() > 0 && messages_view(
                    messages@,
                ) == update_messages(existing_json@, excerpt),
            }
        }),
{
    let excerpt = build_conversation_excerpt(conversation);
    let excerpt_chars: usize = char_count(excerpt.as_str());
    if trim(excerpt.as_str()).as_str().is_empty() {
        return MemoryUpdateStart::Nothing(unchanged_stats(existing, excerpt_chars, None));
    }
    let prompt = concat3(
        "You are a memory extraction assistant. Your task is to analyze a conversation and update the user's structured memory.\n\nCurrent memory state:\n```json\n",
        existing_json,
        "\n```\n\nInstructions:\n1. Extract any new user preferences, key decisions, project context, reusable lessons, unresolved loops, helpful command patterns, or important facts from the conversation.\n2. Return ONLY the changes needed — do not repeat unchanged facts.\n3. Update user_context if the user reveals preferences, background, or working style. Omit user_context from your response if it hasn't changed. Set to null to clear it.\n4. Return ONLY valid JSON matching this schema (no markdown fences, no explanation):\n\n{\"user_context\": \"string or null (omit if unchanged)\", \"update_facts\": [{\"key\": \"short_label\", \"value\": \"content\"}], \"delete_facts\": [\"key_to_remove\"], \"update_lessons\": [{\"title\": \"short title\", \"when_to_apply\": \"situation\", \"recommendation\": \"what to do\", \"scope\": \"repo|tool|workflow|general\", \"confidence\": \"low|medium|high\"}], \"delete_lessons\": [\"lesson title\"], \"update_open_loops\": [{\"goal\": \"unfinished goal\", \"blocker\": \"what is stuck\", \"next_step\": \"best next step\", \"status\": \"open|in_progress|resolved\"}], \"delete_open_loops\": [\"goal\"], \"update_command_patterns\": [{\"signature\": \"command or tool pattern\", \"purpose\": \"why it helps\", \"outcome\": \"what happened\", \"confidence\": \"low|medium|high\"}], \"delete_command_patterns\": [\"signature\"], \"update_project_signals\": [{\"key\": \"short_label\", \"value\": \"project signal\"}], \"delete_project_signals\": [\"key\"]}\n\n- `update_facts`: Stable facts or decisions that do not fit a richer type.\n- `update_lessons`: Reusable guidance inferred from what worked or failed. Store lessons that could help future runs, not one-off narration.\n- `update_open_loops`: Unresolved tasks, blockers, or follow-up items that may matter later. Mark `status` as `resolved` only when the conversation clearly closes the loop.\n- `update_command_patterns`: Commands or tool usage patterns that proved useful, risky, or diagnostic in this workspace.\n- `update_project_signals`: Stable project anchors such as build systems, entrypoints, test commands, or important file locations.\n- Only delete when you are certain the old entry is outdated or contradicted.\n- If there is nothing meaningful to extract, return: {\"update_facts\": [], \"delete_facts\": []}\nKeep all entries concise. Do not store ephemeral task chatter; prefer stable, reusable knowledge.\nKeep durable knowledge only; skip ephemeral task details.",
    );
    let mut request = owned("Conversation to analyze:\n\n");
    request.append(excerpt.as_str());
    let mut messages: Vec<ChatMessage> = Vec::new();
    messages.push(text_message("system", prompt));
    messages.push(text_message("user", request));
    assert(messages_view(messages@) =~= update_messages(
        existing_json@,
        excerpt_of(messages_view(conversation@)),
    ));
    MemoryUpdateStart::Ask(messages)
}

fn same_list<T: Compared>(a: &Vec<T>, b: &Vec<T>) -> (r: bool)
    ensures
        r == (all_seen(a@) == all_seen(b@)),
{
    if a.len() != b.len() {
        assert(all_seen(a@).len() != all_seen(b@).len());
        return false;
    }
    let mut i: usize = 0;
    while i < a.len()
        invariant
            a@.len() == b@.len(),
            i <= a@.len(),
            forall|j: int| 0 <= j < i ==> (#[trigger] a@[j]).seen() == b@[j].seen(),
        decreases a@.len() - i,
    {
        if !a[i].says_same(&b[i]) {
            assert(all_seen(a@)[i as int] != all_seen(b@)[i as int]);
            return false;
        }
        i = i + 1;
    }
    assert(all_seen(a@) =~= all_seen(b@));
    true
}

/// Records that can be compared.
pub trait Compared: Remembered {
    /// Whether two records are the same.
    fn says_same(&self, other: &Self) -> (r: bool)
        ensures
            r == (self.seen() == other.seen()),
    ;

    /// A copy of the record.
    fn duplicate(&self) -> (r: Self)
        ensures
            r.seen() == self.seen(),
    ;
}

impl Compared for MemoryFact {
    fn says_same(&self, other: &Self) -> (r: bool) {
        same(self.key.as_str(), other.key.as_str()) && same(
            self.value.as_str(),
            other.value.as_str(),
        ) && self.recorded_at == other.recorded_at
    }

    fn duplicate(&self) -> (r: Self) {
        MemoryFact {
            key: self.key.clone(),
            value: self.value.clone(),
            recorded_at: self.recorded_at,
        }
    }
}

impl Compared for MemoryLesson {
    fn says_same(&self, other: &Self) -> (r: bool) {
        same(self.title.as_str(), other.title.as_str()) && same(
            self.when_to_apply.as_str(),
            other.when_to_apply.as_str(),
        ) && same(self.recommendation.as_str(), other.recommendation.as_str()) && same(
            self.scope.as_str(),
            other.scope.as_str(),
        ) && self.confidence == other.confidence && self.last_seen_at == other.last_seen_at
    }

    fn duplicate(&self) -> (r: Self) {
        MemoryLesson {
            title: self.title.clone(),
            when_to_apply: self.when_to_apply.clone(),
            recommendation: self.recommendation.clone(),
            scope: self.scope.clone(),
            confidence: self.confidence,
            last_seen_at: self.last_seen_at,
        }
    }
}

impl Compared for OpenLoop {
    fn says_same(&self, other: &Self) -> (r: bool) {
        same(self.goal.as_str(), other.goal.as_str()) && same(
            self.blocker.as_str(),
            other.blocker.as_str(),
        ) && same(self.next_step.as_str(), other.next_step.as_str()) && self.status
            == other.status && self.updated_at == other.updated_at
    }

    fn duplicate(&self) -> (r: Self) {
        OpenLoop {
            goal: self.goal.clone(),
            blocker: self.blocker.clone(),
            next_step: self.next_step.clone(),
            status: self.status,
            updated_at: self.updated_at,
        }
    }
}

impl Compared for CommandPattern {
    fn says_same(&self, other: &Self) -> (r: bool) {
        same(self.signature.as_str(), other.signature.as_str()) && same(
            self.purpose.as_str(),
            other.purpose.as_str(),
        ) && same(self.outcome.as_str(), other.outcome.as_str()) && self.confidence
            == other.confidence && self.last_seen_at == other.last_seen_at
    }

    fn duplicate(&self) -> (r: Self) {
        CommandPattern {
            signature: self.signature.clone(),
            purpose: self.purpose.clone(),
            outcome: self.outcome.clone(),
            confidence: self.confidence,
            last_seen_at: self.last_seen_at,
        }
    }
}

impl Compared for ProjectSignal {
    fn says_same(&self, other: &Self) -> (r: bool) {
        same(self.key.as_str(), other.key.as_str()) && same(
            self.value.as_str(),
            other.value.as_str(),
        ) && self.recorded_at == other.recorded_at
    }

    fn duplicate(&self) -> (r: Self) {
        ProjectSignal {
            key: self.key.clone(),
            value: self.value.clone(),
            recorded_at: self.recorded_at,
        }
    }
}

fn copy_list<T: Compared>(v: &Vec<T>) -> (r: Vec<T>)
    ensures
        all_seen(r@) == all_seen(v@),
{
    let mut r: Vec<T> = Vec::new();
    let mut i: usize = 0;
    while i < v.len()
        invariant
            i <= v@.len(),
            r@.len() == i,
            forall|j: int| 0 <= j < i ==> (#[trigger] r@[j]).seen() == v@[j].seen(),
        decreases v@.len() - i,
    {
        r.push(v[i].duplicate());
        i = i + 1;
    }
    assert(all_seen(r@) =~= all_seen(v@));
    r
}

proof fn lemma_seen_memory(m: StructuredMemory)
    ensures
        all_seen(m.facts@) == m@.facts,
        all_seen(m.lessons@) == m@.lessons,
        all_seen(m.open_loops@) == m@.open_loops,
        all_seen(m.command_patterns@) == m@.command_patterns,
        all_seen(m.project_signals@) == m@.project_signals,
{
    assert(all_seen(m.facts@) =~= m@.facts);
    assert(all_seen(m.lessons@) =~= m@.lessons);
    assert(all_seen(m.open_loops@) =~= m@.open_loops);
    assert(all_seen(m.command_patterns@) =~= m@.command_patterns);
    assert(all_seen(m.project_signals@) =~= m@.project_signals);
}

impl StructuredMemory {
    /// A copy of this memory.
    pub fn copy(&self) -> (r: StructuredMemory)
        ensures
            r@ == self@,
    {
        let r = StructuredMemory {
            user_context: clone_opt(&self.user_context),
            facts: copy_list(&self.facts),
            lessons: copy_list(&self.lessons),
            open_loops: copy_list(&self.open_loops),
            command_patterns: copy_list(&self.command_patterns),
            project_signals: copy_list(&self.project_signals),
            updated_at: self.updated_at,
        };
        proof {
            lemma_seen_memory(*self);
            lemma_seen_memory(r);
        }
        r
    }

    /// Whether two memories hold the same.
    pub fn says_same(&self, other: &StructuredMemory) -> (r: bool)
        ensures
            r == (self@ == other@),
    {
        proof {
            lemma_seen_memory(*self);
            lemma_seen_memory(*other);
        }
        same_opt(&self.user_context, &other.user_context) && same_list(&self.facts, &other.facts)
            && same_list(&self.lessons, &other.lessons) && same_list(
            &self.open_loops,
            &other.open_loops,
        ) && same_list(&self.command_patterns, &other.command_patterns) && same_list(
            &self.project_signals,
            &other.project_signals,
        ) && self.updated_at == other.updated_at
    }
}

/// The memory after a report, without its time.
pub open spec fn memory_after(m: MemoryView, raw: JsonView, now: u64) -> MemoryView {
    capped_memory(merged_memory(m, raw, now))
}

/// The memory that is written after a report: its time moves only where
/// something changed.
pub open spec fn updated_memory(m: MemoryView, raw: JsonView, now: u64) -> MemoryView {
    if memory_after(m, raw, now) == m {
        m
    } else {
        MemoryView { updated_at: now, ..memory_after(m, raw, now) }
    }
}

/// Applies a report to the memory and says what it did. The time of the memory
/// moves, and the memory is due to be written, only where something changed.
pub fn apply_memory_report(
    memory: &mut StructuredMemory,
    raw: &Json,
    excerpt_chars: usize,
    usage: MemoryUsage,
    now: u64,
) -> (r: MemoryProcessStats)
    requires
        memory_entries(old(memory)@) <= usize::MAX,
    ensures
        final(memory)@ == updated_memory(old(memory)@, raw@, now),
        r == stats_of(
            old(memory)@,
            memory_after(old(memory)@, raw@, now),
            excerpt_chars,
            memory_after(old(memory)@, raw@, now) != old(memory)@,
            Some(usage),
        ),
{
    let before = memory.copy();
    merge_llm_response_into_memory(memory, raw, now);
    proof {
        law_capped_memory_bounded(memory@);
    }
    cap_memory(memory);
    let changed: bool = !memory.says_same(&before);
    let stats = MemoryProcessStats {
        excerpt_chars,
        facts_before: before.facts.len(),
        facts_after: memory.facts.len(),
        entries_before: before.entry_count(),
        entries_after: memory.entry_count(),
        had_user_context_before: before.user_context.is_some(),
        had_user_context_after: memory.user_context.is_some(),
        changed,
        usage: Some(usage),
    };
    if changed {
        memory.updated_at = now;
    }
    stats
}

/// What the reply of the model does: nothing where it is blank, an error where
/// its JSON cannot be read, else what it reports.
pub open spec fn reply_outcome(
    m: MemoryView,
    blank: bool,
    parsed: Result<JsonView, Seq<char>>,
    excerpt_chars: usize,
    usage: MemoryUsage,
    now: u64,
) -> (MemoryView, Result<MemoryProcessStats, Seq<char>>) {
    if blank {
        (m, Ok(stats_of(m, m, excerpt_chars, false, Some(usage))))
    } else {
        match parsed {
            Err(e) => (m, Err("parse LLM response: "@ + e)),
            Ok(raw) => (
                updated_memory(m, raw, now),
                Ok(
                    stats_of(
                        m,
                        memory_after(m, raw, now),
                        excerpt_chars,
                        memory_after(m, raw, now) != m,
                        Some(usage),
                    ),
                ),
            ),
        }
    }
}

/// Takes in the reply of the model. `unfenced` is the trimmed reply without a
/// code fence around it.
pub fn process_memory_update(
    memory: &mut StructuredMemory,
    reply: &str,
    unfenced: &str,
    excerpt_chars: usize,
    usage: MemoryUsage,
    now: u64,
) -> (r: Result<MemoryProcessStats, String>)
    requires
        memory_entries(old(memory)@) <= usize::MAX,
    ensures
        ({
            let (after, result) = reply_outcome(
                old(memory)@,
                trimmed(reply@).len() == 0,
                json_parsed(unfenced@),
                excerpt_chars,
                usage,
                now,
            );
            final(memory)@ == after && match r {
                Ok(stats) => result == Ok::<MemoryProcessStats, Seq<char>>(stats),
                Err(e) => result == Err::<MemoryProcessStats, Seq<char>>(e@),
            }
        }),
{
    if trim(reply).as_str().is_empty() {
        return Ok(unchanged_stats(memory, excerpt_chars, Some(usage)));
    }
    match parse(unfenced) {
        Err(e) => {
            let mut text = owned("parse LLM response: ");
            text.append(e.as_str());
            Err(text)
        },
        Ok(raw) => Ok(apply_memory_report(memory, &raw, excerpt_chars, usage, now)),
    }
}

/// Whatever the reply, the memory changes only where the update succeeds and
/// says so, and a memory that changed carries the time of the change.
pub proof fn law_update_keeps_time(
    m: MemoryView,
    blank: bool,
    parsed: Result<JsonView, Seq<char>>,
    excerpt_chars: usize,
    usage: MemoryUsage,
    now: u64,
)
    ensures
        ({
            let (after, result) = reply_outcome(m, blank, parsed, excerpt_chars, usage, now);
            after != m ==> result is Ok && result->Ok_0.changed && after.updated_at == now
        }),
{
}

} // verus!
