//! The Worker Loop's decisions as a total state machine: which step to take
//! next for the job in custody, given what the last step reported. The loop
//! that performs the steps (queue receive, tool invocation, file rewrite)
//! lives outside the library and only feeds events back in.

use vstd::prelude::*;

verus! {

/// Where the worker stands with the job currently in custody.
#[derive(Clone, Copy, Debug)]
pub enum Phase {
    /// No job in custody; waiting on the queue.
    Idle,
    /// A job was dequeued; its metadata is wanted next.
    Dequeued,
    /// Metadata in hand; the medium is wanted next.
    MetadataFetched,
    /// The medium is on disk; the feed append is wanted next.
    MediaFetched,
    /// The feed document holds the new item; the acknowledgment is owed.
    Appended,
    /// The job was fully processed and acknowledged.
    Acked,
    /// A step failed; the job is abandoned, its cause logged, and the
    /// acknowledgment still owed (the baseline discards rather than retries).
    Failed,
}

/// What the last performed step reported.
#[derive(Clone, Copy, Debug)]
pub enum Event {
    JobArrived,
    MetadataOk,
    MetadataFailed,
    MediaOk,
    MediaFailed,
    AppendOk,
    AppendFailed,
    AckConfirmed,
}

/// What the loop is told to do next.
#[derive(Clone, Copy, Debug)]
pub enum Action {
    AwaitJob,
    FetchMetadata,
    FetchMedia,
    AppendItem,
    /// Acknowledge the job in custody; after `Failed` this abandons it.
    Ack,
    /// The event does not belong to the phase: do nothing, keep the phase.
    Ignore,
}

/// The whole transition table. Every failure edge leads to `Failed` with the
/// acknowledgment as the next action; no pair of phase and event is left
/// without an answer, so no report can halt the machine.
pub open spec fn step_spec(p: Phase, e: Event) -> (Phase, Action) {
    match (p, e) {
        (Phase::Idle, Event::JobArrived) => (Phase::Dequeued, Action::FetchMetadata),
        (Phase::Acked, Event::JobArrived) => (Phase::Dequeued, Action::FetchMetadata),
        (Phase::Dequeued, Event::MetadataOk) => (Phase::MetadataFetched, Action::FetchMedia),
        (Phase::Dequeued, Event::MetadataFailed) => (Phase::Failed, Action::Ack),
        (Phase::MetadataFetched, Event::MediaOk) => (Phase::MediaFetched, Action::AppendItem),
        (Phase::MetadataFetched, Event::MediaFailed) => (Phase::Failed, Action::Ack),
        (Phase::MediaFetched, Event::AppendOk) => (Phase::Appended, Action::Ack),
        (Phase::MediaFetched, Event::AppendFailed) => (Phase::Failed, Action::Ack),
        (Phase::Appended, Event::AckConfirmed) => (Phase::Acked, Action::AwaitJob),
        (Phase::Failed, Event::AckConfirmed) => (Phase::Idle, Action::AwaitJob),
        (_, _) => (p, Action::Ignore),
    }
}

/// One decision of the worker loop.
pub fn step(p: Phase, e: Event) -> (r: (Phase, Action))
    ensures
        r == step_spec(p, e),
{
    match (p, e) {
        (Phase::Idle, Event::JobArrived) => (Phase::Dequeued, Action::FetchMetadata),
        (Phase::Acked, Event::JobArrived) => (Phase::Dequeued, Action::FetchMetadata),
        (Phase::Dequeued, Event::MetadataOk) => (Phase::MetadataFetched, Action::FetchMedia),
        (Phase::Dequeued, Event::MetadataFailed) => (Phase::Failed, Action::Ack),
        (Phase::MetadataFetched, Event::MediaOk) => (Phase::MediaFetched, Action::AppendItem),
        (Phase::MetadataFetched, Event::MediaFailed) => (Phase::Failed, Action::Ack),
        (Phase::MediaFetched, Event::AppendOk) => (Phase::Appended, Action::Ack),
        (Phase::MediaFetched, Event::AppendFailed) => (Phase::Failed, Action::Ack),
        (Phase::Appended, Event::AckConfirmed) => (Phase::Acked, Action::AwaitJob),
        (Phase::Failed, Event::AckConfirmed) => (Phase::Idle, Action::AwaitJob),
        (p2, _) => (p2, Action::Ignore),
    }
}

/// A failing step never halts the worker: whatever phase it strikes, the
/// machine moves to `Failed` (or stands still) and the job in custody is
/// still acknowledged, after which the machine is back at `Idle` awaiting
/// the next job.
pub proof fn lemma_failure_acknowledged(p: Phase, e: Event)
    requires
        e is MetadataFailed || e is MediaFailed || e is AppendFailed,
    ensures
        !(p is Failed) && step_spec(p, e).0 is Failed ==> step_spec(p, e).1 is Ack,
        !(step_spec(p, e).0 is Failed) ==> step_spec(p, e) == (p, Action::Ignore),
        step_spec(Phase::Failed, Event::AckConfirmed) == (Phase::Idle, Action::AwaitJob),
{
}

/// The chat front-end's administrative commands, outside the download core.
pub enum ChatCommand {
    Help,
    Start,
    Get { text: String },
}

/// The help text listing the supported commands.
pub open spec fn help_text() -> Seq<char> {
    "These are the supported commands:\n/help - display this text.\n/start - start the bot.\n/get - gets the given url."@
}

/// The fixed reply to each administrative command: the help text, the
/// greeting, or the echoed argument.
pub fn command_reply(cmd: &ChatCommand) -> (r: String)
    ensures
        match cmd {
            ChatCommand::Help => r@ == help_text(),
            ChatCommand::Start => r@ == "Welcome to the Rust Telegram bot!"@,
            ChatCommand::Get { text } => r@ == text@,
        },
{
    match cmd {
        ChatCommand::Help => "These are the supported commands:\n/help - display this text.\n/start - start the bot.\n/get - gets the given url.".to_owned(),
        ChatCommand::Start => "Welcome to the Rust Telegram bot!".to_owned(),
        ChatCommand::Get { text } => text.clone(),
    }
}

} // verus!
