use hls_bot::feed::{append_to_document, build_feed_item};
use hls_bot::intake::{submit, Submission};
use hls_bot::metadata::{media_filename, metadata_outcome, ExecError};
use hls_bot::queue::QueueModel;
use hls_bot::wire::{decode_job, Job};
use hls_bot::worker::{command_reply, step, Action, ChatCommand, Event, Phase};

#[test]
fn end_to_end_accepted_url_reaches_the_feed() {
    let r = submit("https://www.youtube.com/watch?v=abc123", "42");
    let payload = match r {
        Submission::Accepted { payload, .. } => payload,
        Submission::Ignored { .. } => panic!("the URL must be accepted"),
    };
    assert_eq!(
        payload,
        "{\"url\":\"https://www.youtube.com/watch?v=abc123\",\"user_id\":\"42\"}"
    );

    let job = decode_job(&payload).unwrap();
    assert_eq!(job.user_id, "42");

    let meta = metadata_outcome(true, "{\"title\":\"Sample\",\"uploader\":\"Bob\"}", "").unwrap();
    let file = media_filename(&meta);
    assert_eq!(file, "Sample.mp4");

    let it = build_feed_item(&job, &meta, &file, "Thu, 01 Jan 1970 00:00:00 +0000");
    let doc = append_to_document(None, &it).unwrap();
    assert!(doc.contains("<title>Sample</title>"));
    assert!(doc.contains("<itunes:author>Bob</itunes:author>"));
    assert!(doc.contains("length=\"0\""));
    assert!(doc.contains("<itunes:duration>0</itunes:duration>"));
    assert!(doc.contains("<guid>https://www.youtube.com/watch?v=abc123</guid>"));
    assert_eq!(doc.matches("<item>").count(), 1);
}

fn job(url: &str, user_id: &str) -> Job {
    Job { url: String::from(url), user_id: String::from(user_id) }
}

#[test]
fn unacknowledged_delivery_is_redelivered_after_connection_loss() {
    let mut q = QueueModel::new();
    q.declare();
    q.publish(job("https://youtube.com/a", "1"));
    q.publish(job("https://youtube.com/b", "2"));

    let (_tag, first) = q.deliver().unwrap();
    assert_eq!(first.url, "https://youtube.com/a");

    // The consumer dies without acknowledging; the broker requeues.
    q.recover();

    let mut seen = Vec::new();
    while let Some((tag, j)) = q.deliver() {
        seen.push(j.url.clone());
        assert!(q.ack(tag));
    }
    assert!(seen.contains(&String::from("https://youtube.com/a")));
    assert!(seen.contains(&String::from("https://youtube.com/b")));
}

#[test]
fn acknowledged_delivery_is_gone_for_good() {
    let mut q = QueueModel::new();
    q.publish(job("https://youtube.com/a", "1"));
    let (tag, _j) = q.deliver().unwrap();
    assert!(q.ack(tag));
    assert!(!q.ack(tag), "a discharged tag is unknown");
    q.recover();
    assert!(q.deliver().is_none(), "an acknowledged job never comes back");
}

#[test]
fn empty_queue_delivers_nothing() {
    let mut q = QueueModel::new();
    assert!(q.deliver().is_none());
}

#[test]
fn worker_happy_path_ends_acknowledged() {
    let (p, a) = step(Phase::Idle, Event::JobArrived);
    assert!(matches!((p, a), (Phase::Dequeued, Action::FetchMetadata)));
    let (p, a) = step(p, Event::MetadataOk);
    assert!(matches!((p, a), (Phase::MetadataFetched, Action::FetchMedia)));
    let (p, a) = step(p, Event::MediaOk);
    assert!(matches!((p, a), (Phase::MediaFetched, Action::AppendItem)));
    let (p, a) = step(p, Event::AppendOk);
    assert!(matches!((p, a), (Phase::Appended, Action::Ack)));
    let (p, a) = step(p, Event::AckConfirmed);
    assert!(matches!((p, a), (Phase::Acked, Action::AwaitJob)));
    let (p, a) = step(p, Event::JobArrived);
    assert!(matches!((p, a), (Phase::Dequeued, Action::FetchMetadata)));
}

#[test]
fn metadata_failure_still_acknowledges_and_the_loop_survives() {
    // The tool exits non-zero: the job is abandoned with a cause ...
    let r = metadata_outcome(false, "", "network unreachable");
    assert!(matches!(r, Err(ExecError::MetadataFetchFailed { .. })));

    // ... and the machine acknowledges and returns to waiting, it never halts.
    let (p, a) = step(Phase::Dequeued, Event::MetadataFailed);
    assert!(matches!((p, a), (Phase::Failed, Action::Ack)));
    let (p, a) = step(p, Event::AckConfirmed);
    assert!(matches!((p, a), (Phase::Idle, Action::AwaitJob)));
}

#[test]
fn media_and_append_failures_take_the_same_path() {
    let (p, a) = step(Phase::MetadataFetched, Event::MediaFailed);
    assert!(matches!((p, a), (Phase::Failed, Action::Ack)));
    let (p, a) = step(Phase::MediaFetched, Event::AppendFailed);
    assert!(matches!((p, a), (Phase::Failed, Action::Ack)));
    assert!(matches!(a, Action::Ack));
}

#[test]
fn stray_events_are_ignored_in_place() {
    let (p, a) = step(Phase::Idle, Event::MediaOk);
    assert!(matches!(p, Phase::Idle));
    assert!(matches!(a, Action::Ignore));
}

#[test]
fn command_replies_are_fixed() {
    assert_eq!(
        command_reply(&ChatCommand::Start),
        "Welcome to the Rust Telegram bot!"
    );
    assert_eq!(
        command_reply(&ChatCommand::Get { text: String::from("https://youtube.com/x") }),
        "https://youtube.com/x"
    );
    assert!(command_reply(&ChatCommand::Help).contains("supported commands"));
}
