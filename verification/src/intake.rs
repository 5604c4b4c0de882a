//! Job Intake: decides whether a chat message is a download request (an
//! absolute URL on a recognized host), and builds the job, its queue payload,
//! and the chat reply. All other text is ignored and echoed back.

use vstd::prelude::*;

verus! {

use crate::wire::Job;
use crate::wire::enc_spec;
use crate::wire::encode_job;
use vstd::string::StringExecFns;

/// What parsing the text as an absolute URL finds as its host: a function of
/// the text alone. `None` where the text is no absolute URL or has no host.
pub uninterp spec fn parsed_host(text: Seq<char>) -> Option<Seq<char>>;

/// Relies on url's `Url::parse` and `Url::host_str`: both are deterministic
/// in the text, so the host found is a function of the text alone.
#[verifier::external_body]
fn url_host(text: &str) -> (r: Option<String>)
    ensures
        match r {
            Some(h) => parsed_host(text@) == Some(h@),
            None => parsed_host(text@) is None,
        },
{
    match url::Url::parse(text) {
        Ok(u) => u.host_str().map(|h| h.to_string()),
        Err(_) => None,
    }
}

/// The allow-list of recognized content hosts.
pub open spec fn recognized_host(h: Seq<char>) -> bool {
    h == "www.youtube.com"@ || h == "youtube.com"@
}

/// True iff intake accepts the text: it parses as an absolute URL whose host
/// is on the allow-list.
pub open spec fn accepted_input(text: Seq<char>) -> bool {
    match parsed_host(text) {
        Some(h) => recognized_host(h),
        None => false,
    }
}

fn host_is_recognized(h: &String) -> (r: bool)
    ensures
        r == recognized_host(h@),
{
    let a = "www.youtube.com".to_owned();
    if h.eq(&a) {
        return true;
    }
    let b = "youtube.com".to_owned();
    h.eq(&b)
}

/// The confirmation sent back for an accepted request.
pub open spec fn confirm_reply(text: Seq<char>) -> Seq<char> {
    "YouTube URL added to queue: "@ + text
}

/// The echo sent back for ordinary conversation.
pub open spec fn echo_reply(text: Seq<char>) -> Seq<char> {
    "You said: "@ + text
}

/// The outcome of one submission.
pub enum Submission {
    /// A recognized download request: the job, its queue payload, and the
    /// confirmation to send once the payload is published. The caller must
    /// not send the confirmation if publishing fails.
    Accepted { job: Job, payload: String, reply: String },
    /// Ordinary conversation: the echo to send back; nothing is published.
    Ignored { reply: String },
}

/// Builds the submission outcome from the text and the host that URL parsing
/// found in it. Accepts exactly the texts whose host is on the allow-list;
/// on acceptance the payload is the canonical encoding of the job.
pub fn classify(text: &str, requester_id: &str, host: Option<String>) -> (r: Submission)
    ensures
        match r {
            Submission::Accepted { job, payload, reply } => {
                &&& (match host {
                    Some(h) => recognized_host(h@),
                    None => false,
                })
                &&& job.url@ == text@
                &&& job.user_id@ == requester_id@
                &&& payload@ == enc_spec(text@, requester_id@)
                &&& reply@ == confirm_reply(text@)
            },
            Submission::Ignored { reply } => {
                &&& (match host {
                    Some(h) => !recognized_host(h@),
                    None => true,
                })
                &&& reply@ == echo_reply(text@)
            },
        },
{
    let ok = match &host {
        Some(h) => host_is_recognized(h),
        None => false,
    };
    if ok {
        let job = Job { url: text.to_owned(), user_id: requester_id.to_owned() };
        let payload = encode_job(&job);
        let mut reply = "YouTube URL added to queue: ".to_owned();
        reply.append(text);
        Submission::Accepted { job, payload, reply }
    } else {
        let mut reply = "You said: ".to_owned();
        reply.append(text);
        Submission::Ignored { reply }
    }
}

/// Job Intake's whole decision: parses the text and accepts it iff its host
/// is recognized; exactly then does the result carry a queue payload, and
/// that payload names this url and this requester and nothing else.
pub fn submit(text: &str, requester_id: &str) -> (r: Submission)
    ensures
        match r {
            Submission::Accepted { job, payload, reply } => {
                &&& accepted_input(text@)
                &&& job.url@ == text@
                &&& job.user_id@ == requester_id@
                &&& payload@ == enc_spec(text@, requester_id@)
                &&& reply@ == confirm_reply(text@)
            },
            Submission::Ignored { reply } => {
                &&& !accepted_input(text@)
                &&& reply@ == echo_reply(text@)
            },
        },
{
    let host = url_host(text);
    classify(text, requester_id, host)
}

} // verus!
