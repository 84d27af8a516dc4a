//! The basic-auth publish endpoint: an older API surface that delivers an
//! issue inline to every confirmed subscriber instead of enqueueing outbox
//! work. Credential checking (a key-derivation function over stored hashes)
//! happens outside; the delivery decisions on the subscriber table are
//! verified here.

use vstd::prelude::*;

use crate::domain::{email_is_valid, email_valid};
use crate::store::{Store, SubscriberModel};
use crate::worker::{EmailLog, SentEmail, SentEmailModel};

verus! {

/// The issue content of the publish request body.
pub struct Content {
    pub html: String,
    pub text: String,
}

/// The publish request body.
pub struct BodyData {
    pub title: String,
    pub content: Content,
}

/// The mathematical image of the request body.
pub struct BodyDataModel {
    pub title: Seq<char>,
    pub html: Seq<char>,
    pub text: Seq<char>,
}

impl View for BodyData {
    type V = BodyDataModel;

    open spec fn view(&self) -> BodyDataModel {
        BodyDataModel {
            title: self.title@,
            html: self.content.html@,
            text: self.content.text@,
        }
    }
}

/// The sends an inline publish records: one per confirmed subscriber whose
/// stored address still parses, in table order. A subscriber whose address
/// no longer parses is skipped, never a reason to fail the request.
pub open spec fn inline_sends(subs: Seq<SubscriberModel>, body: BodyDataModel) -> Seq<
    SentEmailModel,
>
    decreases subs.len(),
{
    if subs.len() == 0 {
        Seq::empty()
    } else {
        let head = inline_sends(subs.drop_last(), body);
        if subs.last().confirmed && email_valid(subs.last().email) {
            head.push(
                SentEmailModel {
                    recipient: subs.last().email,
                    subject: body.title,
                    html: body.html,
                    text: body.text,
                },
            )
        } else {
            head
        }
    }
}

/// Delivers the issue inline to every confirmed subscriber, skipping any
/// whose stored address no longer parses, and reports how many sends were
/// made. The caller has already authenticated the request.
pub fn publish_newsletter(store: &Store, mail: &mut EmailLog, body: &BodyData) -> (n: usize)
    ensures
        final(mail)@ == old(mail)@ + inline_sends(store@.subscribers, body@),
        n == inline_sends(store@.subscribers, body@).len(),
{
    let ghost subs = store@.subscribers;
    let ghost mail0 = old(mail)@;
    let total = store.subscribers.len();
    let mut sent: usize = 0;
    let mut i: usize = 0;
    while i < total
        invariant
            i <= total,
            sent <= i,
            total == store.subscribers.len(),
            mail@ == mail0 + inline_sends(subs.take(i as int), body@),
            sent == inline_sends(subs.take(i as int), body@).len(),
        decreases total - i,
    {
        let ghost t = i as int;
        if store.subscribers[i].confirmed && email_is_valid(store.subscribers[i].email.as_str()) {
            let ghost mail_prev = mail@;
            mail.sent.push(
                SentEmail {
                    recipient: store.subscribers[i].email.clone(),
                    subject: body.title.clone(),
                    html: body.content.html.clone(),
                    text: body.content.text.clone(),
                },
            );
            sent = sent + 1;
            proof {
                assert(mail@ =~= mail_prev.push(
                    SentEmailModel {
                        recipient: subs[t].email,
                        subject: body@.title,
                        html: body@.html,
                        text: body@.text,
                    },
                ));
            }
        }
        i = i + 1;
        proof {
            assert(subs.take(t + 1).drop_last() =~= subs.take(t));
            assert(subs.take(t + 1).last() == subs[t]);
            assert(mail@ =~= mail0 + inline_sends(subs.take(t + 1), body@));
        }
    }
    proof {
        assert(subs.take(total as int) =~= subs);
    }
    sent
}

} // verus!
