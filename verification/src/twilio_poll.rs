//! Outbound-only Twilio ingress: inbound messages are pulled from the REST API
//! instead of being pushed to a webhook.
use vstd::prelude::*;

use crate::config::TwilioPollConfig;
use crate::domain::text_of;
use crate::http::{is_status, is_success, status_line, status_text, success};
use crate::text::{blank, holds, is_blank, is_white_space, pairs, same, texts};
use crate::twilio::{command_of, compliance_keyword};

verus! {

// ---------------------------------------------------------------------------
// Fetching
// ---------------------------------------------------------------------------
/// The account that is polled, and the number whose messages are watched.
pub struct TwilioClient {
    pub account_sid: String,
    pub username: String,
    pub password: String,
    pub number: String,
}

#[derive(Debug, PartialEq, Eq)]
pub struct InboundMessage {
    pub sid: String,
    pub body: String,
}

/// A message as Twilio lists it.
#[derive(Debug, PartialEq, Eq)]
pub struct RawMessage {
    pub sid: String,
    pub body: Option<String>,
    pub direction: Option<String>,
}

#[verifier::ext_equal]
pub struct MessageView {
    pub sid: Seq<char>,
    pub body: Seq<char>,
}

#[verifier::ext_equal]
pub struct RawView {
    pub sid: Seq<char>,
    pub body: Option<Seq<char>>,
    pub direction: Option<Seq<char>>,
}

impl View for InboundMessage {
    type V = MessageView;

    open spec fn view(&self) -> MessageView {
        MessageView { sid: self.sid@, body: self.body@ }
    }
}

impl View for RawMessage {
    type V = RawView;

    open spec fn view(&self) -> RawView {
        RawView {
            sid: self.sid@,
            body: text_of(self.body),
            direction: text_of(self.direction),
        }
    }
}

pub open spec fn message_views(messages: Seq<InboundMessage>) -> Seq<MessageView> {
    messages.map_values(|message: InboundMessage| message@)
}

pub open spec fn raw_views(messages: Seq<RawMessage>) -> Seq<RawView> {
    messages.map_values(|message: RawMessage| message@)
}

/// A message that someone sent in, with visible text.
pub open spec fn is_inbound(message: RawView) -> bool {
    message.direction == Some("inbound"@) && (message.body matches Some(body) && !blank(body))
}

/// The inbound messages of a page, in its order.
pub open spec fn inbound_in(page: Seq<RawView>) -> Seq<MessageView>
    decreases page.len(),
{
    if page.len() == 0 {
        Seq::empty()
    } else {
        let before = inbound_in(page.drop_last());
        let message = page.last();
        if is_inbound(message) {
            before.push(MessageView { sid: message.sid, body: message.body->0 })
        } else {
            before
        }
    }
}

/// What Twilio answered to a request for messages.
#[derive(Debug, PartialEq, Eq)]
pub struct MessagesReply {
    pub status: u16,
    pub body: String,
    /// The messages that the body lists, if it is a page of messages.
    pub page: Option<Vec<RawMessage>>,
}

impl TwilioClient {
    pub fn from_config(config: &TwilioPollConfig) -> (res: Self)
        ensures
            res.account_sid@ == config.account_sid@,
            res.username@ == config.auth_username@,
            res.password@ == config.auth_password@,
            res.number@ == config.number@,
    {
        TwilioClient {
            account_sid: config.account_sid.clone(),
            username: config.auth_username.clone(),
            password: config.auth_password.clone(),
            number: config.number.clone(),
        }
    }

    /// Where the account's messages are listed.
    pub fn messages_url(&self) -> (res: String)
        ensures
            res@ == "https://api.twilio.com/2010-04-01/Accounts/"@ + self.account_sid@
                + "/Messages.json"@,
    {
        let mut out = "https://api.twilio.com/2010-04-01/Accounts/".to_owned();
        out.append(self.account_sid.as_str());
        out.append("/Messages.json");
        out
    }

    /// The query that asks for the latest messages to the watched number.
    pub fn messages_query(&self) -> (res: Vec<(String, String)>)
        ensures
            pairs(res@) == seq![("To"@, self.number@), ("PageSize"@, "50"@)],
    {
        let mut out: Vec<(String, String)> = Vec::new();
        out.push(("To".to_owned(), self.number.clone()));
        out.push(("PageSize".to_owned(), "50".to_owned()));
        assert(pairs(out@) =~= seq![("To"@, self.number@), ("PageSize"@, "50"@)]);
        out
    }

    /// The inbound messages of a reply: only those that were sent in, with
    /// visible text. The caller deduplicates by `sid`.
    pub fn fetch_inbound(&self, reply: MessagesReply) -> (res: Result<Vec<InboundMessage>, String>)
        requires
            is_status(reply.status),
        ensures
            match res {
                Ok(messages) => is_success(reply.status) && (reply.page matches Some(page)
                    && message_views(messages@) == inbound_in(raw_views(page@))),
                Err(message) => if is_success(reply.status) {
                    reply.page is None && message@ == "decoding Twilio Messages response"@
                } else {
                    message@ == "Twilio Messages returned HTTP "@ + status_line(reply.status)
                        + ": "@ + reply.body@
                },
            },
    {
        if !success(reply.status) {
            let mut message = "Twilio Messages returned HTTP ".to_owned();
            let line = status_text(reply.status);
            message.append(line.as_str());
            message.append(": ");
            message.append(reply.body.as_str());
            return Err(message);
        }
        match reply.page {
            Some(page) => Ok(inbound_messages(&page)),
            None => Err("decoding Twilio Messages response".to_owned()),
        }
    }
}

fn inbound_messages(page: &Vec<RawMessage>) -> (res: Vec<InboundMessage>)
    ensures
        message_views(res@) == inbound_in(raw_views(page@)),
{
    let ghost all = raw_views(page@);
    let mut out: Vec<InboundMessage> = Vec::new();
    let mut i: usize = 0;
    assert(message_views(out@) =~= inbound_in(all.take(0)));
    while i < page.len()
        invariant
            i <= page@.len(),
            all == raw_views(page@),
            message_views(out@) == inbound_in(all.take(i as int)),
        decreases page@.len() - i,
    {
        let message = &page[i];
        let ghost before = message_views(out@);
        proof {
            assert(all.take(i + 1).drop_last() =~= all.take(i as int));
            assert(all.take(i + 1).last() == message@);
        }
        let sent_in = match &message.direction {
            Some(direction) => same(direction.as_str(), "inbound"),
            None => false,
        };
        if sent_in {
            if let Some(body) = &message.body {
                if !is_blank(body.as_str()) {
                    let inbound = InboundMessage { sid: message.sid.clone(), body: body.clone() };
                    let ghost added = inbound@;
                    out.push(inbound);
                    assert(message_views(out@) =~= before.push(added));
                }
            }
        }
        i += 1;
    }
    assert(all.take(i as int) =~= all);
    out
}

// ---------------------------------------------------------------------------
// Deduplicating
// ---------------------------------------------------------------------------
/// What a poller remembers: the messages it has handled, and whether it has seen
/// the backlog from before it started.
#[derive(Debug, PartialEq, Eq)]
pub struct PollState {
    pub seen: Vec<String>,
    pub baselined: bool,
}

#[verifier::ext_equal]
pub struct PollStateView {
    pub seen: Seq<Seq<char>>,
    pub baselined: bool,
}

impl View for PollState {
    type V = PollStateView;

    open spec fn view(&self) -> PollStateView {
        PollStateView { seen: texts(self.seen@), baselined: self.baselined }
    }
}

/// The identity under which a Twilio message is submitted.
pub open spec fn twilio_submission_id(sid: Seq<char>) -> Seq<char> {
    "twilio-"@ + sid
}

/// The messages that have been handled once these have.
pub open spec fn seen_after(seen: Seq<Seq<char>>, messages: Seq<MessageView>) -> Seq<Seq<char>>
    decreases messages.len(),
{
    if messages.len() == 0 {
        seen
    } else {
        let before = seen_after(seen, messages.drop_last());
        if before.contains(messages.last().sid) {
            before
        } else {
            before.push(messages.last().sid)
        }
    }
}

/// The confessions among some messages, as the text and the identity under which
/// each is submitted: of messages not handled before, the ones that are no
/// carrier commands.
pub open spec fn confessions_in(seen: Seq<Seq<char>>, messages: Seq<MessageView>) -> Seq<
    (Seq<char>, Seq<char>),
>
    decreases messages.len(),
{
    if messages.len() == 0 {
        Seq::empty()
    } else {
        let before = confessions_in(seen, messages.drop_last());
        let message = messages.last();
        if seen_after(seen, messages.drop_last()).contains(message.sid) || command_of(
            message.body,
        ) is Some {
            before
        } else {
            before.push((message.body, twilio_submission_id(message.sid)))
        }
    }
}

/// What a poller does with the messages of one fetch. The first fetch only
/// records the backlog.
pub open spec fn polled(state: PollStateView, messages: Seq<MessageView>) -> (
    PollStateView,
    Seq<(Seq<char>, Seq<char>)>,
) {
    (
        PollStateView { seen: seen_after(state.seen, messages), baselined: true },
        if state.baselined {
            confessions_in(state.seen, messages)
        } else {
            Seq::empty()
        },
    )
}

/// The identity under which a Twilio message is submitted.
pub fn submission_id_for(sid: &str) -> (res: String)
    ensures
        res@ == twilio_submission_id(sid@),
{
    let mut out = "twilio-".to_owned();
    out.append(sid);
    out
}

impl PollState {
    pub fn new() -> (res: Self)
        ensures
            res@ == (PollStateView { seen: Seq::empty(), baselined: false }),
    {
        let res = PollState { seen: Vec::new(), baselined: false };
        assert(res@.seen =~= Seq::empty());
        res
    }

    /// Takes the messages of one successful fetch in; gives the confessions among
    /// them, each as its text and the identity under which it is submitted.
    pub fn accept(&mut self, messages: &Vec<InboundMessage>) -> (res: Vec<(String, String)>)
        ensures
            final(self)@ == polled(old(self)@, message_views(messages@)).0,
            pairs(res@) == polled(old(self)@, message_views(messages@)).1,
    {
        let ghost all = message_views(messages@);
        let ghost start = self@;
        let mut out: Vec<(String, String)> = Vec::new();
        let mut i: usize = 0;
        assert(pairs(out@) =~= confessions_in(start.seen, all.take(0)));
        while i < messages.len()
            invariant
                i <= messages@.len(),
                all == message_views(messages@),
                self@.baselined == start.baselined,
                self@.seen == seen_after(start.seen, all.take(i as int)),
                pairs(out@) == if start.baselined {
                    confessions_in(start.seen, all.take(i as int))
                } else {
                    Seq::empty()
                },
            decreases messages@.len() - i,
        {
            let message = &messages[i];
            let ghost before = pairs(out@);
            let ghost handled = self@.seen;
            proof {
                assert(all.take(i + 1).drop_last() =~= all.take(i as int));
                assert(all.take(i + 1).last() == message@);
            }
            if !holds(self.seen.as_slice(), message.sid.as_str()) {
                self.seen.push(message.sid.clone());
                assert(self@.seen =~= handled.push(message@.sid));
                if self.baselined && compliance_keyword(message.body.as_str()).is_none() {
                    let id = submission_id_for(message.sid.as_str());
                    let ghost added = (message@.body, id@);
                    out.push((message.body.clone(), id));
                    assert(pairs(out@) =~= before.push(added));
                }
            }
            i += 1;
        }
        assert(all.take(i as int) =~= all);
        self.baselined = true;
        out
    }
}

// ---------------------------------------------------------------------------
// Laws
// ---------------------------------------------------------------------------
/// Texts that were sent before the first fetch are never submitted: that fetch
/// submits nothing, and every message in it counts as handled.
pub proof fn law_backlog_is_never_submitted(messages: Seq<MessageView>)
    ensures
        ({
            let (after, confessions) = polled(
                PollStateView { seen: Seq::empty(), baselined: false },
                messages,
            );
            &&& confessions.len() == 0
            &&& after.baselined
            &&& forall|i: int|
                0 <= i < messages.len() ==> after.seen.contains((#[trigger] messages[i]).sid)
        }),
{
    lemma_seen_after(Seq::empty(), messages);
}

proof fn lemma_seen_after(seen: Seq<Seq<char>>, messages: Seq<MessageView>)
    ensures
        seen.is_prefix_of(seen_after(seen, messages)),
        forall|i: int|
            0 <= i < messages.len() ==> seen_after(seen, messages).contains(
                (#[trigger] messages[i]).sid,
            ),
    decreases messages.len(),
{
    if messages.len() > 0 {
        let rest = messages.drop_last();
        lemma_seen_after(seen, rest);
        let before = seen_after(seen, rest);
        let after = seen_after(seen, messages);
        assert forall|i: int| 0 <= i < messages.len() implies after.contains(
            (#[trigger] messages[i]).sid,
        ) by {
            if i < rest.len() {
                assert(rest[i] == messages[i]);
                let k = choose|k: int| 0 <= k < before.len() && before[k] == rest[i].sid;
                assert(after[k] == rest[i].sid);
            } else if !before.contains(messages.last().sid) {
                assert(after[before.len() as int] == messages[i].sid);
            }
        }
    }
}

/// A message that has been handled is not submitted again.
pub proof fn law_handled_messages_are_not_submitted_again(
    seen: Seq<Seq<char>>,
    messages: Seq<MessageView>,
    sid: Seq<char>,
)
    requires
        seen.contains(sid),
    ensures
        forall|i: int|
            0 <= i < confessions_in(seen, messages).len() ==> (#[trigger] confessions_in(
                seen,
                messages,
            )[i]).1 != twilio_submission_id(sid),
    decreases messages.len(),
{
    if messages.len() > 0 {
        let rest = messages.drop_last();
        let last = messages.last();
        law_handled_messages_are_not_submitted_again(seen, rest, sid);
        lemma_seen_after(seen, rest);
        let k = choose|k: int| 0 <= k < seen.len() && seen[k] == sid;
        assert(seen_after(seen, rest)[k] == sid);
        lemma_submission_ids_differ(last.sid, sid);
        let before = confessions_in(seen, rest);
        let after = confessions_in(seen, messages);
        assert forall|i: int| 0 <= i < after.len() implies (#[trigger] after[i]).1
            != twilio_submission_id(sid) by {
            if i < before.len() {
                assert(after[i] == before[i]);
            }
        }
    }
}

proof fn lemma_submission_ids_differ(a: Seq<char>, b: Seq<char>)
    ensures
        a != b ==> twilio_submission_id(a) != twilio_submission_id(b),
{
    let p = "twilio-"@;
    assert((p + a).skip(p.len() as int) =~= a);
    assert((p + b).skip(p.len() as int) =~= b);
}

/// The identity is that of a message that has been handled.
pub open spec fn is_of_handled(seen: Seq<Seq<char>>, id: Seq<char>) -> bool {
    exists|sid: Seq<char>| seen.contains(sid) && id == #[trigger] twilio_submission_id(sid)
}

/// Every message becomes at most one confession, however often it is listed.
pub proof fn law_each_message_is_submitted_once(
    seen: Seq<Seq<char>>,
    messages: Seq<MessageView>,
)
    ensures
        forall|i: int, j: int|
            0 <= i < j < confessions_in(seen, messages).len() ==> (#[trigger] confessions_in(
                seen,
                messages,
            )[i]).1 != (#[trigger] confessions_in(seen, messages)[j]).1,
        forall|i: int|
            0 <= i < confessions_in(seen, messages).len() ==> is_of_handled(
                seen_after(seen, messages),
                (#[trigger] confessions_in(seen, messages)[i]).1,
            ),
    decreases messages.len(),
{
    if messages.len() > 0 {
        let rest = messages.drop_last();
        let last = messages.last();
        law_each_message_is_submitted_once(seen, rest);
        lemma_seen_after(seen, messages);
        let before = confessions_in(seen, rest);
        let after = confessions_in(seen, messages);
        let seen_before = seen_after(seen, rest);
        let seen_now = seen_after(seen, messages);
        assert(messages[messages.len() - 1] == last);
        assert forall|i: int| 0 <= i < after.len() implies is_of_handled(
            seen_now,
            (#[trigger] after[i]).1,
        ) by {
            if i < before.len() {
                assert(after[i] == before[i]);
                assert(is_of_handled(seen_before, before[i].1));
                let sid = choose|sid: Seq<char>|
                    seen_before.contains(sid) && before[i].1 == #[trigger] twilio_submission_id(
                        sid,
                    );
                let k = choose|k: int| 0 <= k < seen_before.len() && seen_before[k] == sid;
                assert(seen_now[k] == sid);
                assert(after[i].1 == twilio_submission_id(sid));
            } else {
                assert(seen_now.contains(last.sid));
                assert(after[i].1 == twilio_submission_id(last.sid));
            }
        }
        assert forall|i: int, j: int| 0 <= i < j < after.len() implies (#[trigger] after[i]).1 != (
        #[trigger] after[j]).1 by {
            assert(after[i] == before[i]);
            if j < before.len() {
                assert(after[j] == before[j]);
            } else {
                assert(is_of_handled(seen_before, before[i].1));
                let sid = choose|sid: Seq<char>|
                    seen_before.contains(sid) && before[i].1 == #[trigger] twilio_submission_id(
                        sid,
                    );
                lemma_submission_ids_differ(sid, last.sid);
            }
        }
    }
}

/// Fetches are taken in one after the other: what two of them come to is what
/// the first comes to, and what the second comes to once the first is handled.
pub proof fn law_fetches_are_taken_in_one_by_one(
    seen: Seq<Seq<char>>,
    messages: Seq<MessageView>,
    more: Seq<MessageView>,
)
    ensures
        seen_after(seen, messages + more) == seen_after(seen_after(seen, messages), more),
        confessions_in(seen, messages + more) == confessions_in(seen, messages) + confessions_in(
            seen_after(seen, messages),
            more,
        ),
    decreases more.len(),
{
    if more.len() == 0 {
        assert(messages + more =~= messages);
        assert(confessions_in(seen, messages) + confessions_in(seen_after(seen, messages), more)
            =~= confessions_in(seen, messages));
    } else {
        law_fetches_are_taken_in_one_by_one(seen, messages, more.drop_last());
        assert((messages + more).drop_last() =~= messages + more.drop_last());
        assert((messages + more).last() == more.last());
        assert(confessions_in(seen, messages + more) =~= confessions_in(seen, messages)
            + confessions_in(seen_after(seen, messages), more));
    }
}

/// A message that has not been handled yet is submitted, word for word and under
/// its own identity, unless it is a carrier's command; either way it counts as
/// handled from then on. One that has been handled comes to nothing.
pub proof fn law_a_new_message_is_submitted(state: PollStateView, message: MessageView)
    requires
        state.baselined,
    ensures
        state.seen.contains(message.sid) ==> polled(state, seq![message]) == (
            state,
            Seq::<(Seq<char>, Seq<char>)>::empty(),
        ),
        !state.seen.contains(message.sid) ==> polled(state, seq![message]).0.seen
            == state.seen.push(message.sid),
        !state.seen.contains(message.sid) && command_of(message.body) is None ==> polled(
            state,
            seq![message],
        ).1 == seq![(message.body, "twilio-"@ + message.sid)],
        command_of(message.body) is Some ==> polled(state, seq![message]).1.len() == 0,
        polled(state, seq![message]).0.baselined,
{
    let page = seq![message];
    assert(page.drop_last() =~= Seq::empty());
    assert(page.last() == message);
    assert(seen_after(state.seen, Seq::empty()) == state.seen);
    assert(confessions_in(state.seen, Seq::empty()) =~= Seq::empty());
    assert(Seq::<(Seq<char>, Seq<char>)>::empty().push((message.body, "twilio-"@ + message.sid))
        =~= seq![(message.body, "twilio-"@ + message.sid)]);
}

/// Of a page, exactly the messages that were sent in and show something are
/// taken, in the order of the page.
pub proof fn law_pages_are_read_in_order(page: Seq<RawView>, more: Seq<RawView>)
    ensures
        inbound_in(page + more) == inbound_in(page) + inbound_in(more),
    decreases more.len(),
{
    if more.len() == 0 {
        assert(page + more =~= page);
        assert(inbound_in(page) + inbound_in(more) =~= inbound_in(page));
    } else {
        law_pages_are_read_in_order(page, more.drop_last());
        assert((page + more).drop_last() =~= page + more.drop_last());
        assert((page + more).last() == more.last());
        assert(inbound_in(page + more) =~= inbound_in(page) + inbound_in(more));
    }
}

/// A message of a page is taken as it is if it was sent in and some character of
/// its body is no white space, and is passed over otherwise.
pub proof fn law_a_message_that_was_sent_in_is_taken(raw: RawView)
    ensures
        raw.direction == Some("inbound"@) && (raw.body matches Some(body) && exists|i: int|
            0 <= i < body.len() && !is_white_space(#[trigger] body[i])) ==> inbound_in(seq![raw])
            == seq![MessageView { sid: raw.sid, body: raw.body->0 }],
        raw.direction != Some("inbound"@) || raw.body is None || (forall|i: int|
            0 <= i < raw.body->0.len() ==> is_white_space(#[trigger] raw.body->0[i]))
            ==> inbound_in(seq![raw]).len() == 0,
{
    let page = seq![raw];
    assert(page.drop_last() =~= Seq::empty());
    assert(page.last() == raw);
    assert(inbound_in(Seq::empty()) =~= Seq::empty());
    assert(inbound_in(page) =~= if is_inbound(raw) {
        seq![MessageView { sid: raw.sid, body: raw.body->0 }]
    } else {
        Seq::empty()
    });
}

} // verus!
