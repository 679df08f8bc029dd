//! Email messages and an outbox that records what was sent.

use vstd::prelude::*;
use crate::http::HeaderMap;
use crate::text::{has_char, chars_of, contains_char, copy_strings, owned, views};

verus! {

/// The views of a list of attachments: file name, bytes, MIME type.
pub open spec fn attachment_views(v: Seq<(String, Vec<u8>, String)>) -> Seq<(Seq<char>, Seq<u8>, Seq<char>)> {
    v.map_values(|a: (String, Vec<u8>, String)| (a.0@, a.1@, a.2@))
}

/// The views of a list of alternatives: content, MIME type.
pub open spec fn alternative_views(v: Seq<(String, String)>) -> Seq<(Seq<char>, Seq<char>)> {
    v.map_values(|a: (String, String)| (a.0@, a.1@))
}

fn copy_alternatives(v: &Vec<(String, String)>) -> (r: Vec<(String, String)>)
    ensures
        alternative_views(r@) == alternative_views(v@),
{
    let mut r: Vec<(String, String)> = Vec::new();
    let mut i: usize = 0;
    while i < v.len()
        invariant
            i <= v@.len(),
            alternative_views(r@) == alternative_views(v@).take(i as int),
        decreases v.len() - i,
    {
        let e = (v[i].0.clone(), v[i].1.clone());
        let ghost before = r@;
        r.push(e);
        assert(alternative_views(r@) =~= alternative_views(before).push((e.0@, e.1@)));
        assert(alternative_views(r@) =~= alternative_views(v@).take(i + 1));
        i = i + 1;
    }
    assert(alternative_views(v@).take(v@.len() as int) =~= alternative_views(v@));
    r
}

fn copy_attachments(v: &Vec<(String, Vec<u8>, String)>) -> (r: Vec<(String, Vec<u8>, String)>)
    ensures
        attachment_views(r@) == attachment_views(v@),
{
    let mut r: Vec<(String, Vec<u8>, String)> = Vec::new();
    let mut i: usize = 0;
    while i < v.len()
        invariant
            i <= v@.len(),
            attachment_views(r@) == attachment_views(v@).take(i as int),
        decreases v.len() - i,
    {
        let bytes = vstd::slice::slice_to_vec(v[i].1.as_slice());
        let e = (v[i].0.clone(), bytes, v[i].2.clone());
        let ghost before = r@;
        r.push(e);
        assert(attachment_views(r@) =~= attachment_views(before).push((e.0@, e.1@, e.2@)));
        assert(attachment_views(r@) =~= attachment_views(v@).take(i + 1));
        i = i + 1;
    }
    assert(attachment_views(v@).take(v@.len() as int) =~= attachment_views(v@));
    r
}

/// An email with its recipients, headers, attachments and alternatives.
#[derive(Debug, Clone)]
pub struct EmailMessage {
    pub subject: String,
    pub body: String,
    pub from_email: String,
    pub to: Vec<String>,
    pub cc: Vec<String>,
    pub bcc: Vec<String>,
    pub reply_to: Vec<String>,
    pub headers: HeaderMap,
    pub attachments: Vec<(String, Vec<u8>, String)>,
    pub content_subtype: String,
    pub alternatives: Vec<(String, String)>,
}

impl EmailMessage {
    /// A plain-text message with no copies, headers, attachments or alternatives.
    pub fn new(subject: &str, body: &str, from_email: &str, to: Vec<String>) -> (r: Self)
        ensures
            r.subject@ == subject@,
            r.body@ == body@,
            r.from_email@ == from_email@,
            r.to@ == to@,
            r.cc@.len() == 0,
            r.bcc@.len() == 0,
            r.reply_to@.len() == 0,
            r.headers@.len() == 0,
            r.attachments@.len() == 0,
            r.content_subtype@ == "text/plain"@,
            r.alternatives@.len() == 0,
    {
        EmailMessage {
            subject: owned(subject),
            body: owned(body),
            from_email: owned(from_email),
            to,
            cc: Vec::new(),
            bcc: Vec::new(),
            reply_to: Vec::new(),
            headers: HeaderMap::new(),
            attachments: Vec::new(),
            content_subtype: owned("text/plain"),
            alternatives: Vec::new(),
        }
    }

    /// The same message with an attachment added last.
    pub fn attach(self, filename: &str, content: Vec<u8>, mimetype: &str) -> (r: Self)
        ensures
            attachment_views(r.attachments@) == attachment_views(self.attachments@).push((filename@, content@, mimetype@)),
            r.subject == self.subject,
            r.body == self.body,
            r.from_email == self.from_email,
            r.to == self.to,
            r.cc == self.cc,
            r.bcc == self.bcc,
            r.reply_to == self.reply_to,
            r.headers == self.headers,
            r.alternatives == self.alternatives,
            r.content_subtype == self.content_subtype,
    {
        let mut m = self;
        let ghost before = m.attachments@;
        m.attachments.push((owned(filename), content, owned(mimetype)));
        assert(attachment_views(m.attachments@) =~= attachment_views(before).push((filename@, content@, mimetype@)));
        m
    }

    /// The same message with the content subtype `subtype`.
    pub fn content_subtype(self, subtype: &str) -> (r: Self)
        ensures
            r.content_subtype@ == subtype@,
            r.subject == self.subject,
            r.body == self.body,
            r.from_email == self.from_email,
            r.to == self.to,
            r.cc == self.cc,
            r.bcc == self.bcc,
            r.reply_to == self.reply_to,
            r.headers == self.headers,
            r.attachments == self.attachments,
            r.alternatives == self.alternatives,
    {
        EmailMessage { content_subtype: owned(subtype), ..self }
    }

    /// The same message with an alternative representation added last.
    pub fn attach_alternative(self, content: &str, mimetype: &str) -> (r: Self)
        ensures
            alternative_views(r.alternatives@) == alternative_views(self.alternatives@).push((content@, mimetype@)),
            r.subject == self.subject,
            r.body == self.body,
            r.from_email == self.from_email,
            r.to == self.to,
            r.cc == self.cc,
            r.bcc == self.bcc,
            r.reply_to == self.reply_to,
            r.headers == self.headers,
            r.attachments == self.attachments,
            r.content_subtype == self.content_subtype,
    {
        let mut m = self;
        let ghost before = m.alternatives@;
        m.alternatives.push((owned(content), owned(mimetype)));
        assert(alternative_views(m.alternatives@) =~= alternative_views(before).push((content@, mimetype@)));
        m
    }
}

/// A message with an alternative representation, subtype `plain`.
#[derive(Debug, Clone)]
pub struct EmailMultiAlternatives {
    pub email: EmailMessage,
}

impl EmailMultiAlternatives {
    /// A message with content subtype `plain`.
    pub fn new(subject: &str, body: &str, from_email: &str, to: Vec<String>) -> (r: Self)
        ensures
            r.email.subject@ == subject@,
            r.email.body@ == body@,
            r.email.from_email@ == from_email@,
            r.email.to@ == to@,
            r.email.content_subtype@ == "plain"@,
            r.email.cc@.len() == 0,
            r.email.bcc@.len() == 0,
            r.email.headers@.len() == 0,
            r.email.alternatives@.len() == 0,
            r.email.attachments@.len() == 0,
    {
        EmailMultiAlternatives { email: EmailMessage::new(subject, body, from_email, to).content_subtype("plain") }
    }

    /// The same message with an alternative added last.
    pub fn attach_alternative(self, content: &str, mimetype: &str) -> (r: Self)
        ensures
            alternative_views(r.email.alternatives@) == alternative_views(self.email.alternatives@).push((content@, mimetype@)),
            r.email.subject == self.email.subject,
            r.email.body == self.email.body,
            r.email.from_email == self.email.from_email,
            r.email.to == self.email.to,
            r.email.cc == self.email.cc,
            r.email.bcc == self.email.bcc,
            r.email.headers == self.email.headers,
            r.email.attachments == self.email.attachments,
            r.email.content_subtype == self.email.content_subtype,
    {
        EmailMultiAlternatives { email: self.email.attach_alternative(content, mimetype) }
    }

    /// Sends the message into `outbox`; answers the number of recipients.
    pub fn send(&self, outbox: &mut Outbox) -> (r: usize)
        ensures
            r == self.email.to@.len(),
            final(outbox).sent@.len() == old(outbox).sent@.len() + 1,
            forall|i: int| 0 <= i < old(outbox).sent@.len() ==> final(outbox).sent@[i] == old(outbox).sent@[i],
            records(final(outbox).sent@.last(), self.email),
    {
        send_email(outbox, &self.email)
    }
}

/// A record of a sent message.
#[derive(Debug, Clone)]
pub struct SentEmail {
    pub subject: String,
    pub body: String,
    pub from_email: String,
    pub to: Vec<String>,
    pub cc: Vec<String>,
    pub bcc: Vec<String>,
    pub headers: HeaderMap,
    pub content_subtype: String,
    pub alternatives: Vec<(String, String)>,
    pub attachments: Vec<(String, Vec<u8>, String)>,
}

/// The record `s` holds what the message `m` held.
pub open spec fn records(s: SentEmail, m: EmailMessage) -> bool {
    &&& s.subject@ == m.subject@
    &&& s.body@ == m.body@
    &&& s.from_email@ == m.from_email@
    &&& views(s.to@) == views(m.to@)
    &&& views(s.cc@) == views(m.cc@)
    &&& views(s.bcc@) == views(m.bcc@)
    &&& s.headers@ == m.headers@
    &&& s.content_subtype@ == m.content_subtype@
    &&& alternative_views(s.alternatives@) == alternative_views(m.alternatives@)
    &&& attachment_views(s.attachments@) == attachment_views(m.attachments@)
}

/// The messages sent so far, in order.
#[derive(Debug, Clone)]
pub struct Outbox {
    pub sent: Vec<SentEmail>,
}

impl Outbox {
    /// An empty outbox.
    pub fn new() -> (r: Self)
        ensures
            r.sent@.len() == 0,
    {
        Outbox { sent: Vec::new() }
    }
}

/// Records `msg` in `outbox`; answers the number of recipients.
pub fn send_email(outbox: &mut Outbox, msg: &EmailMessage) -> (r: usize)
    ensures
        r == msg.to@.len(),
        final(outbox).sent@.len() == old(outbox).sent@.len() + 1,
        forall|i: int| 0 <= i < old(outbox).sent@.len() ==> final(outbox).sent@[i] == old(outbox).sent@[i],
        records(final(outbox).sent@.last(), *msg),
{
    let sent = SentEmail {
        subject: msg.subject.clone(),
        body: msg.body.clone(),
        from_email: msg.from_email.clone(),
        to: copy_strings(&msg.to),
        cc: copy_strings(&msg.cc),
        bcc: copy_strings(&msg.bcc),
        headers: msg.headers.duplicate(),
        content_subtype: msg.content_subtype.clone(),
        alternatives: copy_alternatives(&msg.alternatives),
        attachments: copy_attachments(&msg.attachments),
    };
    outbox.sent.push(sent);
    msg.to.len()
}

/// The owned copies of a list of string slices.
pub open spec fn slice_strs(v: Seq<&str>) -> Seq<Seq<char>> {
    v.map_values(|s: &str| s@)
}

fn strings_of(items: &[&str]) -> (r: Vec<String>)
    ensures
        views(r@) == slice_strs(items@),
{
    let mut r: Vec<String> = Vec::new();
    let mut i: usize = 0;
    while i < items.len()
        invariant
            i <= items@.len(),
            views(r@) == slice_strs(items@).take(i as int),
        decreases items.len() - i,
    {
        let s = owned(items[i]);
        let ghost before = r@;
        r.push(s);
        assert(views(r@) =~= views(before).push(s@));
        assert(views(r@) =~= slice_strs(items@).take(i + 1));
        i = i + 1;
    }
    assert(slice_strs(items@).take(items@.len() as int) =~= slice_strs(items@));
    r
}

/// What a simple message records: subject, body, sender and recipients,
/// plain text, nothing else.
pub open spec fn records_simple(s: SentEmail, subject: Seq<char>, message: Seq<char>, from_email: Seq<char>, to: Seq<Seq<char>>) -> bool {
    &&& s.subject@ == subject
    &&& s.body@ == message
    &&& s.from_email@ == from_email
    &&& views(s.to@) == to
    &&& s.cc@.len() == 0
    &&& s.bcc@.len() == 0
    &&& s.headers@.len() == 0
    &&& s.content_subtype@ == "text/plain"@
    &&& s.alternatives@.len() == 0
    &&& s.attachments@.len() == 0
}

/// Sends a plain-text message to `recipient_list`; answers the number of recipients.
pub fn send_mail(outbox: &mut Outbox, subject: &str, message: &str, from_email: &str, recipient_list: &[&str]) -> (r: usize)
    ensures
        r == recipient_list@.len(),
        final(outbox).sent@.len() == old(outbox).sent@.len() + 1,
        forall|i: int| 0 <= i < old(outbox).sent@.len() ==> final(outbox).sent@[i] == old(outbox).sent@[i],
        records_simple(final(outbox).sent@.last(), subject@, message@, from_email@, slice_strs(recipient_list@)),
{
    let to = strings_of(recipient_list);
    let msg = EmailMessage::new(subject, message, from_email, to);
    assert(views(msg.to@) == slice_strs(recipient_list@));
    assert(msg.to@.len() == views(msg.to@).len());
    let n = send_email(outbox, &msg);
    let ghost last = outbox.sent@.last();
    assert(records(last, msg));
    assert(last.subject@ == subject@);
    assert(last.body@ == message@);
    assert(last.from_email@ == from_email@);
    assert(views(last.to@) == slice_strs(recipient_list@));
    assert(last.cc@.len() == views(last.cc@).len());
    assert(msg.cc@.len() == views(msg.cc@).len());
    assert(last.bcc@.len() == views(last.bcc@).len());
    assert(msg.bcc@.len() == views(msg.bcc@).len());
    assert(last.headers@.len() == 0);
    assert(last.content_subtype@ == "text/plain"@);
    assert(last.alternatives@.len() == alternative_views(last.alternatives@).len());
    assert(msg.alternatives@.len() == alternative_views(msg.alternatives@).len());
    assert(last.attachments@.len() == attachment_views(last.attachments@).len());
    assert(msg.attachments@.len() == attachment_views(msg.attachments@).len());
    assert(records_simple(last, subject@, message@, from_email@, slice_strs(recipient_list@)));
    n
}

/// Sends a message from `root@example.com` to `admin@example.com`.
pub fn mail_admins(outbox: &mut Outbox, subject: &str, message: &str) -> (r: usize)
    ensures
        r == 1,
        final(outbox).sent@.len() == old(outbox).sent@.len() + 1,
        forall|i: int| 0 <= i < old(outbox).sent@.len() ==> final(outbox).sent@[i] == old(outbox).sent@[i],
        records_simple(final(outbox).sent@.last(), subject@, message@, "root@example.com"@, seq!["admin@example.com"@]),
{
    let recipients: [&str; 1] = ["admin@example.com"];
    let r = send_mail(outbox, subject, message, "root@example.com", &recipients);
    assert(slice_strs(recipients@) =~= seq!["admin@example.com"@]);
    r
}

/// Sends a message from `root@example.com` to `manager@example.com`.
pub fn mail_managers(outbox: &mut Outbox, subject: &str, message: &str) -> (r: usize)
    ensures
        r == 1,
        final(outbox).sent@.len() == old(outbox).sent@.len() + 1,
        forall|i: int| 0 <= i < old(outbox).sent@.len() ==> final(outbox).sent@[i] == old(outbox).sent@[i],
        records_simple(final(outbox).sent@.last(), subject@, message@, "root@example.com"@, seq!["manager@example.com"@]),
{
    let recipients: [&str; 1] = ["manager@example.com"];
    let r = send_mail(outbox, subject, message, "root@example.com", &recipients);
    assert(slice_strs(recipients@) =~= seq!["manager@example.com"@]);
    r
}

/// The total number of recipients of a batch of messages.
pub open spec fn recipients_total(batch: Seq<(&str, &str, &str, &[&str])>) -> nat
    decreases batch.len(),
{
    if batch.len() == 0 { 0 } else { recipients_total(batch.drop_last()) + batch.last().3@.len() }
}

/// Sends each message of `datatuple`, in order; answers the total number of recipients.
pub fn send_mass_mail(outbox: &mut Outbox, datatuple: &[(&str, &str, &str, &[&str])]) -> (r: usize)
    requires
        recipients_total(datatuple@) <= usize::MAX,
    ensures
        r == recipients_total(datatuple@),
        final(outbox).sent@.len() == old(outbox).sent@.len() + datatuple@.len(),
        forall|i: int| 0 <= i < old(outbox).sent@.len() ==> final(outbox).sent@[i] == old(outbox).sent@[i],
        forall|k: int| 0 <= k < datatuple@.len() ==> records_simple(
            #[trigger] final(outbox).sent@[old(outbox).sent@.len() + k],
            datatuple@[k].0@, datatuple@[k].1@, datatuple@[k].2@, slice_strs(datatuple@[k].3@)),
{
    let ghost start = outbox.sent@;
    let mut total: usize = 0;
    let mut i: usize = 0;
    while i < datatuple.len()
        invariant
            i <= datatuple@.len(),
            recipients_total(datatuple@) <= usize::MAX,
            total == recipients_total(datatuple@.take(i as int)),
            outbox.sent@.len() == start.len() + i,
            forall|j: int| 0 <= j < start.len() ==> outbox.sent@[j] == start[j],
            forall|k: int| 0 <= k < i ==> records_simple(
                #[trigger] outbox.sent@[start.len() + k],
                datatuple@[k].0@, datatuple@[k].1@, datatuple@[k].2@, slice_strs(datatuple@[k].3@)),
        decreases datatuple.len() - i,
    {
        assert(datatuple@.take(i + 1).drop_last() =~= datatuple@.take(i as int));
        proof { lemma_recipients_total_prefix(datatuple@, i + 1); }
        let (subject, message, from_email, recipients) = datatuple[i];
        let n = send_mail(outbox, subject, message, from_email, recipients);
        total = total + n;
        i = i + 1;
    }
    assert(datatuple@.take(datatuple@.len() as int) =~= datatuple@);
    total
}

proof fn lemma_recipients_total_prefix(batch: Seq<(&str, &str, &str, &[&str])>, k: int)
    requires
        0 <= k <= batch.len(),
    ensures
        recipients_total(batch.take(k)) <= recipients_total(batch),
    decreases batch.len() - k,
{
    if k < batch.len() {
        lemma_recipients_total_prefix(batch, k + 1);
        assert(batch.take(k + 1).drop_last() =~= batch.take(k));
    } else {
        assert(batch.take(k) =~= batch);
    }
}

/// Copies of the records of everything sent.
pub fn get_sent_emails(outbox: &Outbox) -> (r: Vec<SentEmail>)
    ensures
        r@.len() == outbox.sent@.len(),
        forall|i: int| 0 <= i < r@.len() ==> same_record(#[trigger] r@[i], outbox.sent@[i]),
{
    let mut r: Vec<SentEmail> = Vec::new();
    let mut i: usize = 0;
    while i < outbox.sent.len()
        invariant
            i <= outbox.sent@.len(),
            r@.len() == i,
            forall|j: int| 0 <= j < i ==> same_record(#[trigger] r@[j], outbox.sent@[j]),
        decreases outbox.sent.len() - i,
    {
        let s = &outbox.sent[i];
        let c = SentEmail {
            subject: s.subject.clone(),
            body: s.body.clone(),
            from_email: s.from_email.clone(),
            to: copy_strings(&s.to),
            cc: copy_strings(&s.cc),
            bcc: copy_strings(&s.bcc),
            headers: s.headers.duplicate(),
            content_subtype: s.content_subtype.clone(),
            alternatives: copy_alternatives(&s.alternatives),
            attachments: copy_attachments(&s.attachments),
        };
        r.push(c);
        i = i + 1;
    }
    r
}

/// Two records hold the same things.
pub open spec fn same_record(a: SentEmail, b: SentEmail) -> bool {
    &&& a.subject@ == b.subject@
    &&& a.body@ == b.body@
    &&& a.from_email@ == b.from_email@
    &&& views(a.to@) == views(b.to@)
    &&& views(a.cc@) == views(b.cc@)
    &&& views(a.bcc@) == views(b.bcc@)
    &&& a.headers@ == b.headers@
    &&& a.content_subtype@ == b.content_subtype@
    &&& alternative_views(a.alternatives@) == alternative_views(b.alternatives@)
    &&& attachment_views(a.attachments@) == attachment_views(b.attachments@)
}

/// Forgets everything sent.
pub fn clear_sent_emails(outbox: &mut Outbox)
    ensures
        final(outbox).sent@.len() == 0,
{
    outbox.sent = Vec::new();
}

/// A header value that would allow header injection.
#[derive(Debug, Clone)]
pub struct BadHeaderError(pub String);

impl BadHeaderError {
    /// `Bad header: ` and the value.
    pub fn to_string(&self) -> (r: String)
        ensures
            r@ == "Bad header: "@ + self.0@,
    {
        crate::text::concat2("Bad header: ", self.0.as_str())
    }
}

/// A header value holds a line break.
pub open spec fn breaks_line(v: Seq<char>) -> bool {
    has_char(v, '\n') || has_char(v, '\r')
}

/// The first header value, in order, that holds a line break.
pub open spec fn first_bad_header(values: Seq<(Seq<char>, Seq<char>)>) -> Option<Seq<char>>
    decreases values.len(),
{
    if values.len() == 0 {
        None
    } else if breaks_line(values[0].1) {
        Some(values[0].1)
    } else {
        first_bad_header(values.drop_first())
    }
}

/// Rejects headers whose values hold a line break, naming the first such value.
pub fn forbid_mail_headers(headers: &HeaderMap) -> (r: Result<(), BadHeaderError>)
    ensures
        match first_bad_header(headers@) {
            Some(v) => r matches Err(e) && e.0@ == v,
            None => r is Ok,
        },
{
    let mut i: usize = 0;
    let n = headers.len();
    assert(headers@.skip(0) =~= headers@);
    while i < n
        invariant
            n == headers@.len(),
            i <= n,
            first_bad_header(headers@) == first_bad_header(headers@.skip(i as int)),
        decreases n - i,
    {
        assert(headers@.skip(i as int).drop_first() =~= headers@.skip(i + 1));
        assert(headers@.skip(i as int)[0] == headers@[i as int]);
        let v = headers.value_at(i);
        let cs = chars_of(v);
        if contains_char(&cs, '\n') || contains_char(&cs, '\r') {
            return Err(BadHeaderError(owned(v)));
        }
        i = i + 1;
    }
    assert(headers@.skip(i as int).len() == 0);
    Ok(())
}

} // verus!
