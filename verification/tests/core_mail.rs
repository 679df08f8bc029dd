use rjango::http::HeaderMap;
use rjango::mail::{
    clear_sent_emails, forbid_mail_headers, get_sent_emails, mail_admins, mail_managers, send_email, send_mail,
    send_mass_mail, EmailMessage, EmailMultiAlternatives, Outbox,
};

#[test]
fn test_send_mail() {
    let mut outbox = Outbox::new();
    clear_sent_emails(&mut outbox);
    send_mail(&mut outbox, "Subject", "Body", "from@test.com", &["to@test.com"]);
    let sent = get_sent_emails(&outbox);
    assert_eq!(sent.len(), 1);
    assert_eq!(sent[0].subject, "Subject");
    assert_eq!(sent[0].body, "Body");
}

#[test]
fn test_send_mail_multiple_recipients() {
    let mut outbox = Outbox::new();
    clear_sent_emails(&mut outbox);
    let count = send_mail(&mut outbox, "Hello", "World", "a@b.com", &["a@b.com", "c@d.com", "e@f.com"]);
    assert_eq!(count, 3);
    assert_eq!(get_sent_emails(&outbox)[0].to.len(), 3);
}

#[test]
fn test_email_message_with_cc_bcc() {
    let mut outbox = Outbox::new();
    clear_sent_emails(&mut outbox);
    let mut msg = EmailMessage::new("Test", "Body", "from@b.com", vec!["to@b.com".into()]);
    msg.cc.push("cc@b.com".into());
    msg.bcc.push("bcc@b.com".into());
    send_email(&mut outbox, &msg);
    let sent = get_sent_emails(&outbox);
    assert_eq!(sent[0].cc, vec!["cc@b.com"]);
    assert_eq!(sent[0].bcc, vec!["bcc@b.com"]);
}

#[test]
fn test_send_mass_mail() {
    let mut outbox = Outbox::new();
    clear_sent_emails(&mut outbox);
    let msgs = vec![
        ("Sub1", "Body1", "a@b.com", &["r1@b.com"] as &[&str]),
        ("Sub2", "Body2", "a@b.com", &["r2@b.com"]),
    ];
    send_mass_mail(&mut outbox, &msgs);
    assert_eq!(get_sent_emails(&outbox).len(), 2);
}

#[test]
fn test_mail_admins() {
    let mut outbox = Outbox::new();
    clear_sent_emails(&mut outbox);
    mail_admins(&mut outbox, "Alert", "Something happened");
    let sent = get_sent_emails(&outbox);
    assert_eq!(sent[0].subject, "Alert");
    assert!(sent[0].to.contains(&"admin@example.com".to_string()));
}

#[test]
fn test_mail_managers() {
    let mut outbox = Outbox::new();
    clear_sent_emails(&mut outbox);
    mail_managers(&mut outbox, "Manager alert", "Check");
    let sent = get_sent_emails(&outbox);
    assert_eq!(sent[0].subject, "Manager alert");
    assert!(sent[0].to.contains(&"manager@example.com".to_string()));
}

#[test]
fn test_email_attachment() {
    let msg = EmailMessage::new("With Attach", "Body", "f@b.com", vec!["t@b.com".into()])
        .attach("file.txt", b"content".to_vec(), "text/plain");
    assert_eq!(msg.attachments.len(), 1);
    assert_eq!(msg.attachments[0].0, "file.txt");
}

#[test]
fn test_email_content_subtype() {
    let msg = EmailMessage::new("HTML", "<h1>Hello</h1>", "f@b.com", vec!["t@b.com".into()]).content_subtype("html");
    assert_eq!(msg.content_subtype, "html");
}

#[test]
fn test_email_alternatives() {
    let msg = EmailMessage::new("Multi", "Plain text", "f@b.com", vec!["t@b.com".into()])
        .attach_alternative("<h1>HTML</h1>", "text/html");
    assert_eq!(msg.alternatives.len(), 1);
    assert_eq!(msg.alternatives[0].1, "text/html");
}

#[test]
fn test_email_multi_alternatives() {
    let mut outbox = Outbox::new();
    clear_sent_emails(&mut outbox);
    let msg = EmailMultiAlternatives::new("MultiAlt", "Plain", "from@b.com", vec!["to@b.com".into()])
        .attach_alternative("<b>Rich</b>", "text/html");
    msg.send(&mut outbox);
    let sent = get_sent_emails(&outbox);
    assert_eq!(sent[0].subject, "MultiAlt");
    assert_eq!(sent[0].alternatives.len(), 1);
}

#[test]
fn test_forbid_mail_headers_bad_newline() {
    let mut h = HeaderMap::new();
    h.insert("X-Custom".into(), "bad\nheader".into());
    let result = forbid_mail_headers(&h);
    assert!(result.is_err());
}

#[test]
fn test_forbid_mail_headers_ok() {
    let mut h = HeaderMap::new();
    h.insert("X-Custom".into(), "good value".into());
    assert!(forbid_mail_headers(&h).is_ok());
}

#[test]
fn test_forbid_mail_headers_names_first_bad_value() {
    let mut h = HeaderMap::new();
    h.insert("A".into(), "fine".into());
    h.insert("B".into(), "one\r".into());
    h.insert("C".into(), "two\n".into());
    let err = forbid_mail_headers(&h).unwrap_err();
    assert_eq!(err.0, "one\r");
    assert_eq!(err.to_string(), "Bad header: one\r");
}

#[test]
fn test_clear_sent_emails_empties_outbox() {
    let mut outbox = Outbox::new();
    send_mail(&mut outbox, "s", "b", "f@x", &["t@x"]);
    assert_eq!(get_sent_emails(&outbox).len(), 1);
    clear_sent_emails(&mut outbox);
    assert!(get_sent_emails(&outbox).is_empty());
}
