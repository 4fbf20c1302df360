use mailsync::emails::EmailContent;
use mailsync::queries::{content_step, email_query, parse_filter, ContentStep, EmailFilter};

const SELECT: &str = "SELECT id, account_id, folder_id, remote_id, message_id, subject, sender_name, sender_address, date, flags, snippet, has_attachments FROM emails";

#[test]
fn query_without_conditions() {
    let query = email_query(None, None, None);
    assert_eq!(query.sql, format!("{}  ORDER BY date DESC LIMIT 100", SELECT));
    assert!(query.bindings.is_empty());
}

#[test]
fn query_with_every_condition() {
    let query = email_query(Some(4), Some(9), Some(EmailFilter::Unread));
    assert_eq!(
        query.sql,
        format!(
            "{} WHERE account_id = ? AND folder_id = ? AND flags NOT LIKE '%\\\\Seen%' ORDER BY date DESC LIMIT 100",
            SELECT
        )
    );
    assert_eq!(query.bindings, vec![4, 9]);
}

#[test]
fn query_with_one_condition() {
    let query = email_query(None, Some(9), None);
    assert_eq!(query.sql, format!("{} WHERE folder_id = ? ORDER BY date DESC LIMIT 100", SELECT));
    assert_eq!(query.bindings, vec![9]);
    let query = email_query(None, None, Some(EmailFilter::Flagged));
    assert_eq!(
        query.sql,
        format!("{} WHERE flags LIKE '%\\\\Flagged%' ORDER BY date DESC LIMIT 100", SELECT)
    );
    assert!(query.bindings.is_empty());
    let query = email_query(Some(-1), None, Some(EmailFilter::Flagged));
    assert_eq!(
        query.sql,
        format!(
            "{} WHERE account_id = ? AND flags LIKE '%\\\\Flagged%' ORDER BY date DESC LIMIT 100",
            SELECT
        )
    );
    assert_eq!(query.bindings, vec![-1]);
}

#[test]
fn filter_words() {
    assert_eq!(parse_filter(&"unread".to_string()), Some(EmailFilter::Unread));
    assert_eq!(parse_filter(&"flagged".to_string()), Some(EmailFilter::Flagged));
    assert_eq!(parse_filter(&"all".to_string()), None);
    assert_eq!(parse_filter(&"Unread".to_string()), None);
}

#[test]
fn cached_body_is_served() {
    let text = EmailContent { body_text: Some("Hello content".to_string()), body_html: None };
    let html = EmailContent { body_text: None, body_html: Some("<p>Hi</p>".to_string()) };
    let none = EmailContent { body_text: None, body_html: None };
    assert!(text.is_cached() && html.is_cached() && !none.is_cached());
    assert_eq!(content_step(&Some(text.clone())), ContentStep::Serve);
    assert_eq!(text.clone().body_text, Some("Hello content".to_string()));
    assert_eq!(content_step(&Some(html)), ContentStep::Serve);
    assert_eq!(content_step(&Some(none)), ContentStep::Fetch);
    assert_eq!(content_step(&None), ContentStep::Fetch);
}
