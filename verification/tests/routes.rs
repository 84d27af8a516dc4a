use zero2prod::routes::{publish_newsletter, BodyData, Content};
use zero2prod::store::Store;
use zero2prod::worker::EmailLog;

fn body() -> BodyData {
    BodyData {
        title: String::from("Newsletter title"),
        content: Content {
            text: String::from("Newsletter body as plain text"),
            html: String::from("<p>Newsletter body as HTML</p>"),
        },
    }
}

#[test]
fn newsletter_newsletters_are_not_delivered_to_unconfirmed_subscribers() {
    let mut store = Store::new();
    store
        .add_subscriber(1, String::from("pending@example.com"), String::from("le guin"), 0)
        .expect("could not insert subscriber");

    let mut mail = EmailLog::new();
    let sent = publish_newsletter(&store, &mut mail, &body());

    assert_eq!(sent, 0);
    assert_eq!(mail.len(), 0);
}

#[test]
fn newsletter_newsletters_are_delivered_to_confirmed_subscribers() {
    let mut store = Store::new();
    store
        .add_subscriber(1, String::from("confirmed@example.com"), String::from("le guin"), 0)
        .expect("could not insert subscriber");
    store.confirm_subscriber(1);

    let mut mail = EmailLog::new();
    let sent = publish_newsletter(&store, &mut mail, &body());

    assert_eq!(sent, 1);
    assert_eq!(mail.len(), 1);
    assert_eq!(mail.sent[0].recipient, "confirmed@example.com");
    assert_eq!(mail.sent[0].subject, "Newsletter title");
    assert_eq!(mail.sent[0].text, "Newsletter body as plain text");
    assert_eq!(mail.sent[0].html, "<p>Newsletter body as HTML</p>");
}

#[test]
fn an_unparseable_stored_address_is_skipped_inline_too() {
    let mut store = Store::new();
    store
        .add_subscriber(1, String::from("not-an-address"), String::from("le guin"), 0)
        .expect("could not insert subscriber");
    store.confirm_subscriber(1);
    store
        .add_subscriber(2, String::from("fine@example.com"), String::from("le guin"), 0)
        .expect("could not insert subscriber");
    store.confirm_subscriber(2);

    let mut mail = EmailLog::new();
    let sent = publish_newsletter(&store, &mut mail, &body());

    assert_eq!(sent, 1);
    assert_eq!(mail.sent[0].recipient, "fine@example.com");
}
