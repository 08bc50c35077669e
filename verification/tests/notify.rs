use styled_text::notify::{notification_title, urgency_of, validate, NotifyComplaint, Urgency};

#[test]
fn urgency_by_level() {
    assert_eq!(urgency_of(0), Urgency::Low);
    assert_eq!(urgency_of(1), Urgency::Normal);
    assert_eq!(urgency_of(2), Urgency::Critical);
    assert_eq!(urgency_of(3), Urgency::Normal);
    assert_eq!(urgency_of(255), Urgency::Normal);
}

#[test]
fn title_falls_back_to_the_program() {
    assert_eq!(notification_title(None), "ctr");
    assert_eq!(notification_title(Some("")), "ctr");
    assert_eq!(notification_title(Some(" \t\u{a0}")), "ctr");
    assert_eq!(notification_title(Some("Build done")), "Build done");
    assert_eq!(notification_title(Some(" padded ")), " padded ");
}

#[test]
fn arguments_of_a_notification() {
    assert_eq!(validate(true, 0, Some(9)), None);
    assert_eq!(validate(false, 0, Some(9)), Some(NotifyComplaint::NoMessage));
    assert_eq!(validate(false, 0, None), Some(NotifyComplaint::NoMessage));
    assert_eq!(validate(false, 2, Some(3)), Some(NotifyComplaint::InvalidLevel));
    assert_eq!(validate(false, 2, Some(2)), None);
    assert_eq!(validate(false, 1, None), None);
    assert_eq!(NotifyComplaint::NoMessage.message(), "No message provided");
    assert_eq!(NotifyComplaint::InvalidLevel.message(), "Invalid urgency level");
}
