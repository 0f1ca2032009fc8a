use rfcbot::command::{FcpDisposition, ParseError, RfcBotCommand};

#[test]
fn success_fcp_reviewed() {
    let body = "@rfcbot: reviewed";
    let body_no_colon = "@rfcbot reviewed";

    let with_colon = RfcBotCommand::from_str(body).unwrap();
    let without_colon = RfcBotCommand::from_str(body_no_colon).unwrap();

    assert_eq!(with_colon, without_colon);
    assert_eq!(with_colon, RfcBotCommand::Reviewed);
}

#[test]
fn success_fcp_merge() {
    let body = "@rfcbot: fcp merge\n\nSome justification here.";
    let body_no_colon = "@rfcbot fcp merge\n\nSome justification here.";

    let with_colon = RfcBotCommand::from_str(body).unwrap();
    let without_colon = RfcBotCommand::from_str(body_no_colon).unwrap();

    assert_eq!(with_colon, without_colon);
    assert_eq!(with_colon, RfcBotCommand::FcpPropose(FcpDisposition::Merge));
}

#[test]
fn success_fcp_close() {
    let body = "@rfcbot: fcp close\n\nSome justification here.";
    let body_no_colon = "@rfcbot fcp close\n\nSome justification here.";

    let with_colon = RfcBotCommand::from_str(body).unwrap();
    let without_colon = RfcBotCommand::from_str(body_no_colon).unwrap();

    assert_eq!(with_colon, without_colon);
    assert_eq!(with_colon, RfcBotCommand::FcpPropose(FcpDisposition::Close));
}

#[test]
fn success_fcp_postpone() {
    let body = "@rfcbot: fcp postpone\n\nSome justification here.";
    let body_no_colon = "@rfcbot fcp postpone\n\nSome justification here.";

    let with_colon = RfcBotCommand::from_str(body).unwrap();
    let without_colon = RfcBotCommand::from_str(body_no_colon).unwrap();

    assert_eq!(with_colon, without_colon);
    assert_eq!(with_colon, RfcBotCommand::FcpPropose(FcpDisposition::Postpone));
}

#[test]
fn success_fcp_cancel() {
    let body = "@rfcbot: fcp cancel\n\nSome justification here.";
    let body_no_colon = "@rfcbot fcp cancel\n\nSome justification here.";

    let with_colon = RfcBotCommand::from_str(body).unwrap();
    let without_colon = RfcBotCommand::from_str(body_no_colon).unwrap();

    assert_eq!(with_colon, without_colon);
    assert_eq!(with_colon, RfcBotCommand::FcpCancel);
}

#[test]
fn success_concern() {
    let body = "@rfcbot: concern CONCERN_NAME
someothertext
somemoretext

somemoretext";
    let body_no_colon = "@rfcbot concern CONCERN_NAME
someothertext
somemoretext

somemoretext";

    let with_colon = RfcBotCommand::from_str(body).unwrap();
    let without_colon = RfcBotCommand::from_str(body_no_colon).unwrap();

    assert_eq!(with_colon, without_colon);
    assert_eq!(with_colon, RfcBotCommand::NewConcern("CONCERN_NAME".to_string()));
}

#[test]
fn success_resolve() {
    let body = "@rfcbot: resolved CONCERN_NAME
someothertext
somemoretext

somemoretext";
    let body_no_colon = "@rfcbot resolved CONCERN_NAME
someothertext
somemoretext

somemoretext";

    let with_colon = RfcBotCommand::from_str(body).unwrap();
    let without_colon = RfcBotCommand::from_str(body_no_colon).unwrap();

    assert_eq!(with_colon, without_colon);
    assert_eq!(with_colon, RfcBotCommand::ResolveConcern("CONCERN_NAME".to_string()));
}

#[test]
fn success_feedback() {
    let body = "@rfcbot: f? @bob
someothertext
somemoretext

somemoretext";
    let body_no_colon = "@rfcbot f? @bob
someothertext
somemoretext

somemoretext";

    let with_colon = RfcBotCommand::from_str(body).unwrap();
    let without_colon = RfcBotCommand::from_str(body_no_colon).unwrap();

    assert_eq!(with_colon, without_colon);
    assert_eq!(with_colon, RfcBotCommand::FeedbackRequest("bob".to_string()));
}

#[test]
fn not_addressed_bodies_fail_without_panicking() {
    assert_eq!(RfcBotCommand::from_str(""), Err(ParseError::NotAddressed));
    assert_eq!(RfcBotCommand::from_str("@"), Err(ParseError::NotAddressed));
    assert_eq!(RfcBotCommand::from_str("@rfcbo"), Err(ParseError::NotAddressed));
    assert_eq!(RfcBotCommand::from_str("@RFCBOT reviewed"), Err(ParseError::NotAddressed));
    assert_eq!(
        RfcBotCommand::from_str("just an ordinary comment"),
        Err(ParseError::NotAddressed)
    );
}

#[test]
fn unknown_commands_fail() {
    assert_eq!(RfcBotCommand::from_str("@rfcbot"), Err(ParseError::UnknownCommand));
    assert_eq!(RfcBotCommand::from_str("@rfcbot dance"), Err(ParseError::UnknownCommand));
    assert_eq!(RfcBotCommand::from_str("@rfcbot fcp"), Err(ParseError::UnknownCommand));
    assert_eq!(RfcBotCommand::from_str("@rfcbot fcp maybe"), Err(ParseError::UnknownCommand));
    assert_eq!(RfcBotCommand::from_str("@rfcbot: "), Err(ParseError::UnknownCommand));
}

#[test]
fn malformed_feedback_arguments_fail() {
    assert_eq!(RfcBotCommand::from_str("@rfcbot f?"), Err(ParseError::MalformedArgument));
    assert_eq!(RfcBotCommand::from_str("@rfcbot f? bob"), Err(ParseError::MalformedArgument));
    assert_eq!(RfcBotCommand::from_str("@rfcbot f? @"), Err(ParseError::MalformedArgument));
}

#[test]
fn concern_names_may_hold_spaces() {
    let cmd = RfcBotCommand::from_str("@rfcbot concern long concern name\nsecond line").unwrap();
    assert_eq!(cmd, RfcBotCommand::NewConcern("long concern name".to_string()));
    let cmd = RfcBotCommand::from_str("@rfcbot resolved long concern name").unwrap();
    assert_eq!(cmd, RfcBotCommand::ResolveConcern("long concern name".to_string()));
}

#[test]
fn disposition_repr_matches_grammar() {
    assert_eq!(FcpDisposition::Merge.repr(), "merge");
    assert_eq!(FcpDisposition::Close.repr(), "close");
    assert_eq!(FcpDisposition::Postpone.repr(), "postpone");
}
