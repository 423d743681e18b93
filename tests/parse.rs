use redisish::{parse, Command, Error};

#[test]
fn retrieve_alone() {
    assert_eq!(parse("RETRIEVE\n"), Ok(Command::Retrieve));
}

#[test]
fn retrieve_with_payload_is_rejected() {
    assert_eq!(parse("RETRIEVE extra\n"), Err(Error::UnexpectedPayload));
}

#[test]
fn retrieve_with_trailing_space_is_rejected() {
    assert_eq!(parse("RETRIEVE \n"), Err(Error::UnexpectedPayload));
}

#[test]
fn publish_with_payload() {
    assert_eq!(
        parse("PUBLISH hello world\n"),
        Ok(Command::Publish("hello world".to_string()))
    );
}

#[test]
fn publish_payload_is_trimmed() {
    assert_eq!(
        parse("PUBLISH   padded text \t\n"),
        Ok(Command::Publish("padded text".to_string()))
    );
}

#[test]
fn publish_payload_trims_unicode_whitespace() {
    assert_eq!(
        parse("PUBLISH \u{3000}caf\u{e9}\u{a0}\n"),
        Ok(Command::Publish("caf\u{e9}".to_string()))
    );
}

#[test]
fn publish_without_payload() {
    assert_eq!(parse("PUBLISH\n"), Err(Error::MissingPayload));
}

#[test]
fn publish_with_lone_space_has_empty_payload() {
    assert_eq!(parse("PUBLISH \n"), Ok(Command::Publish(String::new())));
}

#[test]
fn whitespace_verb_is_empty() {
    assert_eq!(parse(" \n"), Err(Error::EmptyMessage));
}

#[test]
fn blank_line_is_empty() {
    assert_eq!(parse("\n"), Err(Error::EmptyMessage));
}

#[test]
fn tab_only_verb_is_empty() {
    assert_eq!(parse("\t\n"), Err(Error::EmptyMessage));
}

#[test]
fn unknown_verb() {
    assert_eq!(parse("FOO\n"), Err(Error::UnknownVerb));
}

#[test]
fn verbs_are_case_sensitive() {
    assert_eq!(parse("retrieve\n"), Err(Error::UnknownVerb));
    assert_eq!(parse("Publish x\n"), Err(Error::UnknownVerb));
}

#[test]
fn verb_is_trimmed_before_dispatch() {
    assert_eq!(parse("\tRETRIEVE\n"), Ok(Command::Retrieve));
    assert_eq!(parse("PUBLISH\t \n"), Ok(Command::Publish(String::new())));
}

#[test]
fn no_newline_is_incomplete() {
    assert_eq!(parse(""), Err(Error::IncompleteMessage));
    assert_eq!(parse("RETRIEVE"), Err(Error::IncompleteMessage));
    assert_eq!(parse("PUBLISH hello"), Err(Error::IncompleteMessage));
    assert_eq!(parse("   "), Err(Error::IncompleteMessage));
}

#[test]
fn text_after_first_newline_is_ignored() {
    assert_eq!(
        parse("PUBLISH a\nRETRIEVE\n"),
        Ok(Command::Publish("a".to_string()))
    );
    assert_eq!(parse("RETRIEVE\ngarbage"), Ok(Command::Retrieve));
}

#[test]
fn reparsing_the_segment_gives_the_same_result() {
    let inputs = [
        "PUBLISH one two\nRETRIEVE\n",
        "RETRIEVE x\nPUBLISH y\n",
        "FOO\nBAR",
        " \nPUBLISH z\n",
    ];
    for input in inputs {
        let end = input.find('\n').unwrap() + 1;
        assert_eq!(parse(&input[..end]), parse(input));
        assert_eq!(parse(input), parse(input));
    }
}

#[test]
fn payload_keeps_inner_spaces() {
    assert_eq!(
        parse("PUBLISH a  b   c\n"),
        Ok(Command::Publish("a  b   c".to_string()))
    );
}
