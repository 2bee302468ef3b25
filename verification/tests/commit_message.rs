use gup::commit_message::{kind_from_flags, Message, MessageError, MessageKind, MessageKindError, StoryId};

#[test]
fn test_parse_message_kind() {
    let feature = MessageKind::new("feat");
    let fix = MessageKind::new("fix");
    let chore = MessageKind::new("chore");
    let unknown = MessageKind::new("unknown");

    assert_eq!(feature.unwrap().token(), "feat");
    assert_eq!(fix.unwrap().token(), "fix");
    assert_eq!(chore.unwrap().token(), "chore");
    assert!(unknown.is_err());
}

#[test]
fn test_parse_branch() {
    let branch = Message::parse_branch("team-123", None);
    assert_eq!(branch.unwrap().render(), "feat: team-123 ");

    let branch = Message::parse_branch("fix/team-123", None);
    assert_eq!(branch.unwrap().render(), "fix: team-123 ");

    let long_branch = Message::parse_branch("team-123-something-else", None);
    assert_eq!(long_branch.unwrap().render(), "feat: team-123 ");

    let long_branch = Message::parse_branch("chore/team-123-something-else", None);
    assert_eq!(long_branch.unwrap().render(), "chore: team-123 ");

    let long_branch =
        Message::parse_branch("chore/team-123-something-else", Some(MessageKind::Fix));
    assert_eq!(long_branch.unwrap().render(), "fix: team-123 ");

    let wildly_invalid = Message::parse_branch("just a string of some sort", None);
    assert!(wildly_invalid.is_err());

    let invalid = Message::parse_branch("123-something-else", None);
    assert!(invalid.is_err());

    let invalid = Message::parse_branch("flag/something-123-else", None);
    assert!(invalid.is_err());
}

#[test]
fn test_parse_message() {
    let message = Message::parse_message("feat: team-123 something", None);
    assert_eq!(message.unwrap().render(), "feat: team-123 something");

    let message = Message::parse_message("fix: team-123 something", None);
    assert_eq!(message.unwrap().render(), "fix: team-123 something");

    let message = Message::parse_message("team-123 something", None);
    assert_eq!(message.unwrap().render(), "feat: team-123 something");

    let message = Message::parse_message("chore:  something", None);
    assert!(message.is_err());

    let message = Message::parse_message("team-abc something", None);
    assert!(message.is_err());

    let message = Message::parse_message("something", None);
    assert!(message.is_err());
}

#[test]
fn test_parse() {
    let message = Message::parse("feat: team-123 something", "", None);
    assert_eq!(message.unwrap().render(), "feat: team-123 something");

    let message = Message::parse("something", "fix/team-123-blahblah", None);
    assert_eq!(message.unwrap().render(), "fix: team-123 something");

    let message = Message::parse("chore: something", "fix/team-123-h", None);
    assert_eq!(message.unwrap().render(), "fix: team-123 chore: something");

    let message = Message::parse(
        "chore: something",
        "fix/team-123-h",
        Some(MessageKind::Chore),
    );
    assert_eq!(message.unwrap().render(), "chore: team-123 chore: something");

    let message = Message::parse("something", "", None);
    assert!(message.is_err());
}

#[test]
fn parse_branch_unknown_kind_token_is_invalid_kind() {
    let parsed = Message::parse_branch("flag/something-123-else", None);
    assert!(matches!(
        parsed,
        Err(MessageError::InvalidKind(MessageKindError::InvalidKind))
    ));
}

#[test]
fn parse_branch_dash_separated_kind() {
    let parsed = Message::parse_branch("fix-team-123", None);
    assert_eq!(parsed.unwrap().render(), "fix: team-123 ");
}

#[test]
fn parse_branch_force_does_not_invent_a_kind() {
    let parsed = Message::parse_branch("team-123", Some(MessageKind::Chore));
    assert_eq!(parsed.unwrap().render(), "feat: team-123 ");
}

#[test]
fn parse_message_without_space_after_colon() {
    let parsed = Message::parse_message("fix:team-7 done", None);
    assert_eq!(parsed.unwrap().render(), "fix: team-7 done");
}

#[test]
fn parse_message_unknown_kind_degrades_to_default() {
    let parsed = Message::parse_message("wip: team-9 thing", Some(MessageKind::Chore));
    assert_eq!(parsed.unwrap().render(), "chore: team-9 thing");
}

#[test]
fn parse_message_empty_body_keeps_trailing_space() {
    let parsed = Message::parse_message("team-123 ", None);
    assert_eq!(parsed.unwrap().render(), "feat: team-123 ");
}

#[test]
fn parse_message_bare_story_without_space_fails() {
    let parsed = Message::parse_message("team-123", None);
    assert!(matches!(parsed, Err(MessageError::InvalidCommitMessage)));
}

#[test]
fn parse_message_normalizes_leading_zeros() {
    let parsed = Message::parse_message("team-007 licence", None);
    assert_eq!(parsed.unwrap().render(), "feat: team-7 licence");
}

#[test]
fn parse_message_id_at_the_type_bound() {
    let parsed = Message::parse_message("team-4294967295 top", None);
    assert_eq!(parsed.unwrap().render(), "feat: team-4294967295 top");
}

#[test]
fn parse_message_oversized_id_fails() {
    let parsed = Message::parse_message("team-4294967296 over", None);
    assert!(matches!(parsed, Err(MessageError::InvalidCommitMessage)));
}

#[test]
fn parse_branch_oversized_id_fails() {
    let parsed = Message::parse_branch("team-99999999999", None);
    assert!(matches!(parsed, Err(MessageError::InvalidCommitMessage)));
}

#[test]
fn render_then_parse_round_trips() {
    let rendered = Message::parse_message("chore: team_x-42 body: with colons", None)
        .unwrap()
        .render();
    let again = Message::parse_message(&rendered, None).unwrap();
    assert_eq!(again.render(), rendered);

    let rendered = Message::parse_branch("fix/team-9-trailing", None).unwrap().render();
    let again = Message::parse_message(&rendered, None).unwrap();
    assert_eq!(again.render(), rendered);
}

#[test]
fn story_id_renders_team_dash_id() {
    assert_eq!(StoryId::new("team", 123).render(), "team-123");
    assert_eq!(StoryId::new("x_1", 0).render(), "x_1-0");
}

#[test]
fn kind_from_flags_prefers_chore_then_fix() {
    assert_eq!(kind_from_flags(true, true).token(), "chore");
    assert_eq!(kind_from_flags(true, false).token(), "chore");
    assert_eq!(kind_from_flags(false, true).token(), "fix");
    assert_eq!(kind_from_flags(false, false).token(), "feat");
}
