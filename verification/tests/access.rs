//! Who may open a box's own surfaces.

use hemsd::runtime::access::{
    bearer, generate, token_from, token_of, How, Issued, Kept, LocalAccess, NoEntropy, Refusal,
};

#[test]
fn a_token_opens_its_own_household_and_nothing_else() {
    let access = LocalAccess::for_testing("reference-household", "s3cret");
    let authority = access.authority(Some("Bearer s3cret")).expect("the right token is accepted");
    assert!(authority.may_read("reference-household"));
    assert!(authority.may_write("reference-household"));
    assert!(
        !authority.may_read("somebody-elses-household"),
        "a box's own token is scoped to the box's own household"
    );
    assert!(!authority.may_read_the_fleet(), "and it is not a fleet credential");
}

#[test]
fn every_way_of_not_presenting_a_token_is_refused() {
    let access = LocalAccess::for_testing("reference-household", "s3cret");
    for header in [
        None,
        Some(""),
        Some("s3cret"),
        Some("Bearer"),
        Some("Bearer "),
        Some("Bearer wrong"),
        Some("Basic s3cret"),
        Some("Bearer s3cre"),
    ] {
        assert!(access.authority(header).is_none(), "{header:?} should not open this box");
    }
}

#[test]
fn the_token_announced_is_the_token_accepted() {
    let mut kept: Option<String> = None;
    for expected in [How::Fresh, How::Remembered] {
        let held = match kept.take() {
            Some(token) => Kept::Token(token),
            None => Kept::Nothing,
        };
        let (access, issued) = LocalAccess::resolve(None, held, "reference-household")
            .expect("a box can issue its own credential");
        assert_eq!(issued.how, expected, "the second resolve remembers the first");
        assert!(
            access.authority(Some(&format!("Bearer {}", issued.token))).is_some(),
            "the box refused the token it printed"
        );
        kept = Some(issued.token);
    }
    // …and the same for a box with nothing to remember it in.
    let (access, issued) = LocalAccess::resolve(None, Kept::NoStore, "reference-household")
        .expect("a box with no store still protects itself");
    assert_eq!(issued.how, How::Ephemeral);
    assert!(
        access.authority(Some(&format!("Bearer {}", issued.token))).is_some(),
        "the box refused the token it printed"
    );
}

#[test]
fn a_generated_token_is_not_guessable_and_not_the_same_twice() {
    let first = generate().expect("the operating system's entropy");
    let second = generate().expect("the operating system's entropy");
    assert_eq!(first.len(), 64, "thirty-two bytes, hex");
    assert_ne!(first, second);
    assert!(first.chars().all(|c| c.is_ascii_hexdigit()));
}

#[test]
fn a_configured_token_is_not_announced_and_an_issued_one_is() {
    assert_eq!(Issued { token: "x".into(), how: How::Configured }.announcement(), None);
    for how in [How::Remembered, How::Fresh, How::Ephemeral] {
        let line = Issued { token: "abc".into(), how }
            .announcement()
            .expect("an issued token has to be shown to somebody");
        assert!(line.contains("abc"));
    }
}

#[test]
fn a_configured_token_wins_over_a_remembered_one() {
    let (access, issued) = LocalAccess::resolve(
        Some("mine".to_string()),
        Kept::Token("theirs".to_string()),
        "reference-household",
    )
    .expect("nothing has to be drawn");
    assert_eq!(issued.how, How::Configured);
    assert!(access.authority(Some("Bearer mine")).is_some());
    assert!(access.authority(Some("Bearer theirs")).is_none());
}

#[test]
fn a_token_is_its_bytes_in_hexadecimal() {
    assert_eq!(token_of(&[0x00, 0x9f, 0xff]), "009fff");
    assert_eq!(token_of(&[]), "");
    assert_eq!(token_from(Some([0xa5; 32])), Ok("a5".repeat(32)));
    assert!(token_from(None).is_err(), "a box without entropy issues nothing");
}

#[test]
fn what_stands_behind_the_word_is_the_token() {
    assert_eq!(bearer(Some("Bearer abc")), Some("abc"));
    assert_eq!(bearer(Some("bearer abc")), None);
    assert_eq!(bearer(None), None);
}

#[test]
fn a_manager_reads_and_writes_and_does_not_export() {
    let mut access = LocalAccess::for_testing("house", "own");
    access.connect_manager("acme", "theirs");
    let authority = access.authority(Some("Bearer theirs")).expect("it was let in");
    assert_eq!(authority.subject, "cem:acme");
    assert!(authority.may_read("house") && authority.may_write("house"));
    assert!(!authority.may_read_everything("house"));
    assert_eq!(access.require_token(Some("Bearer theirs"), "/v1/status"), Ok(()));
    assert_eq!(
        access.require_token(Some("Bearer theirs"), "/v1/series/grid"),
        Err(Refusal::Forbidden)
    );
    assert_eq!(access.require_token(Some("Bearer own"), "/v1/series/grid"), Ok(()));
    assert_eq!(access.require_token(None, "/v1/status"), Err(Refusal::Unauthorized));
}

#[test]
fn a_withdrawn_manager_is_shut_out_and_the_others_are_not() {
    let mut access = LocalAccess::for_testing("house", "own");
    let both = vec![
        ("acme".to_string(), "one".to_string()),
        ("other".to_string(), "two".to_string()),
    ];
    assert_eq!(access.restore(&both), 2);
    assert_eq!(access.managers()[1].name, "other");
    assert!(access.forget_manager("acme"), "it was connected");
    assert!(!access.forget_manager("acme"), "and is not any more");
    assert!(access.authority(Some("Bearer one")).is_none());
    assert!(access.authority(Some("Bearer two")).is_some());
    assert!(access.authority(Some("Bearer own")).is_some());
    assert_eq!(access.managers().len(), 1);
    assert_eq!(access.site(), "house");
}

#[test]
fn naming_a_manager_again_rotates_its_token() {
    let mut access = LocalAccess::for_testing("cem:acme", "own");
    access.connect_manager("acme", "one");
    access.connect_manager("other", "two");
    access.connect_manager("acme", "three");
    assert!(access.authority(Some("Bearer one")).is_none(), "the old token stopped working");
    assert!(access.authority(Some("Bearer two")).is_some());
    assert!(access.authority(Some("Bearer three")).is_some());
    assert!(access.authority(Some("Bearer own")).is_some());
    let names: Vec<String> = access.managers().into_iter().map(|m| m.name).collect();
    assert_eq!(names, vec!["other".to_string(), "acme".to_string()]);
}

#[test]
fn a_token_that_was_drawn_is_the_one_that_opens() {
    let drawn = || Ok("aa".to_string());
    for (kept, how) in [(Kept::Nothing, How::Fresh), (Kept::NoStore, How::Ephemeral)] {
        let (access, issued) = LocalAccess::resolve_with(None, kept, "haus", drawn()).expect("a token");
        assert_eq!((issued.token.as_str(), issued.how), ("aa", how));
        assert!(access.authority(Some("Bearer aa")).is_some());
    }
    let held = || Kept::Token("held".to_string());
    let (access, issued) = LocalAccess::resolve_with(None, held(), "haus", drawn()).expect("a token");
    assert_eq!((issued.token.as_str(), issued.how), ("held", How::Remembered));
    assert!(access.authority(Some("Bearer aa")).is_none(), "what was drawn is not needed");
    let set = || Some("set".to_string());
    let (access, issued) = LocalAccess::resolve_with(set(), held(), "haus", Err(NoEntropy)).expect("a token");
    assert_eq!((issued.token.as_str(), issued.how), ("set", How::Configured));
    assert!(access.authority(Some("Bearer set")).is_some() && access.authority(Some("Bearer held")).is_none());
}

#[test]
fn a_box_without_randomness_answers_only_to_a_token_it_has() {
    let dry = || Err(NoEntropy);
    assert!(LocalAccess::resolve_with(None, Kept::Nothing, "haus", dry()).is_err());
    assert!(LocalAccess::resolve_with(None, Kept::NoStore, "haus", dry()).is_err());
    assert!(LocalAccess::resolve_with(None, Kept::Token("a".to_string()), "haus", dry()).is_ok());
}
