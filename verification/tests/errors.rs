use family::{Error, Relationships};

#[test]
fn plain_answers() {
    assert_eq!(Error::UserSelfMarry.as_response(), "You can't marry yourself!");
    assert_eq!(Error::Bot.as_response(), "Can robots even love?");
    assert_eq!(Error::Zayden.as_response(), "Please... I can do better than you.");
    assert_eq!(
        Error::MaxPartners.as_response(),
        "You're already at your partner limit! Use `/divorce` to break up with someone."
    );
    assert_eq!(Error::UnauthorisedUser.as_response(), "You can't respond to this interaction.");
    assert_eq!(Error::UserSelfAdopt.as_response(), "You can't adopt yourself!");
}

#[test]
fn answers_that_mention_users() {
    let e = Error::AlreadyRelated { target: 123, relationship: Relationships::Parent };
    assert_eq!(e.as_response(), "You guys are already related! <@123> is your Parent.");
    assert_eq!(
        Error::SameUser(45).as_response(),
        "Would you look at that... <@45> is very closely related to <@45>"
    );
    assert_eq!(Error::AlreadyAdopted(9).as_response(), "It looks like <@9> already has a parent.");
}

#[test]
fn unshown_errors_have_empty_answers() {
    assert_eq!(Error::NoInteraction.as_response(), "");
    assert_eq!(Error::UserSelfBlock.as_response(), "");
    assert_eq!(Error::NoData(3).as_response(), "");
}

#[test]
fn parse_errors_convert() {
    let parsed: Result<i64, _> = "x".parse::<i64>();
    let e: Error = Error::from(parsed.unwrap_err());
    assert!(matches!(e, Error::ParseIntError(_)));
}
