use serenity::all::ReactionConversionError;
use serenity::model::timestamp::InvalidTimestamp;
use serenity::Error as SerenityError;
use sqlx::Error as SqlxError;
use vstd::prelude::*;
use vstd::std_specs::convert::FromSpecImpl;

use crate::mention::{mention_text, user_mention};
use crate::relationships::Relationships;

verus! {

/// A failure of one of serenity's requests.
#[verifier::external_type_specification]
#[verifier::external_body]
pub struct ExSerenityError(SerenityError);

/// A timestamp that serenity could not read.
#[verifier::external_type_specification]
#[verifier::external_body]
pub struct ExInvalidTimestamp(InvalidTimestamp);

/// A failure of one of sqlx's database requests.
#[verifier::external_type_specification]
#[verifier::external_body]
pub struct ExSqlxError(SqlxError);

/// A number that could not be read from text.
#[verifier::external_type_specification]
#[verifier::external_body]
pub struct ExParseIntError(std::num::ParseIntError);

/// A reaction that serenity could not read.
#[verifier::external_type_specification]
#[verifier::external_body]
pub struct ExReactionConversionError(ReactionConversionError);

/// Why a family command or button was refused, or failed.
#[derive(Debug)]
pub enum Error {
    Zayden,
    Bot,
    InvalidUserId,
    AlreadyRelated { target: u64, relationship: Relationships },
    UnauthorisedUser,
    NoMentionedUser,
    NoInteraction,
    SameUser(u64),
    UserSelfAdopt,
    AlreadyAdopted(u64),
    AdoptCancelled,
    UserSelfBlock,
    Blocked(u64),
    SelfNoChildren,
    NoChildren(u64),
    UserSelfMarry,
    MaxPartners,
    MarryCancelled,
    SelfNoPartners,
    NoPartners(u64),
    SelfNoParents,
    NoParents(u64),
    NoData(u64),
    Serenity(SerenityError),
    SerenityTimestamp(InvalidTimestamp),
    Sqlx(SqlxError),
    ParseIntError(std::num::ParseIntError),
    ReactionConversionError(ReactionConversionError),
}

/// The results of the family commands.
pub type Result<T> = std::result::Result<T, Error>;

/// Whether every user that an error's answer mentions has a real (non-zero)
/// Discord id.
pub open spec fn mentions_real_users(e: &Error) -> bool {
    match e {
        Error::AlreadyRelated { target, .. } => *target != 0,
        Error::SameUser(id) => *id != 0,
        Error::AlreadyAdopted(id) => *id != 0,
        _ => true,
    }
}

/// The answer that a user is shown for an error; empty where the error is
/// not meant to be shown.
pub open spec fn response_text(e: &Error) -> Seq<char> {
    match e {
        Error::UserSelfMarry => "You can't marry yourself!"@,
        Error::Bot => "Can robots even love?"@,
        Error::Zayden => "Please... I can do better than you."@,
        Error::AlreadyRelated { target, relationship } => "You guys are already related! "@
            + mention_text(*target) + " is your "@ + relationship.label() + "."@,
        Error::MaxPartners =>
            "You're already at your partner limit! Use `/divorce` to break up with someone."@,
        Error::UnauthorisedUser => "You can't respond to this interaction."@,
        Error::SameUser(id) => "Would you look at that... "@ + mention_text(*id)
            + " is very closely related to "@ + mention_text(*id),
        Error::UserSelfAdopt => "You can't adopt yourself!"@,
        Error::AlreadyAdopted(id) => "It looks like "@ + mention_text(*id)
            + " already has a parent."@,
        _ => Seq::<char>::empty(),
    }
}

impl Error {
    /// The answer that the user who caused this error is shown.
    pub fn as_response(&self) -> (text: String)
        requires
            mentions_real_users(self),
        ensures
            text@ == response_text(self),
    {
        match self {
            Error::UserSelfMarry => String::from_str("You can't marry yourself!"),
            Error::Bot => String::from_str("Can robots even love?"),
            Error::Zayden => String::from_str("Please... I can do better than you."),
            Error::AlreadyRelated { target, relationship } => {
                let mut text = String::from_str("You guys are already related! ");
                let mention = user_mention(*target);
                text.append(mention.as_str());
                text.append(" is your ");
                let label = relationship.to_string();
                text.append(label.as_str());
                text.append(".");
                text
            },
            Error::MaxPartners => String::from_str(
                "You're already at your partner limit! Use `/divorce` to break up with someone.",
            ),
            Error::UnauthorisedUser => String::from_str("You can't respond to this interaction."),
            Error::SameUser(id) => {
                let mention = user_mention(*id);
                let mut text = String::from_str("Would you look at that... ");
                text.append(mention.as_str());
                text.append(" is very closely related to ");
                text.append(mention.as_str());
                text
            },
            Error::UserSelfAdopt => String::from_str("You can't adopt yourself!"),
            Error::AlreadyAdopted(id) => {
                let mut text = String::from_str("It looks like ");
                let mention = user_mention(*id);
                text.append(mention.as_str());
                text.append(" already has a parent.");
                text
            },
            _ => String::new(),
        }
    }
}

impl From<SerenityError> for Error {
    fn from(e: SerenityError) -> (r: Error) {
        Error::Serenity(e)
    }
}

impl FromSpecImpl<SerenityError> for Error {
    open spec fn obeys_from_spec() -> bool {
        true
    }

    open spec fn from_spec(e: SerenityError) -> Error {
        Error::Serenity(e)
    }
}

impl From<SqlxError> for Error {
    fn from(e: SqlxError) -> (r: Error) {
        Error::Sqlx(e)
    }
}

impl FromSpecImpl<SqlxError> for Error {
    open spec fn obeys_from_spec() -> bool {
        true
    }

    open spec fn from_spec(e: SqlxError) -> Error {
        Error::Sqlx(e)
    }
}

impl From<InvalidTimestamp> for Error {
    fn from(e: InvalidTimestamp) -> (r: Error) {
        Error::SerenityTimestamp(e)
    }
}

impl FromSpecImpl<InvalidTimestamp> for Error {
    open spec fn obeys_from_spec() -> bool {
        true
    }

    open spec fn from_spec(e: InvalidTimestamp) -> Error {
        Error::SerenityTimestamp(e)
    }
}

impl From<std::num::ParseIntError> for Error {
    fn from(e: std::num::ParseIntError) -> (r: Error) {
        Error::ParseIntError(e)
    }
}

impl FromSpecImpl<std::num::ParseIntError> for Error {
    open spec fn obeys_from_spec() -> bool {
        true
    }

    open spec fn from_spec(e: std::num::ParseIntError) -> Error {
        Error::ParseIntError(e)
    }
}

impl From<ReactionConversionError> for Error {
    fn from(e: ReactionConversionError) -> (r: Error) {
        Error::ReactionConversionError(e)
    }
}

impl FromSpecImpl<ReactionConversionError> for Error {
    open spec fn obeys_from_spec() -> bool {
        true
    }

    open spec fn from_spec(e: ReactionConversionError) -> Error {
        Error::ReactionConversionError(e)
    }
}

} // verus!
