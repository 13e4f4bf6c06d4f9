//! The slash commands of the family module: what each of them registers with
//! Discord, and the checks that each makes before it answers.

use serenity::all::{CommandOptionType, CreateCommand, CreateCommandOption, Permissions};
use vstd::prelude::*;

pub mod adopt;
pub mod block;
pub mod information;
pub mod moderation;
pub mod parents;
pub mod partners;
pub mod relationship;
pub mod siblings;
pub mod tree;

pub use adopt::Adopt;
pub use block::{Block, Unblock};
pub use information::relationship::{Relationship, RelationshipResponse};
pub use moderation::ResetFamily;
pub use parents::ParentsCommand;
pub use partners::PartnersCommand;
pub use relationship::RelationshipCommand;
pub use siblings::Siblings;

verus! {

/// A command that Discord is asked to offer, before it is registered.
#[verifier::external_type_specification]
#[verifier::external_body]
pub struct ExCreateCommand(CreateCommand);

/// An option of a command that Discord is asked to offer.
#[verifier::external_type_specification]
#[verifier::external_body]
pub struct ExCreateCommandOption(CreateCommandOption);

/// An option of a command that names a user.
pub struct UserOption {
    pub name: String,
    pub description: String,
    pub required: bool,
}

/// What a command registers: its name, its description, its options (each
/// of which names a user) and whether only administrators may use it.
pub struct CommandSpec {
    pub name: String,
    pub description: String,
    pub options: Vec<UserOption>,
    pub admin_only: bool,
}

/// An option as plain text: name, description, whether it is required.
pub type OptionText = (Seq<char>, Seq<char>, bool);

impl UserOption {
    pub open spec fn text(&self) -> OptionText {
        (self.name@, self.description@, self.required)
    }
}

impl CommandSpec {
    /// Whether this is the command `name`, described by `description`, with
    /// the user options `options` in this order.
    pub open spec fn describes(
        &self,
        name: Seq<char>,
        description: Seq<char>,
        options: Seq<OptionText>,
        admin_only: bool,
    ) -> bool {
        &&& self.name@ == name
        &&& self.description@ == description
        &&& self.options@.len() == options.len()
        &&& forall|i: int| 0 <= i < options.len() ==> #[trigger] self.options@[i].text() == options[i]
        &&& self.admin_only == admin_only
    }
}

/// An option as serenity's builder holds it: name, description, whether it
/// is required, whether it names a user.
pub type BuiltOption = (Seq<char>, Seq<char>, bool, bool);

/// The option that a user option is built as.
pub open spec fn built_option(option: UserOption) -> BuiltOption {
    (option.name@, option.description@, option.required, true)
}

/// The name that a serenity command builder holds.
pub uninterp spec fn command_name(command: CreateCommand) -> Seq<char>;

/// The description that a serenity command builder holds: none, or one.
pub uninterp spec fn command_description(command: CreateCommand) -> Seq<Seq<char>>;

/// The options that a serenity command builder holds, in order.
pub uninterp spec fn command_options(command: CreateCommand) -> Seq<BuiltOption>;

/// The default member permissions that a serenity command builder holds, as
/// the decimal text of their bits: none, or one.
pub uninterp spec fn command_permissions(command: CreateCommand) -> Seq<Seq<char>>;

/// What a serenity option builder holds.
pub uninterp spec fn option_contents(option: CreateCommandOption) -> BuiltOption;

/// Whether a serenity command builder holds the name, description, options
/// and restriction of `spec`.
pub open spec fn builds(command: CreateCommand, spec: CommandSpec) -> bool {
    &&& command_name(command) == spec.name@
    &&& command_description(command) == seq![spec.description@]
    &&& command_options(command) == spec.options@.map_values(|o: UserOption| built_option(o))
    &&& command_permissions(command) == if spec.admin_only {
        seq!["8"@]
    } else {
        Seq::<Seq<char>>::empty()
    }
}

/// Whether a serenity command builder holds the command `name`, described
/// by `description`, with the user options `options` in this order, offered
/// to administrators only or to everyone.
pub open spec fn registers(
    command: CreateCommand,
    name: Seq<char>,
    description: Seq<char>,
    options: Seq<OptionText>,
    admin_only: bool,
) -> bool {
    &&& command_name(command) == name
    &&& command_description(command) == seq![description]
    &&& command_options(command) == options.map_values(|o: OptionText| (o.0, o.1, o.2, true))
    &&& command_permissions(command) == if admin_only {
        seq!["8"@]
    } else {
        Seq::<Seq<char>>::empty()
    }
}

/// A built command holds what its spec describes.
pub proof fn lemma_builds_registers(
    command: CreateCommand,
    spec: CommandSpec,
    name: Seq<char>,
    description: Seq<char>,
    options: Seq<OptionText>,
    admin_only: bool,
)
    requires
        builds(command, spec),
        spec.describes(name, description, options, admin_only),
    ensures
        registers(command, name, description, options, admin_only),
{
    let left = spec.options@.map_values(|o: UserOption| built_option(o));
    let right = options.map_values(|o: OptionText| (o.0, o.1, o.2, true));
    assert forall|i: int| 0 <= i < options.len() implies left[i] == right[i] by {
        assert(spec.options@[i].text() == options[i]);
    }
    assert(left =~= right);
}

/// Calls serenity's `CreateCommand::new`, which starts a command that holds
/// the given name, no description, no options and no default permissions.
#[verifier::external_body]
fn new_command(name: &str) -> (command: CreateCommand)
    ensures
        command_name(command) == name@,
        command_description(command) == Seq::<Seq<char>>::empty(),
        command_options(command) == Seq::<BuiltOption>::empty(),
        command_permissions(command) == Seq::<Seq<char>>::empty(),
{
    CreateCommand::new(name)
}

/// Calls serenity's `CreateCommand::description`, which sets the command's
/// description and keeps the rest.
#[verifier::external_body]
fn describe_command(command: CreateCommand, description: &str) -> (described: CreateCommand)
    ensures
        command_name(described) == command_name(command),
        command_description(described) == seq![description@],
        command_options(described) == command_options(command),
        command_permissions(described) == command_permissions(command),
{
    command.description(description)
}

/// Calls serenity's `CreateCommand::add_option`, which appends an option and
/// keeps the rest.
#[verifier::external_body]
fn add_command_option(command: CreateCommand, option: CreateCommandOption) -> (extended: CreateCommand)
    ensures
        command_name(extended) == command_name(command),
        command_description(extended) == command_description(command),
        command_options(extended) == command_options(command).push(option_contents(option)),
        command_permissions(extended) == command_permissions(command),
{
    command.add_option(option)
}

/// Calls serenity's `CreateCommand::default_member_permissions` with
/// `Permissions::ADMINISTRATOR` (the bit `1 << 3`), which it holds as the
/// text of its bits, `"8"`, and keeps the rest.
#[verifier::external_body]
fn restrict_to_administrators(command: CreateCommand) -> (restricted: CreateCommand)
    ensures
        command_name(restricted) == command_name(command),
        command_description(restricted) == command_description(command),
        command_options(restricted) == command_options(command),
        command_permissions(restricted) == seq!["8"@],
{
    command.default_member_permissions(Permissions::ADMINISTRATOR)
}

/// Calls serenity's `CreateCommandOption::new` with `CommandOptionType::User`,
/// which starts an option that names a user, with the given name and
/// description, and that is not required.
#[verifier::external_body]
fn new_user_option(name: &str, description: &str) -> (option: CreateCommandOption)
    ensures
        option_contents(option) == (name@, description@, false, true),
{
    CreateCommandOption::new(CommandOptionType::User, name, description)
}

/// Calls serenity's `CreateCommandOption::required`, which sets whether the
/// option must be given and keeps the rest.
#[verifier::external_body]
fn require_option(option: CreateCommandOption, required: bool) -> (changed: CreateCommandOption)
    ensures
        option_contents(changed) == (option_contents(option).0, option_contents(option).1, required,
            option_contents(option).3),
{
    option.required(required)
}

/// The serenity builder of a command: its name, then its description, then,
/// in order, its options, and at last its restriction to administrators.
pub fn build_command(spec: &CommandSpec) -> (command: CreateCommand)
    ensures
        builds(command, *spec),
{
    let mut command = new_command(spec.name.as_str());
    command = describe_command(command, spec.description.as_str());
    let ghost built = spec.options@.map_values(|o: UserOption| built_option(o));
    let mut i: usize = 0;
    while i < spec.options.len()
        invariant
            i <= spec.options@.len(),
            built == spec.options@.map_values(|o: UserOption| built_option(o)),
            command_name(command) == spec.name@,
            command_description(command) == seq![spec.description@],
            command_options(command) == built.take(i as int),
            command_permissions(command) == Seq::<Seq<char>>::empty(),
        decreases spec.options@.len() - i,
    {
        let option = &spec.options[i];
        let mut made = new_user_option(option.name.as_str(), option.description.as_str());
        if option.required {
            made = require_option(made, true);
        }
        command = add_command_option(command, made);
        proof {
            assert(built.take(i + 1) == built.take(i as int).push(built[i as int]));
        }
        i = i + 1;
    }
    proof {
        assert(built.take(spec.options@.len() as int) == built);
    }
    if spec.admin_only {
        command = restrict_to_administrators(command);
    }
    command
}

/// A user option with the given texts.
pub fn user_option(name: &str, description: &str, required: bool) -> (option: UserOption)
    ensures
        option.text() == (name@, description@, required),
{
    UserOption { name: name.to_string(), description: description.to_string(), required }
}

/// A command spec with the given texts and options.
pub fn command_spec(name: &str, description: &str, options: Vec<UserOption>, admin_only: bool) -> (spec: CommandSpec)
    ensures
        spec.name@ == name@,
        spec.description@ == description@,
        spec.options@ == options@,
        spec.admin_only == admin_only,
{
    CommandSpec { name: name.to_string(), description: description.to_string(), options, admin_only }
}

} // verus!
