//! The options of a command, as they arrive with an interaction.

use vstd::prelude::*;

use crate::text::same_text;

verus! {

/// The value of a command option.
pub enum OptionValue {
    Text(String),
    Integer(i64),
    /// A subcommand with its own options.
    SubCommand(Vec<CommandOption>),
    /// A value of a kind that no command reads.
    Other,
}

/// A command option.
pub struct CommandOption {
    pub name: String,
    pub value: OptionValue,
}

/// The storage namespace of an interaction: the guild, or the user where the
/// interaction comes from outside any guild.
pub fn namespace(guild: Option<u64>, user: u64) -> (r: u64)
    ensures
        r == match guild {
            Some(guild) => guild,
            None => user,
        },
{
    match guild {
        Some(guild) => guild,
        None => user,
    }
}

/// The first option with the given name.
pub open spec fn option_named(options: Seq<CommandOption>, name: Seq<char>) -> Option<OptionValue>
    decreases options.len(),
{
    if options.len() == 0 {
        None
    } else if options[0].name@ == name {
        Some(options[0].value)
    } else {
        option_named(options.drop_first(), name)
    }
}

/// The text of the first option with the given name.
pub open spec fn option_text(options: Seq<CommandOption>, name: Seq<char>) -> Option<Seq<char>> {
    match option_named(options, name) {
        Some(OptionValue::Text(text)) => Some(text@),
        _ => None,
    }
}

/// The number of the first option with the given name.
pub open spec fn option_number(options: Seq<CommandOption>, name: Seq<char>) -> Option<i64> {
    match option_named(options, name) {
        Some(OptionValue::Integer(n)) => Some(n),
        _ => None,
    }
}

fn find_option<'a>(options: &'a [CommandOption], name: &str) -> (r: Option<&'a OptionValue>)
    ensures
        match r {
            Some(value) => option_named(options@, name@) == Some(*value),
            None => option_named(options@, name@) is None,
        },
{
    let mut i: usize = 0;
    assert(options@.skip(0) == options@);
    while i < options.len()
        invariant
            i <= options@.len(),
            option_named(options@, name@) == option_named(options@.skip(i as int), name@),
        decreases options@.len() - i,
    {
        if same_text(options[i].name.as_str(), name) {
            return Some(&options[i].value);
        }
        assert(options@.skip(i as int).drop_first() == options@.skip(i + 1));
        i = i + 1;
    }
    None
}

/// The text of the first option with the given name, if that is a text.
pub fn option_str(options: &[CommandOption], name: &str) -> (r: Option<String>)
    ensures
        match r {
            Some(text) => option_text(options@, name@) == Some(text@),
            None => option_text(options@, name@) is None,
        },
{
    match find_option(options, name) {
        Some(OptionValue::Text(text)) => Some(text.clone()),
        _ => None,
    }
}

/// The number of the first option with the given name, if that is a number.
pub fn option_int(options: &[CommandOption], name: &str) -> (r: Option<i64>)
    ensures
        r == option_number(options@, name@),
{
    match find_option(options, name) {
        Some(OptionValue::Integer(n)) => Some(*n),
        _ => None,
    }
}

/// A later option never hides an earlier one of the same name.
pub proof fn law_first_option_counts(
    before: Seq<CommandOption>,
    option: CommandOption,
    after: Seq<CommandOption>,
)
    requires
        forall|i: int| 0 <= i < before.len() ==> (#[trigger] before[i]).name@ != option.name@,
    ensures
        option_named(before + seq![option] + after, option.name@) == Some(option.value),
    decreases before.len(),
{
    let all = before + seq![option] + after;
    if before.len() > 0 {
        let tail = before.drop_first();
        assert(all[0] == before[0]);
        assert forall|i: int| 0 <= i < tail.len() implies (#[trigger] tail[i]).name@
            != option.name@ by {
            assert(tail[i] == before[i + 1]);
        }
        law_first_option_counts(tail, option, after);
        assert(all.drop_first() == tail + seq![option] + after);
    } else {
        assert(all[0] == option);
    }
}

} // verus!
