use vstd::prelude::*;

use crate::counter::{bump, count_of, CommandCounter};

verus! {

/// The log line for a command that failed: `Command '<name>' returned error <description>`.
pub open spec fn error_line(name: Seq<char>, description: Seq<char>) -> Seq<char> {
    "Command '"@ + name + "' returned error "@ + description
}

/// What the after hook logs for a command's result: nothing on success, the error line
/// on failure.
pub open spec fn log_of(name: Seq<char>, result: Result<(), Seq<char>>) -> Option<Seq<char>> {
    match result {
        Ok(()) => None,
        Err(description) => Some(error_line(name, description)),
    }
}

/// A command's result as plain values: the error's description on failure.
pub open spec fn result_view(result: Result<(), String>) -> Result<(), Seq<char>> {
    match result {
        Ok(()) => Ok(()),
        Err(description) => Err(description@),
    }
}

/// The hook run before every command: counts one more invocation of `command_name`
/// and answers whether the command may run, which it always may.
pub fn before(counter: &mut CommandCounter, command_name: &str) -> (permit: bool)
    requires
        count_of(old(counter)@, command_name@) < u64::MAX,
    ensures
        permit,
        final(counter)@ == bump(old(counter)@, command_name@),
{
    counter.increment(command_name);
    true
}

/// The hook run after every command, given its result: `None` on success, where
/// nothing is to be logged, and the line to log on failure.
pub fn after(command_name: &str, command_result: &Result<(), String>) -> (line: Option<String>)
    ensures
        line.is_none() <==> command_result.is_ok(),
        match line {
            Some(l) => log_of(command_name@, result_view(*command_result)) == Some(l@),
            None => log_of(command_name@, result_view(*command_result)).is_none(),
        },
{
    match command_result {
        Ok(()) => None,
        Err(description) => {
            let mut l = "Command '".to_owned();
            l.append(command_name);
            l.append("' returned error ");
            l.append(description.as_str());
            Some(l)
        },
    }
}

} // verus!
