use vstd::prelude::*;

verus! {

/// The environment variable that holds the bot's credential.
pub fn token_var() -> (r: &'static str)
    ensures
        r@ == "TOKEN"@,
{
    "TOKEN"
}

/// The prefix that a message must begin with to be taken as a command.
pub fn prefix() -> (r: &'static str)
    ensures
        r@ == "f!"@,
{
    "f!"
}

/// The activity shown as "playing" once connected.
pub fn presence() -> (r: &'static str)
    ensures
        r@ == "Go to the forever box"@,
{
    "Go to the forever box"
}

/// The reply of the `ping` command.
pub fn ping_reply() -> (r: &'static str)
    ensures
        r@ == "Pong!"@,
{
    "Pong!"
}

/// The message with which startup stops when the variable `var` is not set.
pub open spec fn missing_variable_message(var: Seq<char>) -> Seq<char> {
    "Failed to get variable "@ + var + " from environment."@
}

/// The notice logged once connected, for the bot named `name`.
pub open spec fn online_line(name: Seq<char>) -> Seq<char> {
    name + " is online."@
}

/// The credential taken from the value of the credential variable, if it was set;
/// where it was not, the message that names the missing variable.
pub fn token_from(value: Option<String>) -> (r: Result<String, String>)
    ensures
        r.is_ok() <==> value.is_some(),
        match r {
            Ok(token) => token@ == value.unwrap()@,
            Err(message) => message@ == missing_variable_message("TOKEN"@),
        },
{
    match value {
        Some(token) => Ok(token),
        None => {
            let mut message = "Failed to get variable ".to_owned();
            message.append(token_var());
            message.append(" from environment.");
            Err(message)
        },
    }
}

/// The notice logged once the bot named `bot_name` is connected.
pub fn ready_line(bot_name: &str) -> (r: String)
    ensures
        r@ == online_line(bot_name@),
{
    let mut line = bot_name.to_owned();
    line.append(" is online.");
    line
}

} // verus!
