mod bot;
mod counter;
mod hooks;
mod laws;

pub use bot::{
    missing_variable_message, online_line, ping_reply, prefix, presence, ready_line, token_from,
    token_var,
};
pub use counter::{bump, count_of, CommandCounter};
pub use hooks::{after, before, error_line, log_of, result_view};
pub use laws::{
    lemma_body_sees_raised_count, lemma_count_is_invocations, lemma_names_isolated, occurrences,
    replay,
};
