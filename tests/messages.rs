use forever_bot::{
    after, ping_reply, prefix, presence, ready_line, token_from, token_var,
};

#[test]
fn after_success_logs_nothing() {
    assert_eq!(after("ping", &Ok(())), None);
    assert_eq!(after("anything", &Ok(())), None);
}

#[test]
fn after_failure_gives_error_line() {
    let line = after("ping", &Err("Http(UnsuccessfulRequest)".to_string()));
    assert_eq!(
        line,
        Some("Command 'ping' returned error Http(UnsuccessfulRequest)".to_string())
    );
}

#[test]
fn after_failure_with_empty_description() {
    assert_eq!(
        after("ping", &Err(String::new())),
        Some("Command 'ping' returned error ".to_string())
    );
}

#[test]
fn missing_token_names_the_variable() {
    let r = token_from(None);
    assert_eq!(
        r,
        Err("Failed to get variable TOKEN from environment.".to_string())
    );
    assert!(r.unwrap_err().contains(token_var()));
}

#[test]
fn present_token_is_kept() {
    assert_eq!(
        token_from(Some("abc123".to_string())),
        Ok("abc123".to_string())
    );
    assert_eq!(token_from(Some(String::new())), Ok(String::new()));
}

#[test]
fn ready_line_names_the_bot() {
    assert_eq!(ready_line("Forever"), "Forever is online.");
}

#[test]
fn fixed_texts() {
    assert_eq!(token_var(), "TOKEN");
    assert_eq!(prefix(), "f!");
    assert_eq!(presence(), "Go to the forever box");
    assert_eq!(ping_reply(), "Pong!");
}
