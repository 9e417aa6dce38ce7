use awesome_bot::matcher::Matcher;
use awesome_bot::pattern::modify_command;

fn compile_cmd(cmd: &str) -> Matcher {
    let pattern = modify_command(cmd, "usernamebot");
    Matcher::compile(pattern.as_str()).unwrap()
}

#[test]
fn mt_simple_right() {
    assert_eq!(
        modify_command("test", "usernamebot"),
        String::from("^/test(?:@usernamebot)?$")
    );
}

#[test]
fn mt_end_right() {
    assert_eq!(
        modify_command("test$", "usernamebot"),
        String::from("^/test(?:@usernamebot)?$")
    );
}

#[test]
fn mt_slash_right() {
    assert_eq!(
        modify_command("/test", "usernamebot"),
        String::from("^/test(?:@usernamebot)?$")
    );
}

#[test]
fn mt_slashend_right() {
    assert_eq!(
        modify_command("/test$", "usernamebot"),
        String::from("^/test(?:@usernamebot)?$")
    );
}

#[test]
fn mt_startslash_right() {
    assert_eq!(
        modify_command("^/test", "usernamebot"),
        String::from("^/test(?:@usernamebot)?$")
    );
}

#[test]
fn mt_startslashend_right() {
    assert_eq!(
        modify_command("^/test$", "usernamebot"),
        String::from("^/test(?:@usernamebot)?$")
    );
}

#[test]
fn test_complex_command() {
    assert_eq!(
        modify_command("echo (.+)", "rock"),
        String::from("^/echo(?:@rock)? (.+)$")
    );
}

#[test]
fn rcmd_simple_right() {
    let r = compile_cmd("test");
    assert!(r.is_match("/test"));
}

#[test]
fn rcmd_withusername_right() {
    let r = compile_cmd("test");
    assert!(r.is_match("/test@usernamebot"));
}

#[test]
fn rcmd_capturessimple_right() {
    let r = compile_cmd("test");
    let cap = r.captures("/test").unwrap();
    assert_eq!(cap.len(), 1);
    assert_eq!(cap[0].as_deref(), Some("/test"));
}

#[test]
fn rcmd_capturesusername_right() {
    let r = compile_cmd("test");
    let cap = r.captures("/test@usernamebot").unwrap();
    assert_eq!(cap.len(), 1);
    assert_eq!(cap[0].as_deref(), Some("/test@usernamebot"));
}

#[test]
fn compiled_command_is_anchored_both_ends() {
    let r = compile_cmd("test");
    assert!(r.is_match("/test"));
    assert!(r.is_match("/test@usernamebot"));
    assert!(!r.is_match("/testx"));
    assert!(!r.is_match("x/test"));
    assert!(!r.is_match("/test extra"));
}

#[test]
fn command_with_arguments_keeps_capture_group() {
    let m = Matcher::compile(modify_command("echo (.+)", "rock").as_str()).unwrap();
    assert!(m.is_match("/echo hello"));
    assert!(m.is_match("/echo@rock hello"));
    assert!(!m.is_match("/echo"));
    let caps = m.captures("/echo hello world").unwrap();
    assert_eq!(caps.len(), 2);
    assert_eq!(caps[0].as_deref(), Some("/echo hello world"));
    assert_eq!(caps[1].as_deref(), Some("hello world"));
}

#[test]
fn multiple_spaces_are_rejoined_with_single_spaces() {
    assert_eq!(
        modify_command("echo   (.+)", "rock"),
        String::from("^/echo(?:@rock)? (.+)$")
    );
}

#[test]
fn empty_shorthand_still_anchored() {
    assert_eq!(modify_command("", "usernamebot"), String::from("^/$"));
}

#[test]
fn whitespace_only_shorthand_passes_through_rooting() {
    assert_eq!(modify_command("  ", "usernamebot"), String::from("^/  $"));
}

#[test]
fn explicit_inner_anchor_is_kept_before_suffix() {
    assert_eq!(
        modify_command("stop$ now", "bot"),
        String::from("^/stop(?:@bot)?$ now$")
    );
}
