use bootboot_loader::bootboot::environment::Environment as StrippedEnvironment;
use bootboot_loader::bootboot::environment::ParseError as StripError;
use bootboot_loader::environment::{Environment, ParseError};

#[test]
fn stripper_removes_line_comments() {
    let raw = String::from("a//comment\nb");
    let env = StrippedEnvironment::parse(&raw).unwrap();
    // the newline ends the comment and is consumed with it
    assert_eq!(env.env, "ab");
}

#[test]
fn stripper_removes_block_comments() {
    let raw = String::from("a/*one\ntwo*/b");
    let env = StrippedEnvironment::parse(&raw).unwrap();
    assert_eq!(env.env, "ab");
}

#[test]
fn stripper_keeps_lone_slashes() {
    let raw = String::from("a/b");
    let env = StrippedEnvironment::parse(&raw).unwrap();
    assert_eq!(env.env, "a/b");
    let raw2 = String::from("ab/");
    let env2 = StrippedEnvironment::parse(&raw2).unwrap();
    assert_eq!(env2.env, "ab/");
}

#[test]
fn stripper_collapses_leading_and_repeated_newlines() {
    let raw = String::from("\n\nfirst\n\n\nsecond\n");
    let env = StrippedEnvironment::parse(&raw).unwrap();
    assert_eq!(env.env, "first\nsecond\n");
}

#[test]
fn stripper_rejects_open_comments() {
    let raw = String::from("text/*never closed");
    assert!(matches!(
        StrippedEnvironment::parse(&raw),
        Err(StripError::IncompleteComment)
    ));
    let raw2 = String::from("text//no newline");
    assert!(matches!(
        StrippedEnvironment::parse(&raw2),
        Err(StripError::IncompleteComment)
    ));
}

#[test]
fn stripper_rejects_oversized_output() {
    let raw: String = std::iter::repeat('a').take(4097).collect();
    assert!(matches!(
        StrippedEnvironment::parse(&raw),
        Err(StripError::TooLarge)
    ));
    let ok: String = std::iter::repeat('a').take(4096).collect();
    assert!(StrippedEnvironment::parse(&ok).is_ok());
}

#[test]
fn from_string_reads_screen_kernel_and_smp() {
    let env =
        Environment::from_string(String::from("screen=800x600\nkernel=sys/mykernel \nnosmp=1\n"))
            .unwrap();
    assert_eq!(env.screen, (800, 600));
    assert_eq!(env.kernel, "sys/mykernel");
    assert!(env.no_smp);
    assert_eq!(env.env_raw, "screen=800x600\nkernel=sys/mykernel \nnosmp=1\n");
}

#[test]
fn from_string_defaults_when_keys_are_missing() {
    let env = Environment::from_string(String::from("hello world\n")).unwrap();
    assert_eq!(env.screen, (1024, 768));
    assert_eq!(env.kernel, "sys/core");
    assert!(!env.no_smp);
}

#[test]
fn from_string_clamps_small_resolutions() {
    let env = Environment::from_string(String::from("screen=100x100\n")).unwrap();
    assert_eq!(env.screen, (640, 480));
}

#[test]
fn from_string_requires_keys_at_line_start() {
    let env = Environment::from_string(String::from("xscreen=800x600\n")).unwrap();
    assert_eq!(env.screen, (1024, 768));
    let env2 = Environment::from_string(String::from("say screen=800x600\n")).unwrap();
    assert_eq!(env2.screen, (800, 600));
}

#[test]
fn from_string_skips_commented_keys() {
    let env = Environment::from_string(String::from("#screen=800x600\nkernel=a\n")).unwrap();
    assert_eq!(env.screen, (1024, 768));
    assert_eq!(env.kernel, "a");
    let env2 = Environment::from_string(String::from("//nosmp=1\n")).unwrap();
    assert!(!env2.no_smp);
}

#[test]
fn from_string_ignores_malformed_screen_values() {
    let env = Environment::from_string(String::from("screen=abcx600\n")).unwrap();
    assert_eq!(env.screen, (1024, 768));
    let env2 = Environment::from_string(String::from("screen=800\n")).unwrap();
    assert_eq!(env2.screen, (1024, 768));
}

#[test]
fn from_string_rejects_oversized_files() {
    let big: String = std::iter::repeat('x').take(4096).collect();
    assert!(matches!(
        Environment::from_string(big),
        Err(ParseError::TooLarge)
    ));
    let edge: String = std::iter::repeat('x').take(4095).collect();
    assert!(Environment::from_string(edge).is_ok());
}

#[test]
fn default_environment_values() {
    let env = Environment::default();
    assert_eq!(env.env_raw, "kernel=sys/core\nscreen=1024x768");
    assert_eq!(env.screen, (1024, 768));
    assert_eq!(env.kernel, "sys/core");
    assert!(!env.no_smp);
}
