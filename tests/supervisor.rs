use taskvisor::config::{Config, ConfigError, ProgramConfig};
use taskvisor::manager::{pad_tag, status_line, status_message, CompletionTracker, TaskManager};
use taskvisor::program::{split_env_entry, EnvError, Program};
use taskvisor::relay::{log_line, stamped_line, LineBuffer};
use taskvisor::task::{resolve_exit, ExitEvent, ExitResult, ProcessOutput, Task, TaskError};

fn program(name: &str, env: &[&str]) -> Program {
    Program {
        name: name.to_string(),
        command: "true".to_string(),
        environment: env.iter().map(|s| s.to_string()).collect(),
    }
}

fn manager(names: &[&str]) -> TaskManager {
    let programs = names
        .iter()
        .map(|n| ProgramConfig { name: n.to_string(), command: format!("echo {}", n), environment: vec![] })
        .collect();
    TaskManager::new(Config { programs })
}

fn output(code: Option<i32>) -> ProcessOutput {
    ProcessOutput { code, stdout: vec![], stderr: vec![] }
}

fn all_lines(chunks: &[&[u8]]) -> Vec<Vec<u8>> {
    let mut buf = LineBuffer::new();
    let mut out = Vec::new();
    for c in chunks {
        out.extend(buf.push_chunk(c));
    }
    if let Some(rest) = buf.finish() {
        out.push(rest);
    }
    out
}

#[test]
fn env_entry_propagates_key_and_value() {
    let p = program("app", &["FOO=bar"]);
    let envs = p.envs().unwrap();
    assert_eq!(envs, vec![("FOO".to_string(), "bar".to_string())]);
}

#[test]
fn env_entry_splits_at_first_separator() {
    assert_eq!(split_env_entry("A=b=c"), Some(("A".to_string(), "b=c".to_string())));
    assert_eq!(split_env_entry("EMPTY="), Some(("EMPTY".to_string(), "".to_string())));
    assert_eq!(split_env_entry("=v"), Some(("".to_string(), "v".to_string())));
    assert_eq!(split_env_entry("NOSEP"), None);
}

#[test]
fn env_later_entry_wins_on_duplicate_key() {
    let p = program("app", &["K=1", "K=2", "E="]);
    let envs = p.envs().unwrap();
    assert_eq!(envs, vec![("K".to_string(), "2".to_string()), ("E".to_string(), "".to_string())]);
}

#[test]
fn env_keys_keep_order_of_first_entry() {
    let p = program("app", &["B=1", "A=2", "B=3", "C=4", "A=5"]);
    let envs = p.envs().unwrap();
    assert_eq!(
        envs,
        vec![
            ("B".to_string(), "3".to_string()),
            ("A".to_string(), "5".to_string()),
            ("C".to_string(), "4".to_string()),
        ]
    );
}

#[test]
fn env_malformed_entry_fails_fast() {
    let p = program("app", &["OK=1", "BROKEN", "ALSO"]);
    assert_eq!(p.envs(), Err(EnvError::MissingSeparator { index: 1 }));
    assert_eq!(program("app", &[]).envs(), Ok(vec![]));
    assert_eq!(EnvError::MissingSeparator { index: 12 }.message(), "environment entry 12 has no '='");
}

#[test]
fn tag_width_is_widest_name() {
    let m = manager(&["abc", "abcdefg", "a"]);
    assert_eq!(m.tag_width(), 7);
    let tags = m.tags();
    assert_eq!(tags, vec!["abc    ".to_string(), "abcdefg".to_string(), "a      ".to_string()]);
    assert!(tags.iter().all(|t| t.chars().count() == 7));
}

#[test]
fn tag_width_of_no_tasks_is_zero() {
    let m = manager(&[]);
    assert_eq!(m.tag_width(), 0);
    assert!(m.tags().is_empty());
}

#[test]
fn manager_keeps_configured_programs() {
    let m = manager(&["web", "db"]);
    assert_eq!(m.programs.len(), 2);
    assert_eq!(m.programs[1].name, "db");
    assert_eq!(m.programs[1].command, "echo db");
}

#[test]
fn pad_tag_right_pads_with_spaces() {
    assert_eq!(pad_tag("ab", 5), "ab   ");
    assert_eq!(pad_tag("abc", 3), "abc");
    assert_eq!(pad_tag("", 2), "  ");
}

#[test]
fn relay_flushes_unterminated_last_line() {
    let lines = all_lines(&[b"a\nb\nc"]);
    assert_eq!(lines, vec![b"a".to_vec(), b"b".to_vec(), b"c".to_vec()]);
}

#[test]
fn relay_joins_lines_split_across_chunks() {
    let lines = all_lines(&[b"he", b"llo\nwor", b"ld\n"]);
    assert_eq!(lines, vec![b"hello".to_vec(), b"world".to_vec()]);
}

#[test]
fn relay_keeps_empty_lines_and_ignores_empty_stream() {
    assert_eq!(all_lines(&[b"\n\nx"]), vec![b"".to_vec(), b"".to_vec(), b"x".to_vec()]);
    assert!(all_lines(&[]).is_empty());
    assert!(all_lines(&[b""]).is_empty());
}

#[test]
fn relay_strips_carriage_return_before_newline() {
    let lines = all_lines(&[b"one\r\ntwo\r", b"\nthree\r"]);
    assert_eq!(lines, vec![b"one".to_vec(), b"two".to_vec(), b"three\r".to_vec()]);
    assert_eq!(all_lines(&[b"\r\n", b"a\rb\n"]), vec![b"".to_vec(), b"a\rb".to_vec()]);
}

#[test]
fn log_line_format() {
    assert_eq!(log_line("12:34:56", "web  ", "listening"), "12:34:56 web   | listening");
}

#[test]
fn stamped_line_has_clock_prefix() {
    let l = stamped_line("db", "ready");
    assert_eq!(l.len(), 8 + " db | ready".len());
    assert!(l.ends_with(" db | ready"));
    let b = l.as_bytes();
    assert_eq!(b[2], b':');
    assert_eq!(b[5], b':');
    for i in [0usize, 1, 3, 4, 6, 7] {
        assert!(b[i].is_ascii_digit());
    }
}

#[test]
fn interrupt_resolves_as_interrupted() {
    assert!(matches!(resolve_exit(ExitEvent::Interrupt), Ok(ExitResult::Interrupted)));
}

#[test]
fn clean_exit_resolves_as_output() {
    match resolve_exit(ExitEvent::Exited(output(Some(0)))) {
        Ok(ExitResult::Output(o)) => assert_eq!(o.code, Some(0)),
        _ => panic!("expected the output of a clean exit"),
    }
}

#[test]
fn exit_code_is_surfaced() {
    let r = resolve_exit(ExitEvent::Exited(output(Some(3))));
    match &r {
        Err(TaskError::NonZeroExitCode { code, .. }) => assert_eq!(*code, Some(3)),
        _ => panic!("expected a non-zero exit"),
    }
    let line = status_line("job", &r);
    assert_eq!(line, "job | exited with non-zero code: 3");
    assert!(line.contains('3'));
}

#[test]
fn signal_exit_is_not_success() {
    let r = resolve_exit(ExitEvent::Exited(output(None)));
    assert!(matches!(r, Err(TaskError::NonZeroExitCode { code: None, .. })));
    assert_eq!(status_message(&r), "exited with non-zero code: none");
}

#[test]
fn wait_failure_resolves_as_io_error() {
    let r = resolve_exit(ExitEvent::WaitFailed("broken pipe".to_string()));
    assert!(matches!(&r, Err(TaskError::IoError(m)) if m == "broken pipe"));
    assert_eq!(status_message(&r), "exited with error: broken pipe");
}

#[test]
fn status_messages() {
    assert_eq!(status_message(&Ok(ExitResult::Output(output(Some(0))))), "exited");
    assert_eq!(status_message(&Ok(ExitResult::Interrupted)), "Interrupted");
    assert_eq!(status_line("a  ", &Ok(ExitResult::Interrupted)), "a   | Interrupted");
    let neg = Err(TaskError::NonZeroExitCode { code: Some(-12), output: output(Some(-12)) });
    assert_eq!(status_message(&neg), "exited with non-zero code: -12");
    let big = Err(TaskError::NonZeroExitCode { code: Some(i32::MIN), output: output(Some(i32::MIN)) });
    assert_eq!(status_message(&big), "exited with non-zero code: -2147483648");
    let hundred = Err(TaskError::NonZeroExitCode { code: Some(100), output: output(Some(100)) });
    assert_eq!(status_message(&hundred), "exited with non-zero code: 100");
}

#[test]
fn setup_failures_become_io_errors() {
    let e = TaskError::from_env_error(&EnvError::MissingSeparator { index: 2 });
    assert!(matches!(&e, TaskError::IoError(m) if m == "environment entry 2 has no '='"));
    let s = TaskError::spawn_failed("No such file or directory");
    assert!(matches!(&s, TaskError::IoError(m) if m == "failed to spawn: No such file or directory"));
    assert_eq!(status_message(&Err(s)), "exited with error: failed to spawn: No such file or directory");
}

#[test]
fn from_output_keeps_code() {
    let e = TaskError::from_output(output(Some(7)));
    assert!(matches!(e, TaskError::NonZeroExitCode { code: Some(7), .. }));
}

#[test]
fn stdout_is_taken_once() {
    let mut t: Task<u8, &str, &str> = Task::new(1, Some("out"), Some("err"));
    assert_eq!(t.stdout(), Some("out"));
    assert_eq!(t.stdout(), None);
    assert_eq!(t.stderr(), Some("err"));
    assert_eq!(t.stderr(), None);
    assert_eq!(t.into_child(), 1);
}

#[test]
fn tracker_done_only_after_every_task() {
    let mut t = CompletionTracker::new(3);
    assert!(!t.is_done());
    t.record();
    t.record();
    assert!(!t.is_done());
    assert_eq!(t.finished(), 2);
    t.record();
    assert!(t.is_done());
    assert_eq!(t.total(), 3);
    assert!(CompletionTracker::new(0).is_done());
}

#[test]
fn config_error_messages() {
    assert_eq!(ConfigError::ConfigFileError("file not found".to_string()).message(), "ConfigFileError: file not found");
    assert_eq!(
        ConfigError::ConfigDeserializedError("invalid config".to_string()).message(),
        "ConfigDeserializedError: invalid config"
    );
}
