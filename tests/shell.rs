use aether_kernel::shell::{process_command, streq, trim};

fn out(line: &str, pid: isize) -> (String, bool) {
    let r = process_command(line.as_bytes(), pid);
    (String::from_utf8(r.output).unwrap(), r.exit)
}

#[test]
fn trim_drops_blanks_at_both_ends() {
    assert_eq!(trim(b"  echo hi \r\n"), b"echo hi".to_vec());
    assert_eq!(trim(b" \n\r "), Vec::<u8>::new());
    assert_eq!(trim(b"x"), b"x".to_vec());
}

#[test]
fn streq_compares_bytes() {
    assert!(streq(b"help", b"help"));
    assert!(!streq(b"help", b"hel"));
    assert!(!streq(b"help", b"helP"));
}

#[test]
fn exit_says_goodbye() {
    assert_eq!(out("exit\n", 1), ("Goodbye!\n".to_string(), true));
}

#[test]
fn help_lists_commands() {
    let (text, exit) = out(" help ", 1);
    assert!(!exit);
    assert!(text.starts_with("Built-in commands:\n"));
    assert!(text.contains("  pid   - Show process ID\n"));
}

#[test]
fn echo_repeats_its_argument() {
    assert_eq!(out("echo hello world", 1), ("hello world\n".to_string(), false));
    assert_eq!(out("echo", 1), ("\n".to_string(), false));
}

#[test]
fn pid_prints_one_digit() {
    assert_eq!(out("pid", 7), ("PID: 7\n".to_string(), false));
}

#[test]
fn unknown_command_is_reported() {
    assert_eq!(
        out("ls -l", 1),
        ("Unknown command: ls -l\nType 'help' for available commands.\n".to_string(), false)
    );
}

#[test]
fn blank_line_prints_nothing() {
    assert_eq!(out("   \n", 1), (String::new(), false));
}
