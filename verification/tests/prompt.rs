use replay::pattern::{cleaned_or_same, strip_matches};
use replay::prompt::{
    is_env_var_output, judge_reply, looks_unexpanded, probe_command, read_probe_line, ProbeReply,
    ProbeStep, PromptProbe, PromptTracker, MAX_PROBES,
};
use replay::text::{chars_of, contains, is_white_space, remove_char, string_of, trim};

fn chars(s: &str) -> Vec<char> {
    s.chars().collect()
}

fn found(reply: ProbeReply) -> Option<char> {
    match reply {
        ProbeReply::Found(c) => Some(c),
        _ => None,
    }
}

fn retry(reply: ProbeReply) -> Option<String> {
    match reply {
        ProbeReply::Retry(text) => Some(text),
        _ => None,
    }
}

#[test]
fn matches_of_a_pattern_are_taken_out() {
    assert_eq!(strip_matches("\\x1b\\[[0-9;?]*[a-zA-Z]", "\x1b[1;32muser\x1b[0m$ "), "user$ ");
    assert_eq!(strip_matches("a+", "baaad"), "bd");
    assert_eq!(strip_matches("a+", "xyz"), "xyz");
    assert_eq!(strip_matches("(", "a(b"), "a(b");
    assert_eq!(cleaned_or_same("same", None), "same");
    assert_eq!(cleaned_or_same("same", Some("other".to_string())), "other");
}

#[test]
fn unexpanded_substitutions_are_recognised() {
    assert!(is_env_var_output("$(whoami)"));
    assert!(is_env_var_output("  $(whoami)  \n"));
    assert!(is_env_var_output("\x1b[0m$(date)\x1b[1m"));
    assert!(is_env_var_output("$()"));
    assert!(!is_env_var_output("$("));
    assert!(!is_env_var_output("$"));
    assert!(!is_env_var_output(""));
    assert!(!is_env_var_output("user@host:~$"));
    assert!(!is_env_var_output("$(whoami) $"));
    assert!(looks_unexpanded(&chars("$(x)")));
    assert!(!looks_unexpanded(&chars("(x)")));
}

#[test]
fn probes_ask_the_shell_to_print_a_text() {
    assert_eq!(probe_command("$PS1"), "echo \"$PS1\" \r");
    assert_eq!(probe_command(""), "echo \"\" \r");
}

#[test]
fn lines_of_the_reply_are_judged() {
    assert!(matches!(read_probe_line(""), ProbeReply::Skip));
    assert!(matches!(read_probe_line("  \r\n"), ProbeReply::Skip));
    assert!(matches!(read_probe_line("echo \"$PS1\" \r\n"), ProbeReply::Skip));
    assert_eq!(found(read_probe_line("\x1b[1;32muser@host\x1b[0m:~$ \r\n")), Some('$'));
    assert_eq!(found(read_probe_line("\x01\x1b[0m\x02> ")), Some('>'));
    assert_eq!(found(read_probe_line("λ")), Some('λ'));
    assert_eq!(
        retry(read_probe_line(" $(prompt_text) \r\n")),
        Some("$(prompt_text)".to_string())
    );
    assert!(matches!(judge_reply(&chars(""), false), ProbeReply::Skip));
    assert!(matches!(judge_reply(&chars("an echo"), true), ProbeReply::Skip));
    assert_eq!(retry(judge_reply(&chars("abc"), true)), Some("abc".to_string()));
    assert_eq!(found(judge_reply(&chars("abc"), false)), Some('c'));
}

#[test]
fn the_prompt_is_signalled_once_for_each_command() {
    let mut tracker = PromptTracker::new('$');
    assert!(!tracker.observe(b"Welcome\r\n", false));
    assert!(tracker.observe(b"\x1b[1;32muser@host\x1b[0m:~$ ", false));
    assert!(!tracker.observe(b"user@host:~$ ", false));
    assert!(!tracker.observe(b"ls\r\nfile\r\n", true));
    assert!(tracker.observe(b"user@host:~$ ", false));
    assert!(tracker.observe(b"\x1b]0;title\x07\x1b[?2004huser@host:~$ \r\n", true));
    assert!(!tracker.observe(b"user@host:~$ \xff", true));
    assert!(!tracker.observe(b"", true));
}

#[test]
fn the_tracker_takes_cleaned_text() {
    let mut tracker = PromptTracker::new('>');
    assert!(!tracker.note(&chars(""), false));
    assert!(tracker.note(&chars("mysql>"), false));
    assert!(!tracker.note(&chars("mysql>"), false));
    assert!(tracker.note(&chars("mysql>"), true));
    assert!(!tracker.note(&chars("rows"), true));
    assert!(tracker.note(&chars(">"), false));
}

#[test]
fn text_helpers() {
    assert_eq!(chars_of("héllo"), chars("héllo"));
    assert_eq!(string_of(&chars("héllo")), "héllo");
    assert_eq!(string_of(&trim(&chars(" \t a b \r\n"))), "a b");
    assert_eq!(string_of(&trim(&chars("\u{a0}x\u{3000}"))), "x");
    assert_eq!(string_of(&trim(&chars("   "))), "");
    assert_eq!(string_of(&trim(&chars(""))), "");
    assert!(contains(&chars("an echo here"), &chars("echo")));
    assert!(contains(&chars("echo"), &chars("echo")));
    assert!(contains(&chars("abc"), &chars("")));
    assert!(contains(&chars(""), &chars("")));
    assert!(!contains(&chars("ech"), &chars("echo")));
    assert!(!contains(&chars("e c h o"), &chars("echo")));
    assert_eq!(remove_char("a\rb\r\r", '\r'), "ab");
    assert_eq!(remove_char("", '\r'), "");
}

#[test]
fn the_search_for_the_prompt_asks_again_for_a_substitution() {
    let mut probe = PromptProbe::new();
    assert_eq!(probe.sent(), 0);
    assert_eq!(probe.next_command(), Some("echo \"$PS1\" \r".to_string()));
    assert_eq!(probe.sent(), 1);
    assert!(matches!(probe.on_line("echo \"$PS1\" \r\n"), ProbeStep::ReadOn));
    assert!(matches!(probe.on_line("\r\n"), ProbeStep::ReadOn));
    assert!(matches!(probe.on_line("$(prompt_text)\r\n"), ProbeStep::ProbeAgain));
    assert_eq!(
        probe.next_command(),
        Some("echo \"$(prompt_text)\" \r".to_string())
    );
    assert!(matches!(probe.on_line("user@host:~$ \r\n"), ProbeStep::Found('$')));
    assert_eq!(probe.sent(), 2);
}

#[test]
fn the_search_for_the_prompt_gives_up_after_sixteen_probes() {
    assert_eq!(MAX_PROBES, 16);
    let mut probe = PromptProbe::new();
    for sent in 0..MAX_PROBES {
        assert_eq!(probe.sent(), sent);
        assert!(probe.next_command().is_some());
        assert!(matches!(
            probe.on_reply(ProbeReply::Retry("$(again)".to_string())),
            ProbeStep::ProbeAgain
        ));
    }
    assert_eq!(probe.next_command(), None);
    assert_eq!(probe.next_command(), None);
    assert_eq!(probe.sent(), MAX_PROBES);
}

#[test]
fn white_space_is_what_the_standard_library_calls_white_space() {
    let mut count = 0;
    for code in 0..=0x10FFFFu32 {
        if let Some(c) = char::from_u32(code) {
            assert_eq!(is_white_space(c), c.is_whitespace(), "U+{:04X}", code);
            if is_white_space(c) {
                count += 1;
            }
        }
    }
    assert_eq!(count, 25);
    for text in [" a ", "\u{2003}a\u{85}", "\u{200b}a", "\ta\u{180e}", "\u{feff}a\n"] {
        let chars: Vec<char> = text.chars().collect();
        assert_eq!(string_of(&trim(&chars)), text.trim(), "{:?}", text);
    }
}
