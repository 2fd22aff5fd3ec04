use alice::command::{command_of, parse_command, Command};

fn strings(v: &[&str]) -> Vec<String> {
    v.iter().map(|s| s.to_string()).collect()
}

#[test]
fn parses_up_with_name() {
    let info = parse_command("up ./service.py").unwrap();
    assert_eq!(info.cmd, Command::Up);
    assert_eq!(info.exec_name, "./service.py");
    assert!(info.args.is_empty());
}

#[test]
fn command_word_ignores_letter_case() {
    let info = parse_command("ReStArT worker").unwrap();
    assert_eq!(info.cmd, Command::Restart);
    assert_eq!(info.exec_name, "worker");
    assert_eq!(command_of("DOWN"), Command::Down);
    assert_eq!(command_of("Error"), Command::ReceiveErr);
    assert_eq!(command_of("receive"), Command::Receive);
}

#[test]
fn send_keeps_its_arguments_in_order() {
    let info = parse_command("  send   echo  hello \t big   world ").unwrap();
    assert_eq!(info.cmd, Command::Send);
    assert_eq!(info.exec_name, "echo");
    assert_eq!(info.args, strings(&["hello", "big", "world"]));
}

#[test]
fn info_with_or_without_name() {
    let info = parse_command("info").unwrap();
    assert_eq!(info.cmd, Command::Info);
    assert_eq!(info.exec_name, "");
    let info = parse_command("info app").unwrap();
    assert_eq!(info.exec_name, "app");
    assert_eq!(parse_command("info app extra").err(), Some(Command::Info));
}

#[test]
fn invalid_uses_report_their_command() {
    assert_eq!(parse_command("up").err(), Some(Command::Up));
    assert_eq!(parse_command("down a b").err(), Some(Command::Down));
    assert_eq!(parse_command("send app").err(), Some(Command::Send));
    assert_eq!(parse_command("receive").err(), Some(Command::Receive));
    assert_eq!(parse_command("error").err(), Some(Command::ReceiveErr));
    assert_eq!(parse_command("restart x y").err(), Some(Command::Restart));
    assert_eq!(parse_command("launch app").err(), Some(Command::Unknown));
    assert_eq!(parse_command("").err(), Some(Command::Unknown));
    assert_eq!(parse_command("   \t ").err(), Some(Command::Unknown));
}

#[test]
fn unicode_whitespace_separates_words() {
    let info = parse_command("send\u{3000}app\u{00A0}x\u{2009}y").unwrap();
    assert_eq!(info.exec_name, "app");
    assert_eq!(info.args, strings(&["x", "y"]));
    let expected: Vec<String> = "send\u{3000}app\u{00A0}x\u{2009}y"
        .split_whitespace()
        .map(|s| s.to_string())
        .collect();
    assert_eq!(alice::text::split_words("send\u{3000}app\u{00A0}x\u{2009}y"), expected);
}

#[test]
fn non_ascii_command_words_are_unknown() {
    assert_eq!(command_of("ÜP"), Command::Unknown);
    assert_eq!(command_of("\u{212A}ill"), Command::Unknown);
    assert_eq!(command_of("İnfo"), Command::Unknown);
}

#[test]
fn usage_lines() {
    assert_eq!(Command::Up.get_usage(), "Usage: up exec_name");
    assert_eq!(Command::Down.get_usage(), "Usage: down exec_name");
    assert_eq!(Command::Info.get_usage(), "Usage: info [exec_name]");
    assert_eq!(Command::Send.get_usage(), "Usage: send exec_name text");
    assert_eq!(Command::Receive.get_usage(), "Usage: receive exec_name");
    assert_eq!(Command::ReceiveErr.get_usage(), "Usage: error exec_name");
    assert_eq!(Command::Restart.get_usage(), "Usage: restart exec_name");
    assert_eq!(Command::Unknown.get_usage(), "Error: unknown command");
}

#[test]
fn validity_rules() {
    let none: Vec<String> = Vec::new();
    let one = strings(&["x"]);
    assert!(Command::Up.check_validity("a", &none));
    assert!(!Command::Up.check_validity("", &none));
    assert!(!Command::Up.check_validity("a", &one));
    assert!(Command::Info.check_validity("", &none));
    assert!(!Command::Info.check_validity("", &one));
    assert!(Command::Send.check_validity("a", &one));
    assert!(!Command::Send.check_validity("a", &none));
    assert!(!Command::Send.check_validity("", &one));
    assert!(!Command::Unknown.check_validity("a", &none));
}

#[test]
fn written_command_line_parses_back() {
    let line = format!("{} {} {}", "send", "svc", "a b c");
    let info = parse_command(&line).unwrap();
    assert_eq!(info.cmd, Command::Send);
    assert_eq!(info.exec_name, "svc");
    assert_eq!(info.args, strings(&["a", "b", "c"]));
}

#[test]
fn usage_line_names_its_command() {
    for cmd in [
        Command::Up,
        Command::Down,
        Command::Info,
        Command::Send,
        Command::Receive,
        Command::ReceiveErr,
        Command::Restart,
    ] {
        let usage = cmd.get_usage();
        assert!(usage.starts_with("Usage: "));
        let keyword = usage.split_whitespace().nth(1).unwrap().to_string();
        assert_eq!(command_of(&keyword), cmd);
        let line = match cmd {
            Command::Info => keyword.clone(),
            Command::Send => format!("{} svc hello", keyword),
            _ => format!("{} svc", keyword),
        };
        assert_eq!(parse_command(&line).unwrap().cmd, cmd);
    }
    assert_eq!(Command::ReceiveErr.get_usage().split_whitespace().nth(1), Some("error"));
}
