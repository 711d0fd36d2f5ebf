use feishu_bot::command::{parse_command, Command};
use feishu_bot::subscription::SubscriptionEvent;
use feishu_bot::text::{decimal_text, is_white_space, trim};
use regex::Regex;

/// A command in one line, to compare.
fn shown(command: &Command) -> String {
    match command {
        Command::Help => "help".to_string(),
        Command::Ping => "ping".to_string(),
        Command::List => "list".to_string(),
        Command::Unsupported => "unsupported".to_string(),
        Command::Subscribe { repo, event } => format!("subscribe {} {:?}", repo, event),
        Command::Unsubscribe { repo, event } => format!("unsubscribe {} {:?}", repo, event),
    }
}

fn read(text: &str) -> String {
    shown(&parse_command(text))
}

/// The grammar of the commands as regular expressions.
struct Patterns {
    help: Regex,
    ping: Regex,
    subscribe: Regex,
    unsubscribe: Regex,
    list: Regex,
}

impl Patterns {
    fn new() -> Patterns {
        Patterns {
            help: Regex::new(r"^@\S+\s+help$").unwrap(),
            ping: Regex::new(r"^@\S+\s+ping$").unwrap(),
            subscribe: Regex::new(r"^@\S+\s+subscribe\s+(\S+)\s+(pr|issue)$").unwrap(),
            unsubscribe: Regex::new(r"^@\S+\s+unsubscribe\s+(\S+)\s+(pr|issue)$").unwrap(),
            list: Regex::new(r"^@\S+\s+list$").unwrap(),
        }
    }

    fn read(&self, text: &str) -> String {
        if self.help.is_match(text) {
            "help".to_string()
        } else if self.ping.is_match(text) {
            "ping".to_string()
        } else if let Some(captures) = self.subscribe.captures(text) {
            format!("subscribe {} {}", &captures[1], event_name(&captures[2]))
        } else if let Some(captures) = self.unsubscribe.captures(text) {
            format!("unsubscribe {} {}", &captures[1], event_name(&captures[2]))
        } else if self.list.is_match(text) {
            "list".to_string()
        } else {
            "unsupported".to_string()
        }
    }
}

fn event_name(word: &str) -> &'static str {
    if word == "pr" {
        "PullRequest"
    } else {
        "Issue"
    }
}

/// A small generator of pseudorandom numbers.
struct Numbers(u64);

impl Numbers {
    fn below(&mut self, n: u64) -> usize {
        self.0 ^= self.0 << 13;
        self.0 ^= self.0 >> 7;
        self.0 ^= self.0 << 17;
        (self.0 % n) as usize
    }
}

#[test]
fn commands_of_the_help_text() {
    assert_eq!(read("@bot help"), "help");
    assert_eq!(read("@bot ping"), "ping");
    assert_eq!(read("@bot list"), "list");
    assert_eq!(
        read("@bot subscribe octo/repo pr"),
        "subscribe octo/repo PullRequest"
    );
    assert_eq!(
        read("@bot subscribe octo/repo issue"),
        "subscribe octo/repo Issue"
    );
    assert_eq!(
        read("@bot unsubscribe octo/repo pr"),
        "unsubscribe octo/repo PullRequest"
    );
    assert_eq!(
        read("@bot unsubscribe octo/repo issue"),
        "unsubscribe octo/repo Issue"
    );
}

#[test]
fn near_misses_are_unsupported() {
    for text in [
        "",
        "@",
        "help",
        "@ help",
        "@bot",
        "@bot ",
        "@bothelp",
        "@bot help ",
        " @bot help",
        "@bot help me",
        "@bot Help",
        "@bot subscribe",
        "@bot subscribe octo/repo",
        "@bot subscribe pr",
        "@bot subscribe octo/repo push",
        "@bot subscribe octo/repo pr issue",
        "@bot subscribe octo/repo prissue",
        "@bot list all",
        "bot list",
    ] {
        assert_eq!(read(text), "unsupported", "{:?}", text);
    }
}

#[test]
fn gaps_may_be_any_white_space() {
    assert_eq!(read("@bot\u{3000}\t\n help"), "help");
    assert_eq!(
        read("@\u{4f60}\u{597d}\u{a0}subscribe\u{2003}a  pr"),
        "subscribe a PullRequest"
    );
    // A zero width space is no white space.
    assert_eq!(read("@bot\u{200b}help"), "unsupported");
}

#[test]
fn repositories_are_any_word() {
    assert_eq!(read("@b subscribe pr pr"), "subscribe pr PullRequest");
    assert_eq!(read("@@ unsubscribe @ issue"), "unsubscribe @ Issue");
}

#[test]
fn white_space_is_what_the_standard_library_says() {
    for n in 0..0x110000u32 {
        if let Some(c) = char::from_u32(n) {
            assert_eq!(is_white_space(c), c.is_whitespace(), "{:x}", n);
        }
    }
}

#[test]
fn trimming_is_what_the_standard_library_does() {
    let pieces = [" ", "\t", "\u{3000}", "\u{85}", "a", "\u{e9}", "@x", "\u{1f600}", "\n"];
    let mut numbers = Numbers(17);
    for _ in 0..20000 {
        let mut text = String::new();
        for _ in 0..numbers.below(8) {
            text.push_str(pieces[numbers.below(pieces.len() as u64)]);
        }
        assert_eq!(trim(&text), text.trim());
    }
    assert_eq!(trim("  \u{2028} "), "");
    assert_eq!(trim(" \n@bot help\u{205f}"), "@bot help");
}

#[test]
fn padding_around_a_command_is_ignored() {
    assert_eq!(read(trim(" \t@bot ping\n")), "ping");
    assert_eq!(
        read(trim("\u{3000}@bot unsubscribe r issue ")),
        "unsubscribe r Issue"
    );
}

#[test]
fn the_grammar_agrees_with_its_regular_expressions() {
    let patterns = Patterns::new();
    let pieces = [
        "@",
        "@bot",
        "bot",
        " ",
        " ",
        " ",
        "\t",
        "\u{3000}",
        "\u{200b}",
        "\n",
        "help",
        "ping",
        "list",
        "subscribe",
        "unsubscribe",
        "un",
        "octo/repo",
        "\u{4ed3}",
        "pr",
        "issue",
    ];
    let mut numbers = Numbers(2024);
    let mut understood = 0;
    for _ in 0..60000 {
        let mut text = String::new();
        for _ in 0..numbers.below(10) {
            text.push_str(pieces[numbers.below(pieces.len() as u64)]);
        }
        let ours = read(&text);
        assert_eq!(ours, patterns.read(&text), "{:?}", text);
        if ours != "unsupported" {
            understood += 1;
        }
    }
    assert!(understood > 0);
}

#[test]
fn well_formed_commands_agree_with_their_regular_expressions() {
    let patterns = Patterns::new();
    let names = ["bot", "b", "\u{673a}\u{5668}\u{4eba}", "@", "help"];
    let gaps = [" ", "  ", "\t", "\u{2009}\n", "\r\n"];
    let verbs = ["subscribe", "unsubscribe", "subscribed", "list", "help"];
    let repos = ["a/b", "pr", "issue", "\u{e4}", "@x", "subscribe"];
    let kinds = ["pr", "issue", "prs", "PR"];
    for name in names {
        for gap in gaps {
            for verb in verbs {
                let short = format!("@{}{}{}", name, gap, verb);
                assert_eq!(read(&short), patterns.read(&short), "{:?}", short);
                for repo in repos {
                    for kind in kinds {
                        let long = format!("{}{}{}{}{}", short, gap, repo, gap, kind);
                        assert_eq!(read(&long), patterns.read(&long), "{:?}", long);
                    }
                }
            }
        }
    }
}

#[test]
fn events_have_their_names() {
    for event in [SubscriptionEvent::PullRequest, SubscriptionEvent::Issue] {
        assert_eq!(event.name_text(), format!("{:?}", event));
    }
}

#[test]
fn numbers_are_written_in_decimal() {
    for n in [
        0,
        1,
        9,
        10,
        99,
        100,
        1048576,
        -1,
        -10,
        i64::MAX as i128,
        i64::MIN as i128,
        u64::MAX as i128,
        i128::MAX,
        i128::MIN,
    ] {
        assert_eq!(decimal_text(n), n.to_string());
    }
}
