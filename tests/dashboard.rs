use multirun::color::{quote_color, Color};
use multirun::commands::{Commands, Outcome};
use multirun::supervisor::{Capture, CommandDesc, CommandStatus};
use multirun::terminal::Terminal;

const ERASE: &str = "\x1b[2K\x1b[F";

fn desc(words: &[&str]) -> CommandDesc {
    CommandDesc::new(words.iter().map(|w| w.to_string()).collect())
}

fn argv(c: &CommandDesc) -> Vec<&str> {
    c.command_strs.iter().map(|s| s.as_str()).collect()
}

#[test]
fn terminal_states() {
    assert!(!CommandStatus::Unstarted.is_terminal_state());
    assert!(!CommandStatus::Running.is_terminal_state());
    assert!(CommandStatus::Finished(0).is_terminal_state());
    assert!(CommandStatus::Finished(3).is_terminal_state());
    assert!(CommandStatus::Error("x".to_string()).is_terminal_state());
}

#[test]
fn error_states() {
    assert!(!CommandStatus::Unstarted.is_error());
    assert!(!CommandStatus::Running.is_error());
    assert!(!CommandStatus::Finished(0).is_error());
    assert!(CommandStatus::Finished(1).is_error());
    assert!(CommandStatus::Finished(-9).is_error());
    assert!(CommandStatus::Error(String::new()).is_error());
}

#[test]
fn render_escapes() {
    assert_eq!(Color::Normal.render(), "\x1b[0m");
    assert_eq!(Color::Gray.render(), "\x1b[90m");
    assert_eq!(Color::Green.render(), "\x1b[32m");
    assert_eq!(Color::Red.render(), "\x1b[31m");
    assert_eq!(Color::Yellow.render(), "\x1b[33m");
    assert_eq!(Color::Other(7).render(), "\x1b[7m");
    assert_eq!(Color::Other(-5).render(), "\x1b[-5m");
}

#[test]
fn parse_of_render_is_identity() {
    for c in [Color::Normal, Color::Gray, Color::Green, Color::Red, Color::Yellow, Color::Other(7), Color::Other(105)] {
        assert_eq!(Color::find_all(&c.render()), vec![c]);
    }
}

#[test]
fn parse_without_escapes_is_empty() {
    assert!(Color::find_all("").is_empty());
    assert!(Color::find_all("plain text [31m no escape").is_empty());
}

#[test]
fn parse_in_order_of_occurrence() {
    assert_eq!(
        Color::find_all("a\x1b[31mred\x1b[0m b \x1b[90mgray \x1b[33m\x1b[32m"),
        vec![Color::Red, Color::Normal, Color::Gray, Color::Yellow, Color::Green]
    );
}

#[test]
fn parse_other_codes() {
    assert_eq!(Color::find_all("\x1b[7m"), vec![Color::Other(7)]);
    assert_eq!(Color::find_all("\x1b[00m"), vec![Color::Other(0)]);
    assert_eq!(Color::find_all("\x1b[99999999999m"), vec![Color::Normal]);
    assert!(Color::find_all("\x1b[m \x1b[-1m").is_empty());
}

#[test]
fn from_code_values() {
    assert_eq!(Color::from_code("0"), Color::Normal);
    assert_eq!(Color::from_code("33"), Color::Yellow);
    assert_eq!(Color::from_code("+4"), Color::Other(4));
    assert_eq!(Color::from_code("x"), Color::Normal);
}

#[test]
fn quote_color_selection() {
    assert_eq!(quote_color(&vec![]), Color::Normal);
    assert_eq!(quote_color(&vec![Color::Green]), Color::Green);
    assert_eq!(quote_color(&vec![Color::Red, Color::Normal]), Color::Yellow);
    assert_eq!(quote_color(&Color::find_all("no codes")), Color::Normal);
    assert_eq!(quote_color(&Color::find_all("\x1b[90mdim")), Color::Gray);
}

#[test]
fn terminal_tracks_rows_and_rewinds() {
    let mut t = Terminal::new();
    t.reset();
    assert_eq!(t.take_output(), "");
    t.write_str("ab");
    t.write_str("c\nd\n");
    assert_eq!(t.tracked_rows(), 2);
    assert_eq!(t.take_output(), "abc\nd\n");
    t.reset();
    assert_eq!(t.take_output(), format!("{}{}", ERASE, ERASE));
    t.write_str("x\n");
    t.reset();
    assert_eq!(t.tracked_rows(), 2);
    assert_eq!(t.take_output(), format!("x\n{}{}", ERASE, ERASE));
}

#[test]
fn start_and_check_transitions() {
    let mut d = desc(&["ls", "-l"]);
    d.check(Ok(Some(Some(0))));
    assert!(matches!(d.status, CommandStatus::Unstarted));
    d.start(Ok(()));
    assert!(matches!(d.status, CommandStatus::Running));
    assert!(d.started);
    d.check(Ok(None));
    assert!(matches!(d.status, CommandStatus::Running));
    d.check(Ok(Some(Some(2))));
    assert!(matches!(d.status, CommandStatus::Finished(2)));
    d.check(Ok(Some(Some(0))));
    assert!(matches!(d.status, CommandStatus::Finished(2)));

    let mut e = desc(&["x"]);
    e.start(Ok(()));
    e.check(Ok(Some(None)));
    assert!(matches!(&e.status, CommandStatus::Error(m) if m == "Error reading status code"));

    let mut f = desc(&["x"]);
    f.start(Ok(()));
    f.check(Err("poll broke".to_string()));
    assert!(matches!(&f.status, CommandStatus::Error(m) if m == "poll broke"));

    let mut g = desc(&["missing"]);
    g.start(Err("not found".to_string()));
    assert!(!g.started);
    assert!(matches!(&g.status, CommandStatus::Error(m) if m == "not found"));
}

#[test]
fn empty_command_stays_unstarted() {
    let mut d = desc(&[]);
    assert!(!d.wants_spawn());
    d.start(Ok(()));
    d.check(Ok(Some(Some(1))));
    assert!(matches!(d.status, CommandStatus::Unstarted));
    assert_eq!(d.details(&Capture::Read("x".to_string()), &Capture::Missing), "");
    let mut cs = Commands::new();
    cs.add_command("   ".to_string());
    let mut t = Terminal::new();
    cs.print_details(&vec![(Capture::Missing, Capture::Missing)], &mut t);
    assert_eq!(t.take_output(), ": \x1b[90m\u{b7}  \x1b[0m\n");
}

#[test]
fn summary_glyphs() {
    let mut d = desc(&["make", "all"]);
    assert_eq!(d.summary(0), "make all: \x1b[90m\u{b7}  \x1b[0m");
    assert_eq!(d.summary(1), "make all: \x1b[90m \u{b7} \x1b[0m");
    assert_eq!(d.summary(6), "make all: \x1b[90m  \u{b7}\x1b[0m");
    assert_eq!(d.summary(7), "make all: \x1b[90m \u{b7} \x1b[0m");
    d.start(Ok(()));
    assert_eq!(d.summary(0), "make all: \x1b[0m\u{280b}\x1b[0m");
    assert_eq!(d.summary(13), "make all: \x1b[0m\u{2838}\x1b[0m");
    assert_eq!(d.summary(19), "make all: \x1b[0m\u{280f}\x1b[0m");
    d.check(Ok(Some(Some(0))));
    assert_eq!(d.summary(5), "make all: \x1b[32mOK\x1b[0m");
    let mut e = desc(&["x"]);
    e.start(Ok(()));
    e.check(Ok(Some(Some(4))));
    assert_eq!(e.summary(0), "x: \x1b[31mFAILED\x1b[0m");
}

#[test]
fn details_quote_each_line() {
    let mut d = desc(&["x"]);
    d.start(Ok(()));
    d.check(Ok(Some(Some(1))));
    assert!(d.wants_output());
    let out = Capture::Read("one\n\x1b[32mtwo".to_string());
    let err = Capture::Read(String::new());
    assert_eq!(
        d.details(&out, &err),
        "\x1b[0m\u{2502}\x1b[0m one\n\x1b[32m\u{2502}\x1b[0m \x1b[32mtwo\n"
    );
    let trailing = Capture::Read("a\n".to_string());
    assert_eq!(
        d.details(&Capture::Missing, &trailing),
        "\x1b[0m\u{2502}\x1b[0m a\n\x1b[0m\u{2502}\x1b[0m \n"
    );
}

#[test]
fn details_read_failure_annotation() {
    let mut d = desc(&["x"]);
    d.start(Ok(()));
    d.check(Ok(Some(Some(1))));
    let out = Capture::ReadFailed("par".to_string(), "bad utf8".to_string());
    assert_eq!(
        d.details(&out, &Capture::Missing),
        "\x1b[33m\u{2502}\x1b[0m par\x1b[31mError reading stdout\x1b[0m: bad utf8\n"
    );
}

#[test]
fn add_command_splits_whitespace() {
    let mut cs = Commands::new();
    cs.add_command("  ls  -la\t/tmp ".to_string());
    cs.add_command("".to_string());
    cs.add_command("echo\u{3000}hi".to_string());
    assert_eq!(cs.commands.len(), 3);
    assert_eq!(argv(&cs.commands[0]), vec!["ls", "-la", "/tmp"]);
    assert!(cs.commands[1].command_strs.is_empty());
    assert_eq!(argv(&cs.commands[2]), vec!["echo", "hi"]);
}

#[test]
fn scenario_true_succeeds() {
    let mut cs = Commands::new();
    cs.add_command("true".to_string());
    let mut t = Terminal::new();
    assert!(cs.is_first_round());
    cs.summarize_all(vec![Outcome::Spawn(Ok(()))], &mut t);
    assert_eq!(t.take_output(), "true: \x1b[0m\u{280b}\x1b[0m\n");
    assert!(!cs.all_done());
    cs.summarize_all(vec![Outcome::Poll(Ok(Some(Some(0))))], &mut t);
    assert_eq!(t.take_output(), format!("{}true: \x1b[32mOK\x1b[0m\n", ERASE));
    assert!(cs.all_done());
    cs.print_details(&vec![(Capture::Missing, Capture::Missing)], &mut t);
    assert_eq!(t.take_output(), format!("{}true: \x1b[32mOK\x1b[0m\n", ERASE));
}

#[test]
fn scenario_false_fails_quietly() {
    let mut cs = Commands::new();
    cs.add_command("false".to_string());
    let mut t = Terminal::new();
    cs.summarize_all(vec![Outcome::Spawn(Ok(()))], &mut t);
    cs.summarize_all(vec![Outcome::Poll(Ok(Some(Some(1))))], &mut t);
    assert!(cs.all_done());
    assert!(cs.commands[0].wants_output());
    t.take_output();
    let caps = vec![(Capture::Read(String::new()), Capture::Read(String::new()))];
    cs.print_details(&caps, &mut t);
    assert_eq!(t.take_output(), format!("{}false: \x1b[31mFAILED\x1b[0m\n", ERASE));
}

#[test]
fn scenario_missing_binary() {
    let mut cs = Commands::new();
    cs.add_command("nonexistent-binary-xyz".to_string());
    let mut t = Terminal::new();
    cs.summarize_all(vec![Outcome::Spawn(Err("No such file or directory".to_string()))], &mut t);
    assert!(matches!(cs.commands[0].status, CommandStatus::Error(_)));
    assert!(!cs.commands[0].started);
    assert!(cs.all_done());
    t.take_output();
    cs.print_details(&vec![(Capture::Missing, Capture::Missing)], &mut t);
    assert_eq!(
        t.take_output(),
        format!(
            "{}nonexistent-binary-xyz: \x1b[31mFAILED\x1b[0m\n\x1b[31m!\x1b[0m Failed to start process\n",
            ERASE
        )
    );
}

#[test]
fn scenario_colored_stderr_quotes_yellow() {
    let mut cs = Commands::new();
    cs.add_command("sh -c fail".to_string());
    let mut t = Terminal::new();
    cs.summarize_all(vec![Outcome::Spawn(Ok(()))], &mut t);
    cs.summarize_all(vec![Outcome::Poll(Ok(Some(Some(2))))], &mut t);
    t.take_output();
    let caps = vec![(Capture::Read(String::new()), Capture::Read("\x1b[31mboom\x1b[0m".to_string()))];
    cs.print_details(&caps, &mut t);
    assert_eq!(
        t.take_output(),
        format!(
            "{}sh -c fail: \x1b[31mFAILED\x1b[0m\n\x1b[33m\u{2502}\x1b[0m \x1b[31mboom\x1b[0m\n",
            ERASE
        )
    );
}

#[test]
fn finished_set_is_stable() {
    let mut cs = Commands::new();
    cs.add_command("a".to_string());
    cs.add_command("b".to_string());
    let mut t = Terminal::new();
    cs.summarize_all(vec![Outcome::Spawn(Ok(())), Outcome::Spawn(Err("e".to_string()))], &mut t);
    cs.summarize_all(vec![Outcome::Poll(Ok(Some(Some(0)))), Outcome::Nothing], &mut t);
    assert!(cs.all_done());
    for _ in 0..3 {
        cs.summarize_all(
            vec![Outcome::Poll(Ok(Some(Some(9)))), Outcome::Poll(Err("late".to_string()))],
            &mut t,
        );
        assert!(matches!(cs.commands[0].status, CommandStatus::Finished(0)));
        assert!(matches!(&cs.commands[1].status, CommandStatus::Error(m) if m == "e"));
    }
    assert_eq!(cs.tick, 5);
}

#[test]
fn frame_rewinds_previous_rows() {
    let mut cs = Commands::new();
    cs.add_command("a".to_string());
    cs.add_command("b".to_string());
    let mut t = Terminal::new();
    cs.summarize_all(vec![Outcome::Nothing, Outcome::Nothing], &mut t);
    assert_eq!(t.take_output(), "a: \x1b[90m\u{b7}  \x1b[0m\nb: \x1b[90m\u{b7}  \x1b[0m\n");
    assert_eq!(t.tracked_rows(), 2);
    cs.summarize_all(vec![Outcome::Nothing, Outcome::Nothing], &mut t);
    assert!(t.take_output().starts_with(&format!("{}{}a: ", ERASE, ERASE)));
}

#[test]
fn finished_set_stays_done_when_counter_wraps() {
    let mut cs = Commands::new();
    cs.add_command("true".to_string());
    let mut t = Terminal::new();
    cs.summarize_all(vec![Outcome::Spawn(Ok(()))], &mut t);
    cs.summarize_all(vec![Outcome::Poll(Ok(Some(Some(0))))], &mut t);
    assert!(cs.all_done());
    cs.tick = usize::MAX;
    cs.summarize_all(vec![Outcome::Nothing], &mut t);
    assert_eq!(cs.tick, 0);
    assert!(cs.is_first_round());
    assert!(!cs.commands[0].wants_spawn());
    cs.summarize_all(vec![Outcome::Spawn(Ok(()))], &mut t);
    assert!(matches!(cs.commands[0].status, CommandStatus::Finished(0)));
    assert!(cs.all_done());
    let mut d = desc(&["x"]);
    d.start(Err("gone".to_string()));
    d.start(Ok(()));
    assert!(!d.started);
    assert!(matches!(&d.status, CommandStatus::Error(m) if m == "gone"));
}
