use freya_terminal::decoder::{decode, TermEvent};
use freya_terminal::reply::{
    list_effects, report_position, working_directory_path, Effect, Reports,
};

fn label(effect: &Effect<Vec<u8>>) -> String {
    match effect {
        Effect::NotifyTitle => "title".to_string(),
        Effect::NotifyClipboard => "clipboard".to_string(),
        Effect::Write(bytes) => format!("write {}", String::from_utf8_lossy(&bytes[1..])),
        Effect::Flush => "flush".to_string(),
        Effect::SendUpdate => "update".to_string(),
        Effect::NotifyOutput => "output".to_string(),
        Effect::NotifyClosed => "closed".to_string(),
        Effect::RequestRedraw => "redraw".to_string(),
        Effect::DropWriter => "drop".to_string(),
    }
}

#[test]
fn working_directories_lose_scheme_and_host() {
    assert_eq!(working_directory_path("file:///home/me"), "/home/me");
    assert_eq!(working_directory_path("file://box/home/me"), "/home/me");
    assert_eq!(working_directory_path("file://box/"), "/");
    assert_eq!(working_directory_path("file:///"), "/");
    assert_eq!(working_directory_path("file:////a"), "//a");
    assert_eq!(working_directory_path("file://box"), "box");
    assert_eq!(working_directory_path("file://"), "");
    assert_eq!(working_directory_path("/home/me"), "/home/me");
    assert_eq!(working_directory_path("home/me"), "home/me");
    assert_eq!(working_directory_path("file:/x"), "file:/x");
    assert_eq!(working_directory_path("FILE:///x"), "FILE:///x");
    assert_eq!(working_directory_path(""), "");
    assert_eq!(
        working_directory_path("file://hôst/répertoire/日本"),
        "/répertoire/日本"
    );
}

#[test]
fn stripping_twice_changes_nothing() {
    let urls = ["file://h/p", "file://h", "/p", "file://", "file://h/file://x/y"];
    for url in urls {
        let once = working_directory_path(url);
        assert_eq!(working_directory_path(&once), once);
    }
}

#[test]
fn positions_are_reported_from_one() {
    assert_eq!(report_position(0, 0), b"\x1b[1;1R");
    assert_eq!(report_position(23, 80), b"\x1b[24;81R");
    assert_eq!(report_position(9, 99), b"\x1b[10;100R");
    assert_eq!(report_position(65534, 999), b"\x1b[65535;1000R");
}

#[test]
fn queries_are_answered_and_reports_remembered() {
    let mut reports = Reports::new();
    let events = vec![
        TermEvent::PrimaryAttributes,
        TermEvent::WindowTitle("one".to_string()),
        TermEvent::SecondaryAttributes,
        TermEvent::Other,
        TermEvent::Selection("copied".to_string()),
        TermEvent::StatusReport,
        TermEvent::IconNameAndWindowTitle("two".to_string()),
        TermEvent::CursorPosition,
        TermEvent::WorkingDirectory("file://box/srv".to_string()),
    ];
    let (notified, responses) = reports.apply(events, 4, 6);
    let notified: Vec<String> = notified.iter().map(label).collect();
    assert_eq!(notified, ["title", "clipboard", "title"]);
    assert_eq!(
        responses,
        vec![
            b"\x1b[?62;22c".to_vec(),
            b"\x1b[>0;0;0c".to_vec(),
            b"\x1b[0n".to_vec(),
            b"\x1b[5;7R".to_vec(),
        ]
    );
    assert_eq!(reports.title.as_deref(), Some("two"));
    assert_eq!(reports.clipboard_content.as_deref(), Some("copied"));
    assert_eq!(reports.cwd.as_deref(), Some("/srv"));
}

#[test]
fn events_can_be_dealt_with_in_two_goes() {
    let mut whole = Reports::new();
    let mut halves = Reports::new();
    let first = || vec![TermEvent::StatusReport, TermEvent::WindowTitle("a".to_string())];
    let second = || vec![TermEvent::CursorPosition, TermEvent::WindowTitle("b".to_string())];
    let mut both = first();
    both.extend(second());
    let (_, at_once) = whole.apply(both, 1, 2);
    let (_, mut in_turn) = halves.apply(first(), 1, 2);
    let (_, rest) = halves.apply(second(), 1, 2);
    in_turn.extend(rest);
    assert_eq!(at_once, in_turn);
    assert_eq!(whole.title, halves.title);
}

#[test]
fn effects_come_in_order() {
    let effects = list_effects(
        vec![Effect::NotifyTitle],
        vec![b"\x1b[0n".to_vec(), b"\x1b[1;1R".to_vec()],
        true,
    );
    let labels: Vec<String> = effects.iter().map(label).collect();
    assert_eq!(
        labels,
        ["title", "write [0n", "write [1;1R", "flush", "update", "output"]
    );
}

#[test]
fn nothing_is_written_without_a_reply_or_a_writer() {
    let effects = list_effects(Vec::new(), Vec::new(), true);
    let labels: Vec<String> = effects.iter().map(label).collect();
    assert_eq!(labels, ["update", "output"]);

    let effects = list_effects(vec![Effect::NotifyClipboard], vec![b"\x1b[0n".to_vec()], false);
    let labels: Vec<String> = effects.iter().map(label).collect();
    assert_eq!(labels, ["clipboard", "update", "output"]);
}

fn kind(event: &TermEvent<String>) -> String {
    match event {
        TermEvent::PrimaryAttributes => "da1".to_string(),
        TermEvent::SecondaryAttributes => "da2".to_string(),
        TermEvent::StatusReport => "dsr5".to_string(),
        TermEvent::CursorPosition => "dsr6".to_string(),
        TermEvent::WorkingDirectory(url) => format!("cwd {url}"),
        TermEvent::WindowTitle(title) => format!("title {title}"),
        TermEvent::IconNameAndWindowTitle(title) => format!("icon and title {title}"),
        TermEvent::Selection(text) => format!("selection {text}"),
        TermEvent::Other => "other".to_string(),
    }
}

fn kinds(parser: &mut termwiz::escape::parser::Parser, data: &[u8]) -> Vec<String> {
    decode(parser, data)
        .iter()
        .filter(|event| !matches!(event, TermEvent::Other))
        .map(kind)
        .collect()
}

#[test]
fn every_event_is_recognised() {
    let mut parser = termwiz::escape::parser::Parser::new();
    assert_eq!(kinds(&mut parser, b"\x1b[c\x1b[0c"), ["da1", "da1"]);
    assert_eq!(kinds(&mut parser, b"\x1b[>c"), ["da2"]);
    assert_eq!(kinds(&mut parser, b"\x1b[5n\x1b[6n"), ["dsr5", "dsr6"]);
    assert_eq!(
        kinds(&mut parser, b"\x1b]7;file:///tmp\x1b\\"),
        ["cwd file:///tmp"]
    );
    assert_eq!(kinds(&mut parser, b"\x1b]2;t\x07"), ["title t"]);
    assert_eq!(kinds(&mut parser, b"\x1b]0;t\x07"), ["icon and title t"]);
    assert_eq!(kinds(&mut parser, b"\x1b]52;c;aGk=\x07"), ["selection hi"]);
    assert_eq!(kinds(&mut parser, b"plain\x1b[31m\x1b]1;i\x07").len(), 0);
    assert_eq!(decode(&mut parser, b"ab").len(), 2);
}

#[test]
fn an_event_may_be_split_over_chunks() {
    let mut parser = termwiz::escape::parser::Parser::new();
    assert_eq!(kinds(&mut parser, b"\x1b[").len(), 0);
    assert_eq!(kinds(&mut parser, b"6n"), ["dsr6"]);
    assert_eq!(kinds(&mut parser, b"\x1b]2;lo").len(), 0);
    assert_eq!(kinds(&mut parser, b"ng\x07"), ["title long"]);
}
