use rost::shell::{find_name, record_history, EditResult, LineEditor};

fn chars(s: &str) -> Vec<char> {
    s.chars().collect()
}

fn names() -> Vec<Vec<char>> {
    ["sleep_test", "thread_test", "threads", "uptime"].iter().map(|s| chars(s)).collect()
}

fn feed_all(ed: &mut LineEditor, input: &str, history: &Vec<Vec<char>>) -> String {
    let mut shown = String::new();
    for c in input.chars() {
        match ed.feed(c, &names(), history) {
            EditResult::Echo(t) => shown.extend(t),
            EditResult::Submit => shown.push_str("<enter>"),
        }
    }
    shown
}

#[test]
fn typing_echoes_and_enter_submits() {
    let mut ed = LineEditor::new();
    let shown = feed_all(&mut ed, "up time\r", &vec![]);
    assert_eq!(shown, "up time<enter>");
    assert_eq!(ed.line, chars("up time"));
}

#[test]
fn control_characters_are_kept_but_not_shown() {
    let mut ed = LineEditor::new();
    let shown = feed_all(&mut ed, "a-b", &vec![]);
    assert_eq!(shown, "ab");
    assert_eq!(ed.line, chars("a-b"));
}

#[test]
fn backspace_and_delete_erase() {
    let mut ed = LineEditor::new();
    let shown = feed_all(&mut ed, "ab\u{8}c\u{7f}\u{7f}\u{7f}", &vec![]);
    assert_eq!(shown, "ab\u{8} \u{8}c\u{8} \u{8}\u{8} \u{8}");
    assert!(ed.line.is_empty());
}

#[test]
fn tab_cycles_through_completions() {
    let mut ed = LineEditor::new();
    feed_all(&mut ed, "thr", &vec![]);
    let shown = feed_all(&mut ed, "\t", &vec![]);
    assert_eq!(ed.line, chars("thread_test"));
    assert_eq!(shown, "\u{8} \u{8}\u{8} \u{8}\u{8} \u{8}thread_test");
    feed_all(&mut ed, "\t", &vec![]);
    assert_eq!(ed.line, chars("threads"));
    feed_all(&mut ed, "\t", &vec![]);
    assert_eq!(ed.line, chars("thread_test"));
    assert_eq!(ed.completions, vec![1, 2]);
}

#[test]
fn tab_without_match_does_nothing() {
    let mut ed = LineEditor::new();
    feed_all(&mut ed, "x", &vec![]);
    assert_eq!(feed_all(&mut ed, "\t", &vec![]), "");
    assert_eq!(ed.line, chars("x"));
}

#[test]
fn arrows_walk_history() {
    let history = vec![chars("uptime"), chars("threads")];
    let mut ed = LineEditor::new();
    let shown = feed_all(&mut ed, "\u{1b}[A", &history);
    assert_eq!(shown, "threads");
    assert_eq!(ed.line, chars("threads"));
    feed_all(&mut ed, "\u{1b}[A", &history);
    assert_eq!(ed.line, chars("uptime"));
    feed_all(&mut ed, "\u{1b}[A", &history);
    assert_eq!(ed.line, chars("uptime"));
    feed_all(&mut ed, "\u{1b}[B", &history);
    assert_eq!(ed.line, chars("threads"));
    feed_all(&mut ed, "\u{1b}[B", &history);
    assert!(ed.line.is_empty());
}

#[test]
fn unknown_escape_sequence_is_reported() {
    let mut ed = LineEditor::new();
    let shown = feed_all(&mut ed, "ab\u{1b}[C", &vec![]);
    assert_eq!(shown, "abunknown escape sequence: C\n$ ");
    assert_eq!(ed.line, chars("ab"));
}

#[test]
fn history_moves_repeated_line_to_end() {
    let mut history = Vec::new();
    record_history(&mut history, &chars("uptime"));
    record_history(&mut history, &chars("threads"));
    record_history(&mut history, &chars(""));
    assert_eq!(history, vec![chars("uptime"), chars("threads")]);
    record_history(&mut history, &chars("uptime"));
    assert_eq!(history, vec![chars("threads"), chars("uptime")]);
}

#[test]
fn command_lookup() {
    assert_eq!(find_name(&names(), &chars("threads")), Some(2));
    assert_eq!(find_name(&names(), &chars("thread")), None);
}

#[test]
fn echo_shows_printable_characters() {
    assert_eq!(rost::shell::echo('a', true), vec!['a']);
    assert_eq!(rost::shell::echo('a', false), Vec::<char>::new());
    assert_eq!(rost::shell::echo(' ', false), vec![' ']);
    assert_eq!(rost::shell::echo('_', false), vec!['_']);
    assert_eq!(rost::shell::echo('\u{7}', false), Vec::<char>::new());
}
