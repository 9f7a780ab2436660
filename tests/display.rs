use tui_typing_practice::display::{DisplayLine, StyleTag};
use tui_typing_practice::tui_typing_state::TuiTypingState;

fn rows(lines: &[DisplayLine]) -> Vec<Vec<(String, StyleTag)>> {
    lines
        .iter()
        .map(|l| l.segments.iter().map(|s| (s.text.iter().collect::<String>(), s.style)).collect())
        .collect()
}

fn seg(t: &str, style: StyleTag) -> (String, StyleTag) {
    (t.to_string(), style)
}

fn after(reference: &str, keys: &str) -> TuiTypingState {
    let mut s = TuiTypingState::new(reference).expect("non-empty text opens a session");
    for k in keys.chars() {
        s.update_state(k);
    }
    s
}

#[test]
fn scenario_embedded_newline() {
    let s = after("ab\ncd", "ab");
    assert_eq!(s.current(), Some('\n'));
    let r = rows(&s.display_lines());
    assert_eq!(r.len(), 2);
    assert_eq!(
        r[0],
        vec![seg("ab", StyleTag::Typed), seg("", StyleTag::Mistyped), seg("\n", StyleTag::Current)]
    );
    assert_eq!(r[1], vec![seg("cd", StyleTag::Untyped)]);
}

#[test]
fn fresh_session_is_one_row() {
    let s = after("cat", "");
    let r = rows(&s.display_lines());
    assert_eq!(
        r,
        vec![vec![
            seg("", StyleTag::Typed),
            seg("", StyleTag::Mistyped),
            seg("c", StyleTag::Current),
            seg("at", StyleTag::Untyped),
        ]]
    );
}

#[test]
fn wrong_keys_show_between_typed_and_current() {
    let s = after("cat", "cx");
    let r = rows(&s.display_lines());
    assert_eq!(
        r,
        vec![vec![
            seg("c", StyleTag::Typed),
            seg("x", StyleTag::Mistyped),
            seg("a", StyleTag::Current),
            seg("t", StyleTag::Untyped),
        ]]
    );
}

#[test]
fn mistyped_newline_breaks_the_row() {
    let s = after("ab", "a\n");
    let r = rows(&s.display_lines());
    assert_eq!(
        r,
        vec![
            vec![seg("a", StyleTag::Typed), seg("\n", StyleTag::Mistyped), seg("b", StyleTag::Current)],
            vec![seg("", StyleTag::Untyped)],
        ]
    );
}

#[test]
fn lines_before_and_after_the_junction() {
    let s = after("one\ntwo\nthree\nfour", "one\ntw");
    let r = rows(&s.display_lines());
    assert_eq!(
        r,
        vec![
            vec![seg("one", StyleTag::Typed)],
            vec![
                seg("tw", StyleTag::Typed),
                seg("", StyleTag::Mistyped),
                seg("o", StyleTag::Current),
                seg("", StyleTag::Untyped),
            ],
            vec![seg("three", StyleTag::Untyped)],
            vec![seg("four", StyleTag::Untyped)],
        ]
    );
}

#[test]
fn empty_lines_are_kept() {
    let s = after("a\n\nb\n\n", "a\n");
    let r = rows(&s.display_lines());
    assert_eq!(
        r,
        vec![
            vec![seg("a", StyleTag::Typed)],
            vec![
                seg("", StyleTag::Typed),
                seg("", StyleTag::Mistyped),
                seg("\n", StyleTag::Current),
            ],
            vec![seg("b", StyleTag::Untyped)],
            vec![seg("", StyleTag::Untyped)],
            vec![seg("", StyleTag::Untyped)],
        ]
    );
}

#[test]
fn completed_session_shows_only_typed_text() {
    let s = after("ab\nc", "ab\nc");
    assert!(s.is_complete());
    let r = rows(&s.display_lines());
    assert_eq!(
        r,
        vec![
            vec![seg("ab", StyleTag::Typed)],
            vec![
                seg("c", StyleTag::Typed),
                seg("", StyleTag::Mistyped),
                seg("", StyleTag::Current),
                seg("", StyleTag::Untyped),
            ],
        ]
    );
}
