use tui_typing_practice::tui_typing_state::{EmptyInputError, TuiTypingState};

fn text(chars: &[char]) -> String {
    chars.iter().collect()
}

fn parts(s: &TuiTypingState) -> (String, String, Option<char>, String) {
    (text(&s.typed()), text(s.mistyped()), s.current(), text(&s.untyped()))
}

fn open(reference: &str) -> TuiTypingState {
    TuiTypingState::new(reference).expect("non-empty text opens a session")
}

#[test]
fn scenario_cat() {
    let mut s = open("cat");
    assert_eq!(parts(&s), ("".to_string(), "".to_string(), Some('c'), "at".to_string()));
    s.update_state('c');
    assert_eq!(parts(&s), ("c".to_string(), "".to_string(), Some('a'), "t".to_string()));
    s.update_state('x');
    assert_eq!(parts(&s), ("c".to_string(), "x".to_string(), Some('a'), "t".to_string()));
    s.update_state('a');
    assert_eq!(parts(&s), ("ca".to_string(), "".to_string(), Some('t'), "".to_string()));
    assert!(!s.is_complete());
    s.update_state('t');
    assert_eq!(parts(&s), ("cat".to_string(), "".to_string(), None, "".to_string()));
    assert!(s.is_complete());
}

#[test]
fn empty_text_is_refused() {
    assert!(matches!(TuiTypingState::new(""), Err(EmptyInputError)));
}

#[test]
fn single_character_text() {
    let mut s = open("z");
    assert_eq!(s.current(), Some('z'));
    assert_eq!(s.position(), 0);
    assert!(!s.is_complete());
    s.update_state('z');
    assert!(s.is_complete());
    assert_eq!(s.position(), 1);
}

#[test]
fn wrong_keys_accumulate_until_a_match() {
    let mut s = open("ok");
    s.update_state('a');
    s.update_state('b');
    s.update_state('a');
    assert_eq!(text(s.mistyped()), "aba");
    assert_eq!(s.current(), Some('o'));
    s.update_state('o');
    assert_eq!(text(s.mistyped()), "");
    assert_eq!(s.current(), Some('k'));
}

#[test]
fn newline_key_matches_only_a_newline() {
    let mut s = open("a\nb");
    s.update_state('a');
    s.update_state('\n');
    assert_eq!(s.current(), Some('b'));
    let mut t = open("a b");
    t.update_state('a');
    t.update_state('\n');
    assert_eq!(text(t.mistyped()), "\n");
    assert_eq!(t.current(), Some(' '));
}

#[test]
fn partition_covers_reference_after_every_key() {
    let reference = "héllo\nwörld";
    let mut s = open(reference);
    for key in "hxéllo\n\nwqörldzz".chars() {
        s.update_state(key);
        let (typed, _, current, untyped) = parts(&s);
        let mut whole = typed.clone();
        if let Some(c) = current {
            whole.push(c);
        }
        whole.push_str(&untyped);
        assert_eq!(whole, reference);
        assert_eq!(text(s.reference()), reference);
    }
    assert!(s.is_complete());
}

#[test]
fn typed_length_never_decreases() {
    let mut s = open("abcabc");
    let mut last = 0;
    for key in "aXbbYcZaabcc".chars() {
        s.update_state(key);
        let now = s.typed().len();
        assert!(now >= last);
        last = now;
    }
    assert_eq!(last, 6);
}

#[test]
fn a_match_clears_the_wrong_keys() {
    let mut s = open("xyz");
    for key in "qqxrryssz".chars() {
        let expected = s.current();
        s.update_state(key);
        if expected == Some(key) {
            assert!(s.mistyped().is_empty());
        }
    }
    assert!(s.is_complete());
}

#[test]
fn complete_session_ignores_further_keys() {
    let mut s = open("hi");
    s.update_state('h');
    s.update_state('i');
    assert!(s.is_complete());
    let before = parts(&s);
    for key in "hi\nx".chars() {
        s.update_state(key);
        assert!(s.is_complete());
        assert_eq!(parts(&s), before);
    }
}

#[test]
fn same_keys_give_same_state() {
    let keys = "tyqpe\nwritten";
    let mut a = open("type\nwritten");
    let mut b = open("type\nwritten");
    for key in keys.chars() {
        a.update_state(key);
        b.update_state(key);
        assert_eq!(parts(&a), parts(&b));
        assert_eq!(a.position(), b.position());
    }
}
