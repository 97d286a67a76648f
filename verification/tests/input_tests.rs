use personal_finance_tracker::input::LineEdit;

#[test]
fn line_edit_inserts_at_the_cursor() {
    let mut e = LineEdit::new();
    e.set("ac");
    e.left();
    e.push('b');
    assert_eq!(e.value, "abc");
    assert_eq!(e.cursor, 2);
}

#[test]
fn line_edit_backspace_and_delete() {
    let mut e = LineEdit::new();
    e.set("abc");
    e.backspace();
    assert_eq!(e.value, "ab");
    assert_eq!(e.cursor, 2);
    e.left();
    e.left();
    e.delete();
    assert_eq!(e.value, "b");
    assert_eq!(e.cursor, 0);
    e.backspace();
    assert_eq!(e.value, "b");
    e.right();
    e.right();
    assert_eq!(e.cursor, 1);
    e.delete();
    assert_eq!(e.value, "b");
}

#[test]
fn line_edit_hides_a_password() {
    let mut e = LineEdit::new();
    e.set("secret");
    assert_eq!(e.rendered(), "secret");
    e.password = true;
    assert_eq!(e.rendered(), "******");
    e.clear();
    assert_eq!(e.rendered(), "");
    assert_eq!(e.cursor, 0);
}

#[test]
fn line_edit_counts_bytes_of_other_text() {
    let mut e = LineEdit::new();
    e.set("né");
    assert_eq!(e.cursor, 3);
    e.cursor = 0;
    e.right();
    e.right();
    e.right();
    e.right();
    assert_eq!(e.cursor, 3);
    e.password = true;
    assert_eq!(e.rendered(), "***");
}
