use gap_buffer::GapBuffer;

fn text_of(b: &GapBuffer) -> String {
    String::from(b.clone())
}

fn buffer_of(s: &str) -> GapBuffer {
    GapBuffer::from(String::from(s))
}

#[test]
fn round_trip_keeps_every_text() {
    for s in ["", "a", "Able doesn't pay me.", "h\u{e9}llo w\u{f6}rld \u{2713}", "\n\t "] {
        assert_eq!(s, String::from(buffer_of(s)));
    }
}

#[test]
fn length_counts_characters_not_bytes() {
    let b = buffer_of("h\u{e9}llo");
    assert_eq!(5, b.len());
    assert_eq!("h\u{e9}llo", text_of(&b));
}

#[test]
fn length_is_the_length_of_the_text_after_each_edit() {
    let mut b = buffer_of("Able doesn't pay me.");
    assert_eq!(20, b.len());
    b.delete(-1);
    assert_eq!(19, b.len());
    assert_eq!(text_of(&b).chars().count(), b.len());
    b.insert_at_cursor(String::from("abc"));
    assert_eq!(22, b.len());
    assert_eq!(text_of(&b).chars().count(), b.len());
    b.move_cursor_to(5);
    assert_eq!(22, b.len());
    assert_eq!(text_of(&b).chars().count(), b.len());
    b.delete(3);
    assert_eq!(19, b.len());
    assert_eq!(text_of(&b).chars().count(), b.len());
    b.flush_typing_buf();
    assert_eq!(19, b.len());
    assert_eq!(text_of(&b).chars().count(), b.len());
    b.move_cursor(-100);
    assert_eq!(text_of(&b).chars().count(), b.len());
}

#[test]
fn flush_keeps_the_text() {
    let mut b = buffer_of("Able doesn't pay me.");
    b.move_cursor_to(4);
    b.delete(1);
    b.insert_at_cursor(String::from(", who"));
    b.delete(-2);
    let before = text_of(&b);
    assert_eq!("Able, wdoesn't pay me.", before);
    b.flush_typing_buf();
    assert_eq!(before, text_of(&b));
    b.flush_typing_buf();
    assert_eq!(before, text_of(&b));
}

#[test]
fn flush_keeps_the_cursor() {
    let mut b = buffer_of("held");
    b.move_cursor_to(3);
    b.insert_at_cursor(String::from("lo wor"));
    b.flush_typing_buf();
    b.insert_at_cursor(String::from("l"));
    assert_eq!("hello world", String::from(b));
}

#[test]
fn moving_beyond_the_end_is_moving_to_the_end() {
    let mut far = buffer_of("Able doesn't pay me.");
    far.move_cursor_to(3);
    let mut near = far.clone();
    far.move_cursor_to(1000);
    near.move_cursor_to(20);
    assert_eq!(text_of(&near), text_of(&far));
    far.insert_at_cursor(String::from("!"));
    near.insert_at_cursor(String::from("!"));
    assert_eq!("Able doesn't pay me.!", text_of(&far));
    assert_eq!(text_of(&near), text_of(&far));
}

#[test]
fn moving_below_the_start_is_moving_to_the_start() {
    let mut far = buffer_of("Able doesn't pay me.");
    far.move_cursor_to(7);
    let mut near = far.clone();
    far.move_cursor(-1000);
    near.move_cursor_to(0);
    far.insert_at_cursor(String::from(">"));
    near.insert_at_cursor(String::from(">"));
    assert_eq!(">Able doesn't pay me.", text_of(&far));
    assert_eq!(text_of(&near), text_of(&far));
}

#[test]
fn moving_below_the_start_with_pending_text() {
    let mut b = buffer_of("cd");
    b.move_cursor_to(0);
    b.insert_at_cursor(String::from("ab"));
    b.move_cursor(-50);
    b.insert_at_cursor(String::from(">"));
    assert_eq!(">abcd", String::from(b));
}

#[test]
fn empty_edits_change_nothing() {
    let mut b = buffer_of("abc");
    b.move_cursor_to(1);
    b.insert_at_cursor(String::new());
    b.delete(0);
    b.move_cursor(0);
    assert_eq!("abc", text_of(&b));
    b.insert_at_cursor(String::from("-"));
    assert_eq!("a-bc", String::from(b));
}

#[test]
fn default_is_the_empty_text() {
    let b = GapBuffer::default();
    assert!(b.is_empty());
    assert_eq!(0, b.len());
    assert_eq!("", String::from(b));
}

#[test]
fn is_empty_looks_at_array_and_window() {
    assert!(buffer_of("").is_empty());
    assert!(!buffer_of("a").is_empty());
    let mut b = GapBuffer::default();
    b.insert_at_cursor(String::from("x"));
    assert!(!b.is_empty());
    b.delete(-1);
    assert!(b.is_empty());
}

#[test]
fn deleting_backward_takes_pending_text_first() {
    let mut b = buffer_of("abc");
    b.insert_at_cursor(String::from("xy"));
    b.delete(-1);
    assert_eq!("abcx", text_of(&b));
    b.delete(-2);
    assert_eq!("ab", text_of(&b));
    assert_eq!(2, b.len());
}

#[test]
fn deleting_backward_in_the_middle() {
    let mut b = buffer_of("abcdef");
    b.move_cursor_to(3);
    b.delete(-2);
    assert_eq!("adef", text_of(&b));
    b.insert_at_cursor(String::from("X"));
    assert_eq!("aXdef", String::from(b));
}

#[test]
fn deleting_backward_more_than_there_is() {
    let mut b = buffer_of("abcdef");
    b.move_cursor_to(2);
    b.delete(-10);
    assert_eq!("cdef", text_of(&b));
    assert_eq!(4, b.len());
    b.insert_at_cursor(String::from(">"));
    assert_eq!(">cdef", String::from(b));
}

#[test]
fn deleting_forward_more_than_there_is() {
    let mut b = buffer_of("abcdef");
    b.move_cursor_to(2);
    b.delete(10);
    assert_eq!("ab", text_of(&b));
    assert_eq!(2, b.len());
    b.insert_at_cursor(String::from("<"));
    assert_eq!("ab<", String::from(b));
}

#[test]
fn deleting_forward_at_the_end_does_nothing() {
    let mut b = buffer_of("abc");
    b.delete(1);
    assert_eq!("abc", text_of(&b));
    b.delete(5);
    assert_eq!("abc", text_of(&b));
    assert_eq!(3, b.len());
}

#[test]
fn deleting_forward_several() {
    let mut b = buffer_of("abcdef");
    b.move_cursor_to(1);
    b.delete(3);
    assert_eq!("aef", text_of(&b));
    b.insert_at_cursor(String::from("-"));
    assert_eq!("a-ef", String::from(b));
}

#[test]
fn typing_in_the_middle() {
    let mut b = buffer_of("held");
    b.move_cursor_to(3);
    b.insert_at_cursor(String::from("lo wor"));
    assert_eq!("hello world".len() - 1, b.len());
    assert_eq!("hello word", String::from(b));
}

#[test]
fn stepping_right_carries_pending_text_into_the_array() {
    let mut b = buffer_of("abc");
    b.move_cursor_to(0);
    b.insert_at_cursor(String::from("X"));
    b.move_cursor(1);
    assert_eq!("Xabc", text_of(&b));
    b.insert_at_cursor(String::from("Y"));
    assert_eq!("XaYbc", text_of(&b));
    b.move_cursor_to(5);
    b.insert_at_cursor(String::from("Z"));
    assert_eq!("XaYbcZ", String::from(b));
}

#[test]
fn stepping_left_carries_pending_text_into_the_array() {
    let mut b = buffer_of("abc");
    b.insert_at_cursor(String::from("XY"));
    b.move_cursor(-1);
    assert_eq!("abcXY", text_of(&b));
    b.insert_at_cursor(String::from("-"));
    assert_eq!("abcX-Y", text_of(&b));
    b.move_cursor_to(1);
    b.insert_at_cursor(String::from("+"));
    assert_eq!("a+bcX-Y", String::from(b));
}

#[test]
fn stepping_left_in_a_buffer_with_nothing_committed() {
    let mut b = GapBuffer::default();
    b.insert_at_cursor(String::from("ab"));
    b.move_cursor(-1);
    assert_eq!("ab", text_of(&b));
    b.insert_at_cursor(String::from("-"));
    assert_eq!("a-b", text_of(&b));
    assert_eq!(3, b.len());
    b.move_cursor(-2);
    b.insert_at_cursor(String::from(">"));
    assert_eq!(">a-b", String::from(b));
}

#[test]
fn moving_across_a_deleted_range() {
    let mut b = buffer_of("abcdef");
    b.move_cursor_to(2);
    b.delete(2);
    assert_eq!("abef", text_of(&b));
    b.move_cursor(1);
    b.insert_at_cursor(String::from("-"));
    assert_eq!("abe-f", text_of(&b));
    b.move_cursor_to(0);
    b.insert_at_cursor(String::from(">"));
    assert_eq!(">abe-f", String::from(b));
}

#[test]
fn editing_goes_on_after_a_flush() {
    let mut b = buffer_of("Able doesn't pay me.");
    b.delete(-1);
    b.insert_at_cursor(String::from(", and yet I work for him."));
    b.flush_typing_buf();
    assert_eq!(44, b.len());
    b.insert_at_cursor(String::from("!"));
    b.move_cursor_to(4);
    b.insert_at_cursor(String::from("son"));
    assert_eq!(
        "Ableson doesn't pay me, and yet I work for him.!",
        String::from(b)
    );
}

#[test]
fn consuming_gives_the_text() {
    let mut b = buffer_of("abc");
    b.move_cursor_to(1);
    b.insert_at_cursor(String::from("-"));
    assert_eq!("a-bc", b.clone().make_into_string_by_consuming());
    assert_eq!("a-bc", String::from(b));
}

#[test]
fn stepping_past_the_end_with_pending_text_changes_nothing() {
    let mut b = buffer_of("abc");
    b.insert_at_cursor(String::from("X"));
    b.move_cursor(1);
    assert_eq!("abcX", text_of(&b));
    assert_eq!(4, b.len());
    b.insert_at_cursor(String::from("!"));
    assert_eq!("abcX!", String::from(b));
}

#[test]
fn stepping_past_the_start_keeps_deleted_text_deleted() {
    let mut b = buffer_of("abc");
    b.move_cursor_to(0);
    b.delete(1);
    b.move_cursor(-1);
    assert_eq!("bc", text_of(&b));
    assert_eq!(2, b.len());
    b.insert_at_cursor(String::from(">"));
    assert_eq!(">bc", String::from(b));
}

#[test]
fn stepping_past_the_end_keeps_deleted_text_deleted() {
    let mut b = buffer_of("abc");
    b.delete(-1);
    b.move_cursor(1);
    assert_eq!("ab", text_of(&b));
    assert_eq!(2, b.len());
    b.insert_at_cursor(String::from("X"));
    assert_eq!("abX", text_of(&b));
    b.move_cursor_to(1);
    b.delete(5);
    b.move_cursor_to(9);
    assert_eq!("a", text_of(&b));
    b.insert_at_cursor(String::from("<"));
    assert_eq!("a<", String::from(b));
}

#[test]
fn moving_far_beyond_the_end_with_pending_text() {
    let mut far = buffer_of("abc");
    far.move_cursor_to(1);
    far.insert_at_cursor(String::from("X"));
    let mut near = far.clone();
    far.move_cursor_to(100);
    near.move_cursor_to(4);
    assert_eq!("aXbc", text_of(&far));
    assert_eq!(4, far.len());
    assert_eq!(text_of(&near), text_of(&far));
    far.insert_at_cursor(String::from("!"));
    near.insert_at_cursor(String::from("!"));
    assert_eq!("aXbc!", text_of(&far));
    assert_eq!(text_of(&near), text_of(&far));
}

#[test]
fn moving_to_the_largest_index_and_back_by_the_largest_step() {
    let mut b = buffer_of("abc");
    b.move_cursor_to(1);
    b.insert_at_cursor(String::from("X"));
    b.move_cursor_to(usize::MAX);
    b.insert_at_cursor(String::from("!"));
    assert_eq!("aXbc!", text_of(&b));
    b.move_cursor(isize::MIN);
    b.insert_at_cursor(String::from(">"));
    assert_eq!(">aXbc!", text_of(&b));
    b.move_cursor(isize::MAX);
    b.insert_at_cursor(String::from("<"));
    assert_eq!(">aXbc!<", text_of(&b));
    assert_eq!(7, b.len());
}

#[test]
fn moving_to_the_same_index_twice_changes_nothing() {
    for i in [0usize, 2, 5, 6, 40] {
        let mut b = buffer_of("abcde");
        b.insert_at_cursor(String::from("X"));
        b.move_cursor_to(i);
        let mut again = b.clone();
        again.move_cursor_to(i);
        assert_eq!("abcdeX", text_of(&again));
        b.insert_at_cursor(String::from("|"));
        again.insert_at_cursor(String::from("|"));
        assert_eq!(text_of(&b), text_of(&again));
    }
}

#[test]
fn moving_and_moving_back_restores_the_cursor() {
    for n in [-5isize, -4, -1, 0, 1] {
        let mut b = buffer_of("abcdef");
        b.move_cursor_to(4);
        b.insert_at_cursor(String::from("X"));
        b.delete(1);
        b.move_cursor(n);
        b.move_cursor(-n);
        assert_eq!("abcdXf", text_of(&b));
        b.insert_at_cursor(String::from("|"));
        assert_eq!("abcdX|f", text_of(&b));
    }
}

#[test]
fn the_cursor_stops_at_either_end() {
    let mut b = buffer_of("abcdef");
    b.move_cursor_to(3);
    b.delete(-1);
    b.delete(1);
    b.insert_at_cursor(String::from("xy"));
    b.move_cursor(9);
    assert_eq!("abxyef", text_of(&b));
    b.move_cursor(-1);
    b.insert_at_cursor(String::from("1"));
    assert_eq!("abxye1f", text_of(&b));
    b.move_cursor(-9);
    b.move_cursor(1);
    b.insert_at_cursor(String::from("2"));
    assert_eq!("a2bxye1f", text_of(&b));
    assert_eq!(8, b.len());
}

#[test]
fn deleting_backward_by_the_largest_count() {
    let mut b = buffer_of("abcdef");
    b.move_cursor_to(4);
    b.insert_at_cursor(String::from("X"));
    b.delete(isize::MIN);
    assert_eq!("ef", text_of(&b));
    b.delete(isize::MAX);
    assert_eq!("", text_of(&b));
    assert_eq!(0, b.len());
}
