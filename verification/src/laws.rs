//! What holds of the layouts that the buffer's operations produce.

use crate::layout::{Edit, Layout};
use vstd::prelude::*;

verus! {

/// Making a buffer from a text and reading the text back gives the text.
pub proof fn lemma_round_trip(s: Seq<char>)
    ensures
        Layout::of_text(s).wf(),
        Layout::of_text(s).text() == s,
        Layout::of_text(s).cursor() == s.len(),
{
    assert(Layout::of_text(s).text() =~= s);
}

/// The count of a layout is the length of its text, and the cursor lies
/// within the text.
pub proof fn lemma_count_is_length(l: Layout)
    requires
        l.wf(),
    ensures
        l.count() == l.text().len(),
        l.cursor() <= l.count(),
{
}

/// A step towards the end keeps the text, and puts the cursor one character
/// further unless it stands at the end.
pub proof fn lemma_step_right_keeps_text(l: Layout)
    requires
        l.wf(),
    ensures
        l.step_right().wf(),
        l.step_right().text() == l.text(),
        l.step_right().cursor() == l.bounded(l.cursor() as int + 1),
{
    assert(l.step_right().text() =~= l.text());
}

/// A step towards the beginning keeps the text, and puts the cursor one
/// character back unless it stands at the beginning.
pub proof fn lemma_step_left_keeps_text(l: Layout)
    requires
        l.wf(),
    ensures
        l.step_left().wf(),
        l.step_left().text() == l.text(),
        l.step_left().cursor() == l.bounded(l.cursor() - 1),
{
    assert(l.step_left().text() =~= l.text());
}

proof fn lemma_right_keeps_text(l: Layout, k: nat)
    requires
        l.wf(),
    ensures
        l.right(k).wf(),
        l.right(k).text() == l.text(),
        l.right(k).cursor() == l.bounded(l.cursor() as int + k),
    decreases k,
{
    lemma_count_is_length(l);
    if k > 0 {
        lemma_step_right_keeps_text(l);
        lemma_count_is_length(l.step_right());
        lemma_right_keeps_text(l.step_right(), (k - 1) as nat);
    }
}

proof fn lemma_left_keeps_text(l: Layout, k: nat)
    requires
        l.wf(),
    ensures
        l.left(k).wf(),
        l.left(k).text() == l.text(),
        l.left(k).cursor() == l.bounded(l.cursor() - k),
    decreases k,
{
    lemma_count_is_length(l);
    if k > 0 {
        lemma_step_left_keeps_text(l);
        lemma_count_is_length(l.step_left());
        lemma_left_keeps_text(l.step_left(), (k - 1) as nat);
    }
}

/// Moving the cursor loses, doubles and reorders nothing: the text is kept,
/// and the cursor stands as many characters further as it was asked to, but
/// not before the beginning and not beyond the end of the text.
pub proof fn lemma_move_keeps_text(l: Layout, delta: int)
    requires
        l.wf(),
    ensures
        l.moved(delta).wf(),
        l.moved(delta).text() == l.text(),
        l.moved(delta).count() == l.count(),
        l.moved(delta).cursor() == l.bounded(l.cursor() + delta),
{
    if delta < 0 {
        lemma_left_keeps_text(l, (-delta) as nat);
    } else {
        lemma_right_keeps_text(l, delta as nat);
    }
    lemma_count_is_length(l);
    lemma_count_is_length(l.moved(delta));
}

/// Steps towards the beginning add up: `a` of them and then `b` are `a + b`
/// of them.
pub proof fn lemma_left_adds(l: Layout, a: nat, b: nat)
    ensures
        l.left(a).left(b) == l.left(a + b),
    decreases a,
{
    if a > 0 {
        lemma_left_adds(l.step_left(), (a - 1) as nat, b);
        assert(l.left(a + b) == l.step_left().left((a + b - 1) as nat));
    }
}

/// Steps towards the end add up: `a` of them and then `b` are `a + b` of
/// them.
pub proof fn lemma_right_adds(l: Layout, a: nat, b: nat)
    ensures
        l.right(a).right(b) == l.right(a + b),
    decreases a,
{
    if a > 0 {
        lemma_right_adds(l.step_right(), (a - 1) as nat, b);
        assert(l.right(a + b) == l.step_right().right((a + b - 1) as nat));
    }
}

/// Where no committed text follows the window, steps towards the end change
/// nothing.
pub proof fn lemma_rest_at_end(l: Layout, k: nat)
    requires
        l.end >= l.array.len(),
    ensures
        l.right(k) == l,
    decreases k,
{
    if k > 0 {
        lemma_rest_at_end(l, (k - 1) as nat);
    }
}

/// Where the cursor stands at the beginning, steps towards the beginning
/// change nothing.
pub proof fn lemma_rest_at_start(l: Layout, k: nat)
    requires
        l.cursor() == 0,
    ensures
        l.left(k) == l,
    decreases k,
{
    if k > 0 {
        lemma_rest_at_start(l, (k - 1) as nat);
    }
}

/// A move past an end of the text is none: with the cursor at the end, a
/// move towards the end leaves the layout as it is, and so does a move
/// towards the beginning with the cursor at the beginning.
pub proof fn lemma_move_at_an_end(l: Layout, delta: int)
    requires
        l.wf(),
        (l.cursor() == l.count() && delta >= 0) || (l.cursor() == 0 && delta <= 0),
    ensures
        l.moved(delta) == l,
{
    if delta < 0 {
        lemma_rest_at_start(l, (-delta) as nat);
    } else if l.cursor() == l.count() {
        lemma_rest_at_end(l, delta as nat);
    }
}

/// Moving the cursor to an index beyond the text is moving it to the end of
/// the text.
pub proof fn lemma_move_beyond_end(l: Layout, i: nat)
    requires
        l.wf(),
        i >= l.count(),
    ensures
        l.moved(i - l.cursor()) == l.moved(l.count() - l.cursor()),
        l.moved(i - l.cursor()).text() == l.text(),
        l.moved(i - l.cursor()).cursor() == l.count(),
{
    let near = (l.count() - l.cursor()) as nat;
    let rest = (i - l.count()) as nat;
    lemma_move_keeps_text(l, near as int);
    lemma_right_adds(l, near, rest);
    lemma_rest_at_end(l.right(near), rest);
}

/// Moving the cursor further towards the beginning than there is text is
/// moving it to the beginning.
pub proof fn lemma_move_below_start(l: Layout, k: nat)
    requires
        l.wf(),
        k >= l.cursor(),
    ensures
        l.moved(-(k as int)) == l.moved(-(l.cursor() as int)),
        l.moved(-(k as int)).text() == l.text(),
        l.moved(-(k as int)).cursor() == 0,
{
    let near = l.cursor();
    let rest = (k - l.cursor()) as nat;
    lemma_move_keeps_text(l, -(near as int));
    lemma_left_adds(l, near, rest);
    lemma_rest_at_start(l.left(near), rest);
    if near == 0 {
        lemma_rest_at_start(l, k);
    }
}

/// Moving the cursor to the index where it was just moved to changes
/// nothing.
pub proof fn lemma_move_to_twice(l: Layout, i: nat)
    requires
        l.wf(),
    ensures
        l.moved(i - l.cursor()).moved(i - l.moved(i - l.cursor()).cursor()) == l.moved(
            i - l.cursor(),
        ),
{
    let once = l.moved(i - l.cursor());
    lemma_move_keeps_text(l, i - l.cursor());
    if i > l.count() {
        lemma_move_at_an_end(once, i - once.cursor());
    }
}

/// A move that stays within the text, followed by the same move the other
/// way, gives back the text and the cursor.
pub proof fn lemma_move_and_back(l: Layout, delta: int)
    requires
        l.wf(),
        0 <= l.cursor() + delta <= l.count(),
    ensures
        l.moved(delta).moved(-delta).text() == l.text(),
        l.moved(delta).moved(-delta).cursor() == l.cursor(),
{
    lemma_move_keeps_text(l, delta);
    lemma_move_keeps_text(l.moved(delta), -delta);
}

/// Typing puts the characters into the text at the cursor and the cursor
/// behind them.
pub proof fn lemma_typed_text(l: Layout, s: Seq<char>)
    requires
        l.wf(),
    ensures
        l.typed(s).wf(),
        l.typed(s).text() == l.text().take(l.cursor() as int) + s + l.text().skip(
            l.cursor() as int,
        ),
        l.typed(s).cursor() == l.cursor() + s.len(),
{
    assert(l.typed(s).text() =~= l.text().take(l.cursor() as int) + s + l.text().skip(
        l.cursor() as int,
    ));
}

/// Deleting after the cursor takes out of the text the `n` characters that
/// follow the cursor, or all that follow it where they are fewer, and leaves
/// the cursor where it is.
pub proof fn lemma_deleted_after_text(l: Layout, n: nat)
    requires
        l.wf(),
    ensures
        l.deleted(n as int).wf(),
        l.deleted(n as int).cursor() == l.cursor(),
        l.deleted(n as int).text() == l.text().take(l.cursor() as int) + l.text().skip(
            l.bounded(l.cursor() as int + n) as int,
        ),
{
    assert(l.deleted(n as int).text() =~= l.text().take(l.cursor() as int) + l.text().skip(
        l.bounded(l.cursor() as int + n) as int,
    ));
}

/// Deleting before the cursor takes out of the text the `n` characters that
/// precede the cursor, or all that precede it where they are fewer, and
/// leaves the cursor behind what is left of them.
pub proof fn lemma_deleted_before_text(l: Layout, n: nat)
    requires
        l.wf(),
        n >= 1,
    ensures
        l.deleted(-(n as int)).wf(),
        l.deleted(-(n as int)).cursor() == l.bounded(l.cursor() - n),
        l.deleted(-(n as int)).text() == l.text().take(l.bounded(l.cursor() - n) as int)
            + l.text().skip(l.cursor() as int),
{
    assert(l.deleted(-(n as int)).text() =~= l.text().take(l.bounded(l.cursor() - n) as int)
        + l.text().skip(l.cursor() as int));
}

/// Committing the pending text changes neither the text nor the cursor.
pub proof fn lemma_flush_keeps_text(l: Layout)
    requires
        l.wf(),
    ensures
        l.flushed().wf(),
        l.flushed().text() == l.text(),
        l.flushed().cursor() == l.cursor(),
{
    assert(l.flushed().text() =~= l.text());
}

/// Whatever the operation, the indices go on bounding a range of the array.
pub proof fn lemma_after_wf(l: Layout, edit: Edit)
    requires
        l.wf(),
    ensures
        l.after(edit).wf(),
{
    match edit {
        Edit::MoveBy(delta) => lemma_move_keeps_text(l, delta),
        Edit::MoveTo(i) => lemma_move_keeps_text(l, i - l.cursor()),
        Edit::Type(s) => {},
        Edit::Delete(n) => {},
        Edit::Flush => lemma_flush_keeps_text(l),
    }
}

/// After any sequence of operations on a buffer made from a text, the count
/// is the length of the text that the buffer then stands for.
pub proof fn lemma_count_after_edits(s: Seq<char>, edits: Seq<Edit>)
    ensures
        Layout::of_text(s).after_all(edits).wf(),
        Layout::of_text(s).after_all(edits).count() == Layout::of_text(s).after_all(
            edits,
        ).text().len(),
    decreases edits.len(),
{
    if edits.len() > 0 {
        lemma_count_after_edits(s, edits.drop_last());
        lemma_after_wf(Layout::of_text(s).after_all(edits.drop_last()), edits.last());
    }
    lemma_count_is_length(Layout::of_text(s).after_all(edits));
}

} // verus!
