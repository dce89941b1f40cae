//! The executable buffer.

use crate::laws::{
    lemma_deleted_after_text, lemma_deleted_before_text, lemma_flush_keeps_text, lemma_left_adds,
    lemma_move_keeps_text, lemma_rest_at_end, lemma_rest_at_start, lemma_round_trip,
    lemma_typed_text,
};
use crate::layout::Layout;
use std::collections::VecDeque;
use vstd::prelude::*;
use vstd::std_specs::convert::FromSpecImpl;

verus! {

/// An editable text with one cursor.
///
/// Its view is the [`Layout`] of its characters; every operation says what it
/// does to that layout.
#[derive(Debug, Clone)]
pub struct GapBuffer {
    document: VecDeque<char>,
    typing_buf: VecDeque<char>,
    typing_buf_start: usize,
    typing_buf_end: usize,
}

impl View for GapBuffer {
    type V = Layout;

    closed spec fn view(&self) -> Layout {
        Layout {
            array: self.document@,
            window: self.typing_buf@,
            start: self.typing_buf_start as nat,
            end: self.typing_buf_end as nat,
        }
    }
}

/// `VecDeque`'s `index_mut`, with the store through the reference it hands
/// out: the slot at `i`, which must exist, holds `c` afterwards, and every
/// other slot is as it was.
#[verifier::external_body]
fn put(v: &mut VecDeque<char>, i: usize, c: char)
    requires
        i < old(v)@.len(),
    ensures
        final(v)@ == old(v)@.update(i as int, c),
{
    v[i] = c;
}

/// `String::push` appends one character.
pub assume_specification[ String::push ](s: &mut String, ch: char)
    ensures
        final(s)@ == old(s)@.push(ch),
;

/// Appends the characters of `s`, in order, to `out`.
fn push_chars(out: &mut VecDeque<char>, s: &str)
    ensures
        final(out)@ == old(out)@ + s@,
{
    for c in it: s.chars()
        invariant
            it.seq() == s@,
            out@ =~= old(out)@ + s@.take(it.index()),
    {
        out.push_back(c);
    }
    assert(s@.take(s@.len() as int) =~= s@);
}

/// Appends `from[lo..hi)` to `out`.
fn push_range(out: &mut String, from: &VecDeque<char>, lo: usize, hi: usize)
    requires
        lo <= hi <= from@.len(),
    ensures
        final(out)@ == old(out)@ + from@.subrange(lo as int, hi as int),
{
    let mut i: usize = lo;
    while i < hi
        invariant
            lo <= i <= hi <= from@.len(),
            out@ =~= old(out)@ + from@.subrange(lo as int, i as int),
        decreases hi - i,
    {
        out.push(from[i]);
        i += 1;
    }
}

/// Appends `from[lo..hi)` to `out`.
fn copy_range(out: &mut VecDeque<char>, from: &VecDeque<char>, lo: usize, hi: usize)
    requires
        lo <= hi <= from@.len(),
    ensures
        final(out)@ == old(out)@ + from@.subrange(lo as int, hi as int),
{
    let mut i: usize = lo;
    while i < hi
        invariant
            lo <= i <= hi <= from@.len(),
            out@ =~= old(out)@ + from@.subrange(lo as int, i as int),
        decreases hi - i,
    {
        out.push_back(from[i]);
        i += 1;
    }
}

impl GapBuffer {
    /// One step of the cursor towards the end of the text; none where no
    /// committed text follows the window.
    fn step_right(&mut self)
        requires
            old(self)@.wf(),
        ensures
            final(self)@ == old(self)@.step_right(),
            final(self)@.wf(),
    {
        if self.typing_buf_end < self.document.len() {
            let c = self.document[self.typing_buf_end];
            self.typing_buf.push_back(c);
            self.typing_buf_end += 1;
            if let Some(first) = self.typing_buf.pop_front() {
                put(&mut self.document, self.typing_buf_start, first);
            }
            self.typing_buf_start += 1;
        }
    }

    /// One step of the cursor towards the beginning of the text; none where
    /// the cursor stands at the beginning.
    fn step_left(&mut self)
        requires
            old(self)@.wf(),
        ensures
            final(self)@ == old(self)@.step_left(),
            final(self)@.wf(),
    {
        if self.typing_buf_start >= 1 {
            let c = self.document[self.typing_buf_start - 1];
            self.typing_buf.push_front(c);
            self.typing_buf_start -= 1;
        }
        if let Some(last) = self.typing_buf.pop_back() {
            if self.typing_buf_end == 0 {
                self.document.push_front(last);
            } else {
                put(&mut self.document, self.typing_buf_end - 1, last);
                self.typing_buf_end -= 1;
            }
        }
    }

    /// `k` steps of the cursor towards the end of the text. Once the cursor
    /// stands at the end the remaining steps change nothing and are not
    /// taken.
    fn shift_right(&mut self, k: usize)
        requires
            old(self)@.wf(),
        ensures
            final(self)@ == old(self)@.right(k as nat),
            final(self)@.wf(),
    {
        let mut done: usize = 0;
        while done < k && self.typing_buf_end < self.document.len()
            invariant
                done <= k,
                self@.wf(),
                self@.right((k - done) as nat) == old(self)@.right(k as nat),
            decreases k - done,
        {
            self.step_right();
            done += 1;
        }
        proof {
            if done < k {
                lemma_rest_at_end(self@, (k - done) as nat);
            }
        }
    }

    /// `k` steps of the cursor towards the beginning of the text. Once the
    /// cursor stands at the beginning the remaining steps change nothing and
    /// are not taken.
    fn shift_left(&mut self, k: usize)
        requires
            old(self)@.wf(),
        ensures
            final(self)@ == old(self)@.left(k as nat),
            final(self)@.wf(),
    {
        let mut done: usize = 0;
        while done < k && (self.typing_buf_start > 0 || self.typing_buf.len() > 0)
            invariant
                done <= k,
                self@.wf(),
                self@.left((k - done) as nat) == old(self)@.left(k as nat),
            decreases k - done,
        {
            self.step_left();
            done += 1;
        }
        proof {
            if done < k {
                lemma_rest_at_start(self@, (k - done) as nat);
            }
        }
    }

    /// Moves the cursor by `n` characters: towards the end of the text where
    /// `n` is positive, towards its beginning where `n` is negative, and no
    /// further than either end. The text stays as it is.
    ///
    /// The layout is that of `n` single steps, each of which carries one
    /// character between the array and the window.
    pub fn move_cursor(&mut self, n: isize)
        requires
            old(self)@.wf(),
        ensures
            final(self)@.wf(),
            final(self)@.text() == old(self)@.text(),
            final(self)@.count() == old(self)@.count(),
            final(self)@.cursor() == old(self)@.bounded(old(self)@.cursor() + n),
            final(self)@ == old(self)@.moved(n as int),
    {
        proof {
            lemma_move_keeps_text(self@, n as int);
        }
        if n < 0 {
            let k: usize = (-(n + 1)) as usize + 1;
            self.shift_left(k);
        } else {
            self.shift_right(n as usize);
        }
    }

    /// Moves the cursor to the index `i` of the text, or to the end of the
    /// text where `i` lies beyond it. The text stays as it is.
    ///
    /// The layout is that of as many single steps as lie between the cursor
    /// and `i`.
    pub fn move_cursor_to(&mut self, i: usize)
        requires
            old(self)@.wf(),
        ensures
            final(self)@.wf(),
            final(self)@.text() == old(self)@.text(),
            final(self)@.count() == old(self)@.count(),
            final(self)@.cursor() == old(self)@.bounded(i as int),
            final(self)@ == old(self)@.moved(i - old(self)@.cursor()),
    {
        let start = self.typing_buf_start;
        let pending = self.typing_buf.len();
        proof {
            lemma_move_keeps_text(self@, i - self@.cursor());
        }
        if i < start {
            proof {
                lemma_left_adds(self@, pending as nat, (start - i) as nat);
            }
            self.shift_left(pending);
            self.shift_left(start - i);
        } else if i - start < pending {
            self.shift_left(pending - (i - start));
        } else {
            self.shift_right(i - start - pending);
        }
    }

    /// Types `s` at the cursor: its characters join the back of the window,
    /// in order. The committed array and both indices stay as they are.
    pub fn insert_at_cursor(&mut self, s: String)
        requires
            old(self)@.wf(),
        ensures
            final(self)@.wf(),
            final(self)@ == old(self)@.typed(s@),
            final(self)@.text() == old(self)@.text().take(old(self)@.cursor() as int) + s@
                + old(self)@.text().skip(old(self)@.cursor() as int),
            final(self)@.cursor() == old(self)@.cursor() + s@.len(),
            final(self)@.count() == old(self)@.count() + s@.len(),
    {
        proof {
            lemma_typed_text(self@, s@);
        }
        push_chars(&mut self.typing_buf, s.as_str());
    }

    /// Deletes `k` characters before the cursor, one at a time, and stops
    /// where none is left before it.
    fn erase_before(&mut self, k: usize)
        requires
            old(self)@.wf(),
        ensures
            final(self)@ == old(self)@.erased_before(k as nat),
            final(self)@.wf(),
    {
        let mut done: usize = 0;
        while done < k && (self.typing_buf_start > 0 || self.typing_buf.len() > 0)
            invariant
                done <= k,
                self@.wf(),
                self@.array == old(self)@.array,
                self@.end == old(self)@.end,
                self@.start == old(self)@.erased_before(done as nat).start,
                self@.window =~= old(self)@.erased_before(done as nat).window,
            decreases k - done,
        {
            if self.typing_buf.pop_back().is_none() {
                if self.typing_buf_start >= 1 {
                    self.typing_buf_start -= 1;
                }
            }
            done += 1;
        }
        assert(self@.window =~= old(self)@.erased_before(k as nat).window);
    }

    /// Deletes `k` characters after the cursor, one at a time, and stops
    /// where the committed array ends.
    fn erase_after(&mut self, k: usize)
        requires
            old(self)@.wf(),
        ensures
            final(self)@ == old(self)@.erased_after(k as nat),
            final(self)@.wf(),
    {
        let mut done: usize = 0;
        while done < k
            invariant
                done <= k,
                self@.wf(),
                self@ == old(self)@.erased_after(done as nat),
                old(self)@.end + done <= old(self)@.array.len(),
            decreases k - done,
        {
            if self.typing_buf_end < self.document.len() {
                self.typing_buf_end += 1;
            }
            if self.typing_buf_end == self.document.len() {
                return ;
            }
            done += 1;
        }
    }

    /// Deletes `n` characters at the cursor: after it where `n` is positive,
    /// before it where `n` is negative. Pending characters before the cursor
    /// go first; committed ones are dropped from the text by moving an index
    /// over them. What asks for more than there is deletes what there is.
    pub fn delete(&mut self, n: isize)
        requires
            old(self)@.wf(),
        ensures
            final(self)@.wf(),
            final(self)@ == old(self)@.deleted(n as int),
            n < 0 ==> final(self)@.cursor() == old(self)@.bounded(old(self)@.cursor() + n)
                && final(self)@.text() == old(self)@.text().take(final(self)@.cursor() as int)
                + old(self)@.text().skip(old(self)@.cursor() as int),
            n >= 0 ==> final(self)@.cursor() == old(self)@.cursor() && final(self)@.text() == old(
                self,
            )@.text().take(old(self)@.cursor() as int) + old(self)@.text().skip(
                old(self)@.bounded(old(self)@.cursor() + n) as int,
            ),
            final(self)@.count() <= old(self)@.count(),
    {
        proof {
            if n < 0 {
                lemma_deleted_before_text(self@, (-n) as nat);
            } else {
                lemma_deleted_after_text(self@, n as nat);
            }
        }
        if n < 0 {
            let k: usize = (-(n + 1)) as usize + 1;
            self.erase_before(k);
        } else {
            self.erase_after(n as usize);
        }
    }

    /// Commits the pending text: the array becomes the whole text, the window
    /// is emptied, and both indices stand at the cursor, which stays where it
    /// was.
    pub fn flush_typing_buf(&mut self)
        requires
            old(self)@.wf(),
        ensures
            final(self)@.wf(),
            final(self)@ == old(self)@.flushed(),
            final(self)@.text() == old(self)@.text(),
            final(self)@.cursor() == old(self)@.cursor(),
            final(self)@.count() == old(self)@.count(),
    {
        proof {
            lemma_flush_keeps_text(self@);
        }
        let mut merged: VecDeque<char> = VecDeque::new();
        copy_range(&mut merged, &self.document, 0, self.typing_buf_start);
        copy_range(&mut merged, &self.typing_buf, 0, self.typing_buf.len());
        let boundary = merged.len();
        copy_range(&mut merged, &self.document, self.typing_buf_end, self.document.len());
        assert(self@.window.subrange(0, self@.window.len() as int) =~= self@.window);
        assert(merged@ =~= self@.text());
        self.document = merged;
        self.typing_buf = VecDeque::new();
        self.typing_buf_start = boundary;
        self.typing_buf_end = boundary;
    }

    /// The number of characters of the text.
    pub fn len(&self) -> (n: usize)
        requires
            self@.wf(),
            self@.count() <= usize::MAX,
        ensures
            n == self@.count(),
            n == self@.text().len(),
    {
        self.typing_buf.len() + self.typing_buf_start + (self.document.len()
            - self.typing_buf_end)
    }

    /// Whether the committed array and the window are both empty.
    pub fn is_empty(&self) -> (b: bool)
        ensures
            b == (self@.array.len() == 0 && self@.window.len() == 0),
    {
        self.document.len() == 0 && self.typing_buf.len() == 0
    }

    /// The text as a string: what is committed before the window, the
    /// window, and what is committed after it.
    pub fn make_into_string_by_consuming(self) -> (s: String)
        requires
            self@.wf(),
        ensures
            s@ == self@.text(),
    {
        let mut s = String::new();
        push_range(&mut s, &self.document, 0, self.typing_buf_start);
        push_range(&mut s, &self.typing_buf, 0, self.typing_buf.len());
        push_range(&mut s, &self.document, self.typing_buf_end, self.document.len());
        assert(self@.window.subrange(0, self@.window.len() as int) =~= self@.window);
        s
    }
}

impl Default for GapBuffer {
    /// The buffer of the empty text.
    fn default() -> (b: GapBuffer)
        ensures
            b@ == Layout::of_text(Seq::empty()),
            b@.wf(),
            b@.text() == Seq::<char>::empty(),
            b@.count() == 0,
    {
        GapBuffer {
            document: VecDeque::new(),
            typing_buf: VecDeque::new(),
            typing_buf_start: 0,
            typing_buf_end: 0,
        }
    }
}

impl From<String> for GapBuffer {
    /// The buffer of the text `s`: all of it committed, nothing pending, the
    /// cursor behind its last character.
    fn from(s: String) -> (b: GapBuffer)
        ensures
            b@ == Layout::of_text(s@),
            b@.wf(),
            b@.text() == s@,
            b@.cursor() == s@.len(),
            b@.count() == s@.len() <= usize::MAX,
    {
        proof {
            lemma_round_trip(s@);
        }
        let mut document: VecDeque<char> = VecDeque::new();
        push_chars(&mut document, s.as_str());
        let end = document.len();
        GapBuffer {
            document,
            typing_buf: VecDeque::new(),
            typing_buf_start: end,
            typing_buf_end: end,
        }
    }
}

impl FromSpecImpl<String> for GapBuffer {
    open spec fn obeys_from_spec() -> bool {
        false
    }

    open spec fn from_spec(s: String) -> GapBuffer {
        arbitrary()
    }
}

impl From<GapBuffer> for String {
    /// The text of `rs`. The trait leaves no room for a precondition, so a
    /// layout whose indices bound no range of its array, which no operation
    /// of the buffer produces, is turned into the empty string.
    fn from(rs: GapBuffer) -> (s: String)
        ensures
            rs@.wf() ==> s@ == rs@.text(),
            !rs@.wf() ==> s@ == Seq::<char>::empty(),
    {
        if rs.typing_buf_start <= rs.typing_buf_end && rs.typing_buf_end <= rs.document.len() {
            rs.make_into_string_by_consuming()
        } else {
            String::new()
        }
    }
}

impl FromSpecImpl<GapBuffer> for String {
    open spec fn obeys_from_spec() -> bool {
        false
    }

    open spec fn from_spec(rs: GapBuffer) -> String {
        arbitrary()
    }
}

} // verus!
