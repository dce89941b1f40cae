//! The mathematical model of the buffer: a committed array, a typing window,
//! and the two indices that bound the range of the array the window stands for.

use vstd::prelude::*;

verus! {

/// The arrangement of a buffer's characters.
///
/// `array[0..start)` is the committed text before the window, `window` the
/// pending text, and `array[end..)` the committed text after it. What lies in
/// `array[start..end)` is superseded by the window and no longer part of the
/// text.
pub struct Layout {
    pub array: Seq<char>,
    pub window: Seq<char>,
    pub start: nat,
    pub end: nat,
}

/// One operation on a buffer, as a value.
pub enum Edit {
    /// The cursor moves by so many steps.
    MoveBy(int),
    /// The cursor moves to an index of the text.
    MoveTo(nat),
    /// Characters are typed at the cursor.
    Type(Seq<char>),
    /// So many characters are deleted at the cursor.
    Delete(int),
    /// The pending text is committed.
    Flush,
}

impl Layout {
    /// The two indices bound a range of the array: `start` does not lie
    /// behind `end`, and `end` not behind the array's end.
    pub open spec fn wf(self) -> bool {
        self.start <= self.end <= self.array.len()
    }

    /// The committed text before the window.
    pub open spec fn prefix(self) -> Seq<char> {
        self.array.subrange(0, self.start as int)
    }

    /// The committed text after the window.
    pub open spec fn suffix(self) -> Seq<char> {
        self.array.subrange(self.end as int, self.array.len() as int)
    }

    /// The text that the buffer stands for.
    pub open spec fn text(self) -> Seq<char> {
        self.prefix() + self.window + self.suffix()
    }

    /// The index in the text at which the next typed character lands.
    pub open spec fn cursor(self) -> nat {
        self.start + self.window.len()
    }

    /// The number of characters of the text, counted without building it.
    pub open spec fn count(self) -> int {
        self.window.len() + self.start + self.array.len() - self.end
    }

    /// The layout of a buffer freshly made from `s`: everything committed, the
    /// cursor behind the last character.
    pub open spec fn of_text(s: Seq<char>) -> Layout {
        Layout { array: s, window: Seq::empty(), start: s.len(), end: s.len() }
    }

    /// `target` brought into the text: zero where it lies before the
    /// beginning, the length of the text where it lies beyond the end.
    pub open spec fn bounded(self, target: int) -> nat {
        if target < 0 {
            0
        } else if target > self.count() {
            self.count() as nat
        } else {
            target as nat
        }
    }

    /// One step of the cursor towards the end of the text; none where no
    /// committed text follows the window.
    ///
    /// The character at `end` joins the back of the window, the first
    /// character of the window is committed in the slot at `start`, and both
    /// indices advance.
    pub open spec fn step_right(self) -> Layout {
        if self.end < self.array.len() {
            let taken = self.window.push(self.array[self.end as int]);
            Layout {
                array: self.array.update(self.start as int, taken.first()),
                window: taken.drop_first(),
                start: self.start + 1,
                end: self.end + 1,
            }
        } else {
            self
        }
    }

    /// One step of the cursor towards the beginning of the text; none where
    /// the cursor stands at the beginning.
    ///
    /// The character before `start`, if there is one, joins the front of the
    /// window and `start` retreats. The last character of the window is
    /// committed in the slot before `end`, and `end` retreats; where `end` is
    /// zero the character is put in front of the array instead.
    pub open spec fn step_left(self) -> Layout {
        if self.cursor() == 0 {
            self
        } else {
            let taken = if self.start >= 1 {
                seq![self.array[self.start - 1]] + self.window
            } else {
                self.window
            };
            Layout {
                array: if self.end == 0 {
                    seq![taken.last()] + self.array
                } else {
                    self.array.update(self.end - 1, taken.last())
                },
                window: taken.drop_last(),
                start: if self.start >= 1 {
                    (self.start - 1) as nat
                } else {
                    0
                },
                end: if self.end >= 1 {
                    (self.end - 1) as nat
                } else {
                    0
                },
            }
        }
    }

    /// `k` steps towards the end of the text.
    pub open spec fn right(self, k: nat) -> Layout
        decreases k,
    {
        if k == 0 {
            self
        } else {
            self.step_right().right((k - 1) as nat)
        }
    }

    /// `k` steps towards the beginning of the text.
    pub open spec fn left(self, k: nat) -> Layout
        decreases k,
    {
        if k == 0 {
            self
        } else {
            self.step_left().left((k - 1) as nat)
        }
    }

    /// The cursor moved by `delta` steps: towards the end where `delta` is
    /// positive, towards the beginning where it is negative.
    pub open spec fn moved(self, delta: int) -> Layout {
        if delta < 0 {
            self.left((-delta) as nat)
        } else {
            self.right(delta as nat)
        }
    }

    /// `s` typed at the cursor: it joins the back of the window, and nothing
    /// else changes.
    pub open spec fn typed(self, s: Seq<char>) -> Layout {
        Layout { window: self.window + s, ..self }
    }

    /// `k` characters deleted before the cursor: pending ones first, from the
    /// back of the window; once the window is empty, committed ones, by
    /// letting `start` retreat, never below zero.
    pub open spec fn erased_before(self, k: nat) -> Layout {
        if k <= self.window.len() {
            Layout { window: self.window.take(self.window.len() - k), ..self }
        } else if k - self.window.len() <= self.start {
            Layout {
                window: Seq::empty(),
                start: (self.start - (k - self.window.len())) as nat,
                ..self
            }
        } else {
            Layout { window: Seq::empty(), start: 0, ..self }
        }
    }

    /// `k` characters deleted after the cursor, by letting `end` advance,
    /// never past the array.
    pub open spec fn erased_after(self, k: nat) -> Layout {
        if self.end + k <= self.array.len() {
            Layout { end: self.end + k, ..self }
        } else {
            Layout { end: self.array.len(), ..self }
        }
    }

    /// `n` characters deleted at the cursor: after it where `n` is positive,
    /// before it where `n` is negative.
    pub open spec fn deleted(self, n: int) -> Layout {
        if n < 0 {
            self.erased_before((-n) as nat)
        } else {
            self.erased_after(n as nat)
        }
    }

    /// The pending text committed: the array becomes the text, the window is
    /// empty, and both indices stand where the cursor was.
    pub open spec fn flushed(self) -> Layout {
        Layout {
            array: self.text(),
            window: Seq::empty(),
            start: self.cursor(),
            end: self.cursor(),
        }
    }

    /// The layout after one operation.
    pub open spec fn after(self, edit: Edit) -> Layout {
        match edit {
            Edit::MoveBy(delta) => self.moved(delta),
            Edit::MoveTo(i) => self.moved(i - self.cursor()),
            Edit::Type(s) => self.typed(s),
            Edit::Delete(n) => self.deleted(n),
            Edit::Flush => self.flushed(),
        }
    }

    /// The layout after a sequence of operations, the first of them first.
    pub open spec fn after_all(self, edits: Seq<Edit>) -> Layout
        decreases edits.len(),
    {
        if edits.len() == 0 {
            self
        } else {
            self.after_all(edits.drop_last()).after(edits.last())
        }
    }
}

} // verus!
