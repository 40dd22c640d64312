use vstd::prelude::*;

use crate::events::{KeyCode, KeyEvent};
use crate::text::{
    byte_len, chars_of, lemma_encode_concat, len_utf8, split_whitespace, string_insert, string_of,
    words,
};

verus! {

/// The byte offset of character `k` of `cs`, or the length in bytes when
/// `k` is past the end.
pub open spec fn byte_offset(cs: Seq<char>, k: int) -> int {
    if k < cs.len() { byte_len(cs.take(k)) } else { byte_len(cs) }
}

/// `n` clamped to the character positions of `cs`.
pub open spec fn clamped(n: int, cs: Seq<char>) -> int {
    if n > cs.len() { cs.len() as int } else { n }
}

/// The small shell: a line being typed, a cursor counted in characters,
/// and the output printed so far.
pub struct App {
    input: String,
    character_index: usize,
    exit: bool,
    output: Vec<String>,
}

/// What a key does to the small shell: Esc exits, a character is typed at
/// the cursor, Backspace deletes the character before the cursor, Enter
/// hands back the words of the line as the program to run and empties the
/// line, and other keys change nothing. What was printed stays.
pub open spec fn key_result(o: App, f: App, code: KeyCode, r: Option<Vec<String>>) -> bool {
    &&& f.printed() == o.printed()
    &&& match code {
        KeyCode::Esc => r is None && f.exiting() && f.line() == o.line() && f.cursor() == o.cursor(),
        KeyCode::Char(c) => r is None && f.exiting() == o.exiting() && f.line() == o.line().take(o.cursor()).push(c)
            + o.line().skip(o.cursor()) && f.cursor() == o.cursor() + 1,
        KeyCode::Backspace => r is None && f.exiting() == o.exiting() && if o.cursor() == 0 {
            f.line() == o.line() && f.cursor() == 0
        } else {
            f.line() == o.line().take(o.cursor() - 1) + o.line().skip(o.cursor()) && f.cursor() == o.cursor() - 1
        },
        KeyCode::Enter => (r matches Some(argv) && argv@.map_values(|w: String| w@) == words(o.line()))
            && f.line().len() == 0 && f.cursor() == 0 && f.exiting() == o.exiting(),
        _ => r is None && f.line() == o.line() && f.cursor() == o.cursor() && f.exiting() == o.exiting(),
    }
}

impl App {
    pub closed spec fn line(&self) -> Seq<char> {
        self.input@
    }

    pub closed spec fn cursor(&self) -> int {
        self.character_index as int
    }

    pub closed spec fn exiting(&self) -> bool {
        self.exit
    }

    pub closed spec fn printed(&self) -> Seq<Seq<char>> {
        self.output@.map_values(|s: String| s@)
    }

    /// The cursor stays within the line.
    pub open spec fn wf(&self) -> bool {
        0 <= self.cursor() <= self.line().len()
    }

    pub fn new() -> (r: Self)
        ensures
            r.wf(),
            r.line().len() == 0,
            r.cursor() == 0,
            !r.exiting(),
            r.printed().len() == 0,
    {
        App { input: String::new(), character_index: 0, exit: false, output: Vec::new() }
    }

    pub fn exit_requested(&self) -> (r: bool)
        ensures
            r == self.exiting(),
    {
        self.exit
    }

    pub fn input(&self) -> (r: &str)
        ensures
            r@ == self.line(),
    {
        self.input.as_str()
    }

    pub fn output(&self) -> (r: &[String])
        ensures
            r@.map_values(|s: String| s@) == self.printed(),
    {
        self.output.as_slice()
    }

    /// Adds a chunk of program output.
    pub fn push_output(&mut self, text: String)
        requires
            old(self).wf(),
        ensures
            final(self).wf(),
            final(self).printed() == old(self).printed().push(text@),
            final(self).line() == old(self).line(),
            final(self).cursor() == old(self).cursor(),
            final(self).exiting() == old(self).exiting(),
    {
        let ghost t = text@;
        self.output.push(text);
        assert(self.printed() =~= old(self).printed().push(t));
    }

    fn exit(&mut self)
        ensures
            final(self).exiting(),
            final(self).line() == old(self).line(),
            final(self).cursor() == old(self).cursor(),
            final(self).printed() == old(self).printed(),
    {
        self.exit = true;
    }

    /// A cursor position clamped to the line.
    fn clamp_cursor(&self, new_cursor_pos: usize) -> (r: usize)
        ensures
            r == clamped(new_cursor_pos as int, self.line()),
    {
        let n = self.input.as_str().unicode_len();
        if new_cursor_pos > n {
            n
        } else {
            new_cursor_pos
        }
    }

    /// The byte offset of the cursor in the line.
    fn byte_index(&self) -> (r: usize)
        requires
            byte_len(self.line()) <= usize::MAX,
        ensures
            r == byte_offset(self.line(), self.cursor()),
    {
        let cs = chars_of(self.input.as_str());
        let target = self.character_index;
        let mut i: usize = 0;
        let mut offset: usize = 0;
        proof {
            assert(cs@.take(0) =~= Seq::<char>::empty());
            assert(byte_len(Seq::<char>::empty()) == 0) by {
                assert(vstd::utf8::encode_utf8(Seq::<char>::empty()) =~= Seq::<u8>::empty());
            }
        }
        while i < cs.len() && i < target
            invariant
                cs@ == self.line(),
                target == self.cursor(),
                i <= cs@.len(),
                i <= target,
                offset == byte_len(cs@.take(i as int)),
                byte_len(cs@) <= usize::MAX,
            decreases cs@.len() - i,
        {
            let w = len_utf8(cs[i]);
            proof {
                assert(cs@.take(i + 1) =~= cs@.take(i as int) + seq![cs@[i as int]]);
                lemma_encode_concat(cs@.take(i as int), seq![cs@[i as int]]);
                assert(cs@ =~= cs@.take(i + 1) + cs@.skip(i + 1));
                lemma_encode_concat(cs@.take(i + 1), cs@.skip(i + 1));
            }
            offset = offset + w;
            i = i + 1;
        }
        proof {
            if i == cs@.len() {
                assert(cs@.take(i as int) =~= cs@);
            }
        }
        offset
    }

    fn move_cursor_right(&mut self)
        ensures
            final(self).cursor() == clamped(
                if old(self).cursor() < usize::MAX { old(self).cursor() + 1 } else { usize::MAX as int },
                old(self).line(),
            ),
            final(self).line() == old(self).line(),
            final(self).exiting() == old(self).exiting(),
            final(self).printed() == old(self).printed(),
    {
        let cursor_moved_right = self.character_index.saturating_add(1);
        self.character_index = self.clamp_cursor(cursor_moved_right);
    }

    fn move_cursor_left(&mut self)
        ensures
            final(self).cursor() == clamped(
                if old(self).cursor() > 0 { old(self).cursor() - 1 } else { 0 },
                old(self).line(),
            ),
            final(self).line() == old(self).line(),
            final(self).exiting() == old(self).exiting(),
            final(self).printed() == old(self).printed(),
    {
        let cursor_moved_left = self.character_index.saturating_sub(1);
        self.character_index = self.clamp_cursor(cursor_moved_left);
    }

    /// Types `new_char` at the cursor and moves the cursor past it.
    pub fn enter_char(&mut self, new_char: char)
        requires
            old(self).wf(),
            byte_len(old(self).line()) < usize::MAX,
        ensures
            final(self).wf(),
            final(self).line() == old(self).line().take(old(self).cursor()).push(new_char)
                + old(self).line().skip(old(self).cursor()),
            final(self).cursor() == old(self).cursor() + 1,
            final(self).exiting() == old(self).exiting(),
            final(self).printed() == old(self).printed(),
    {
        let index = self.byte_index();
        let ghost k = self.cursor();
        let ghost l = self.line();
        proof {
            crate::text::lemma_chars_le_bytes(l);
            if k == l.len() {
                assert(l.take(k) =~= l);
            }
            assert(byte_len(l.take(k)) == index);
        }
        string_insert(&mut self.input, index, new_char);
        assert(self.line().len() == l.len() + 1);
        self.move_cursor_right();
    }

    /// Removes the character before the cursor and moves the cursor back.
    pub fn delete_char(&mut self)
        requires
            old(self).wf(),
        ensures
            final(self).wf(),
            old(self).cursor() == 0 ==> *final(self) == *old(self),
            old(self).cursor() != 0 ==> {
                &&& final(self).line() == old(self).line().take(old(self).cursor() - 1)
                    + old(self).line().skip(old(self).cursor())
                &&& final(self).cursor() == old(self).cursor() - 1
            },
            final(self).exiting() == old(self).exiting(),
            final(self).printed() == old(self).printed(),
    {
        if self.character_index != 0 {
            let current_index = self.character_index;
            let from_left_to_current_index = current_index - 1;
            let cs = chars_of(self.input.as_str());
            let before = vstd::slice::slice_subrange(cs.as_slice(), 0, from_left_to_current_index);
            let after = vstd::slice::slice_subrange(cs.as_slice(), current_index, cs.len());
            let mut joined: Vec<char> = vstd::slice::slice_to_vec(before);
            let mut i: usize = 0;
            let ghost b = joined@;
            while i < after.len()
                invariant
                    i <= after@.len(),
                    joined@ == b + after@.take(i as int),
                decreases after@.len() - i,
            {
                joined.push(after[i]);
                i = i + 1;
                assert(joined@ =~= b + after@.take(i as int));
            }
            assert(after@.take(after@.len() as int) =~= after@);
            self.input = string_of(joined.as_slice());
            assert(self.line() =~= old(self).line().take(old(self).cursor() - 1) + old(self).line().skip(
                old(self).cursor(),
            ));
            self.move_cursor_left();
        }
    }

    /// Empties the line.
    fn clear(&mut self)
        ensures
            final(self).wf(),
            final(self).line().len() == 0,
            final(self).cursor() == 0,
            final(self).exiting() == old(self).exiting(),
            final(self).printed() == old(self).printed(),
    {
        self.input = String::new();
        self.character_index = 0;
    }

    /// Handles a key: Esc exits, a character is typed, Backspace deletes,
    /// Enter hands back the words of the line as the program to run and
    /// empties the line.
    pub fn handle_key_event(&mut self, key_event: KeyEvent) -> (r: Option<Vec<String>>)
        requires
            old(self).wf(),
            key_event.code is Char ==> byte_len(old(self).line()) < usize::MAX,
        ensures
            final(self).wf(),
            key_result(*old(self), *final(self), key_event.code, r),
    {
        match key_event.code {
            KeyCode::Esc => {
                self.exit();
                None
            },
            KeyCode::Char(to_insert) => {
                self.enter_char(to_insert);
                None
            },
            KeyCode::Backspace => {
                self.delete_char();
                None
            },
            KeyCode::Enter => {
                let argv = split_whitespace(self.input.as_str());
                self.clear();
                Some(argv)
            },
            _ => None,
        }
    }
}

} // verus!
