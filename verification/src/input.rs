use std::collections::VecDeque;

use vstd::prelude::*;

use crate::events::{Event, KeyCode};
use crate::text::{boundary_at, byte_len, byte_length, char_pos, is_boundary, string_insert, string_remove, utf8_len};

verus! {

/// The shell's command line: the commands typed so far, one of which is
/// being edited, and the queue of commands entered but not yet run.
#[derive(Clone)]
pub struct Input {
    command_queue: VecDeque<String>,
    command_buffer: Vec<String>,
    command_index: usize,
    cursor_position: usize,
}

/// What an `Input` holds, as text.
pub struct InputView {
    pub queue: Seq<Seq<char>>,
    pub buffers: Seq<Seq<char>>,
    pub index: int,
    /// A byte offset into the command being edited.
    pub cursor: int,
}

impl View for Input {
    type V = InputView;

    closed spec fn view(&self) -> InputView {
        InputView {
            queue: self.command_queue@.map_values(|s: String| s@),
            buffers: self.command_buffer@.map_values(|s: String| s@),
            index: self.command_index as int,
            cursor: self.cursor_position as int,
        }
    }
}

/// The command being edited, as seen by a reader of the line.
pub open spec fn rendered(v: InputView) -> Seq<char> {
    if v.index >= v.buffers.len() { Seq::empty() } else { v.buffers[v.index] }
}

/// The effect of a key on the command line.
pub open spec fn input_step(v: InputView, code: KeyCode) -> InputView {
    match code {
        KeyCode::Char(c) => if v.index < v.buffers.len() {
            let b = v.buffers[v.index];
            let k = char_pos(b, v.cursor);
            InputView {
                buffers: v.buffers.update(v.index, b.take(k).push(c) + b.skip(k)),
                cursor: v.cursor + 1,
                ..v
            }
        } else {
            v
        },
        KeyCode::Left => if v.cursor > 0 { InputView { cursor: v.cursor - 1, ..v } } else { v },
        KeyCode::Right => if v.cursor < byte_len(v.buffers[v.index]) - 1 {
            InputView { cursor: v.cursor + 1, ..v }
        } else {
            v
        },
        KeyCode::Up => if v.index > 0 { InputView { index: v.index - 1, ..v } } else { v },
        KeyCode::Down => if v.index < v.buffers.len() - 1 {
            InputView { index: v.index + 1, ..v }
        } else {
            v
        },
        KeyCode::Enter => InputView {
            queue: if v.index < v.buffers.len() { v.queue.push(v.buffers[v.index]) } else { v.queue },
            buffers: v.buffers.push(Seq::empty()),
            index: v.index + 1,
            cursor: 0,
        },
        KeyCode::Backspace => if v.cursor > 0 && v.index < v.buffers.len() {
            let b = v.buffers[v.index];
            let k = char_pos(b, v.cursor);
            InputView {
                buffers: v.buffers.update(v.index, b.take(k) + b.skip(k + 1)),
                cursor: v.cursor - 1,
                ..v
            }
        } else {
            v
        },
        _ => v,
    }
}

/// The keys on which the command line's byte arithmetic stays defined:
/// a character goes in and a backspace removes only at a character
/// boundary, and the right arrow needs a non-empty command (whose length
/// fits in a `usize`, as that of every string in memory does).
pub open spec fn input_step_defined(v: InputView, code: KeyCode) -> bool {
    match code {
        KeyCode::Char(_) => v.index < v.buffers.len() ==> {
            &&& is_boundary(v.buffers[v.index], v.cursor)
            &&& v.cursor < usize::MAX
        },
        KeyCode::Right => 1 <= byte_len(v.buffers[v.index]) <= usize::MAX,
        KeyCode::Backspace => v.cursor > 0 && v.index < v.buffers.len() ==> {
            &&& is_boundary(v.buffers[v.index], v.cursor)
            &&& v.cursor < byte_len(v.buffers[v.index])
        },
        _ => true,
    }
}

impl Input {
    /// A fresh command line: one empty command, nothing queued.
    pub open spec fn new_view() -> InputView {
        InputView {
            queue: Seq::empty(),
            buffers: seq![Seq::<char>::empty()],
            index: 0,
            cursor: 0,
        }
    }

    /// The command being edited names one of the commands.
    pub open spec fn wf(&self) -> bool {
        0 <= self@.index < self@.buffers.len()
    }

    /// A command line with one empty command and nothing queued.
    pub fn new() -> (r: Self)
        ensures
            r.wf(),
            r@ == Input::new_view(),
    {
        let mut buffer: Vec<String> = Vec::new();
        buffer.push(String::new());
        let r = Input {
            command_queue: VecDeque::new(),
            command_buffer: buffer,
            command_index: 0,
            cursor_position: 0,
        };
        assert(r@.buffers =~= seq![Seq::<char>::empty()]);
        assert(r@.queue =~= Seq::<Seq<char>>::empty());
        r
    }

    /// Takes the oldest entered command off the queue.
    pub fn pop_command(&mut self) -> (r: Option<String>)
        ensures
            old(self)@.queue.len() == 0 ==> r is None && final(self)@ == old(self)@,
            old(self)@.queue.len() > 0 ==> {
                &&& r matches Some(s) && s@ == old(self)@.queue[0]
                &&& final(self)@.queue == old(self)@.queue.drop_first()
                &&& final(self)@.buffers == old(self)@.buffers
                &&& final(self)@.index == old(self)@.index
                &&& final(self)@.cursor == old(self)@.cursor
            },
    {
        let r = self.command_queue.pop_front();
        proof {
            if old(self)@.queue.len() > 0 {
                assert(self@.queue =~= old(self)@.queue.drop_first());
            } else {
                assert(self@.queue =~= old(self)@.queue);
            }
        }
        r
    }

    /// Queues the command being edited.
    fn push_command(&mut self)
        ensures
            final(self)@.queue == (if old(self)@.index < old(self)@.buffers.len() {
                old(self)@.queue.push(old(self)@.buffers[old(self)@.index])
            } else {
                old(self)@.queue
            }),
            final(self)@.buffers == old(self)@.buffers,
            final(self)@.index == old(self)@.index,
            final(self)@.cursor == old(self)@.cursor,
    {
        if self.command_index < self.command_buffer.len() {
            let command = self.command_buffer[self.command_index].clone();
            self.command_queue.push_back(command);
            assert(self@.queue =~= old(self)@.queue.push(old(self)@.buffers[old(self)@.index]));
        }
    }

    /// The command being edited, empty if there is none.
    pub fn get_input_to_render(&self) -> (r: &str)
        ensures
            r@ == rendered(self@),
    {
        if self.command_index >= self.command_buffer.len() {
            let empty = "";
            proof {
                reveal_strlit("");
            }
            empty
        } else {
            self.command_buffer[self.command_index].as_str()
        }
    }

    /// The cursor, as a byte offset into the command being edited.
    pub fn get_cursor_position(&self) -> (r: usize)
        ensures
            r == self@.cursor,
    {
        self.cursor_position
    }

    /// Whether the command line can take `code` (see `input_step_defined`).
    pub fn accepts(&self, code: KeyCode) -> (r: bool)
        requires
            self.wf(),
        ensures
            r == input_step_defined(self@, code),
    {
        let ghost v = self@;
        match code {
            KeyCode::Char(_) => {
                if self.command_index < self.command_buffer.len() {
                    let s = self.command_buffer[self.command_index].as_str();
                    assert(s@ == v.buffers[v.index]);
                    boundary_at(s, self.cursor_position) && self.cursor_position < usize::MAX
                } else {
                    true
                }
            },
            KeyCode::Right => {
                let s = self.command_buffer[self.command_index].as_str();
                assert(s@ == v.buffers[v.index]);
                match utf8_len(s) {
                    Some(n) => n >= 1,
                    None => false,
                }
            },
            KeyCode::Backspace => {
                if self.cursor_position > 0 && self.command_index < self.command_buffer.len() {
                    let s = self.command_buffer[self.command_index].as_str();
                    assert(s@ == v.buffers[v.index]);
                    boundary_at(s, self.cursor_position) && match utf8_len(s) {
                        Some(n) => self.cursor_position < n,
                        None => true,
                    }
                } else {
                    true
                }
            },
            _ => true,
        }
    }

    /// Applies a key to the command line: characters are typed in at the
    /// cursor, the arrows move the cursor and walk through the commands,
    /// Enter queues the command and starts a new one, Backspace removes the
    /// character at the cursor. Other events leave the line as it is.
    pub fn handle_event(&mut self, event: &Event)
        requires
            old(self).wf(),
            event matches Event::Key(k) ==> input_step_defined(old(self)@, k.code),
        ensures
            final(self).wf(),
            final(self)@ == (match event {
                Event::Key(k) => input_step(old(self)@, k.code),
                _ => old(self)@,
            }),
    {
        let ghost v = self@;
        match event {
            Event::Key(key) => {
                match key.code {
                    KeyCode::Char(c) => {
                        if self.command_index < self.command_buffer.len() {
                            let mut s = self.command_buffer[self.command_index].clone();
                            proof {
                                let b = v.buffers[v.index];
                                assert(s@ == b);
                                let k = char_pos(b, v.cursor);
                                assert(0 <= k <= b.len() && byte_len(b.take(k)) == v.cursor);
                            }
                            string_insert(&mut s, self.cursor_position, c);
                            self.command_buffer.set(self.command_index, s);
                            self.cursor_position = self.cursor_position + 1;
                            proof {
                                assert(self@.buffers =~= input_step(v, key.code).buffers);
                            }
                        }
                    },
                    KeyCode::Left => {
                        if self.cursor_position > 0 {
                            self.cursor_position = self.cursor_position - 1;
                        }
                    },
                    KeyCode::Right => {
                        let n = byte_length(&self.command_buffer[self.command_index]);
                        if self.cursor_position < n - 1 {
                            self.cursor_position = self.cursor_position + 1;
                        }
                    },
                    KeyCode::Up => {
                        if self.command_index > 0 {
                            self.command_index = self.command_index - 1;
                        }
                    },
                    KeyCode::Down => {
                        if self.command_index < (self.command_buffer.len() - 1) {
                            self.command_index = self.command_index + 1;
                        }
                    },
                    KeyCode::Enter => {
                        assert(self.command_index < self.command_buffer.len());
                        self.push_command();
                        assert(self.command_index < self.command_buffer.len());
                        self.command_buffer.push(String::new());
                        self.cursor_position = 0;
                        self.command_index = self.command_index + 1;
                        proof {
                            assert(self@.buffers =~= v.buffers.push(Seq::empty()));
                        }
                    },
                    KeyCode::Backspace => {
                        if self.cursor_position > 0 {
                            if self.command_index < self.command_buffer.len() {
                                let mut s = self.command_buffer[self.command_index].clone();
                                proof {
                                    let b = v.buffers[v.index];
                                    assert(s@ == b);
                                    let k = char_pos(b, v.cursor);
                                    assert(0 <= k <= b.len() && byte_len(b.take(k)) == v.cursor);
                                }
                                let _ = string_remove(&mut s, self.cursor_position);
                                self.command_buffer.set(self.command_index, s);
                                self.cursor_position = self.cursor_position - 1;
                                proof {
                                    assert(self@.buffers =~= input_step(v, key.code).buffers);
                                }
                            }
                        }
                    },
                    _ => {},
                }
            },
            _ => {},
        }
    }
}

} // verus!
