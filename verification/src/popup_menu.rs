use vstd::prelude::*;

use crate::geometry::Direction;
use vstd::std_specs::cmp::PartialEqSpec;

verus! {

/// Which entry of a list is highlighted, and from which entry the list is
/// drawn.
#[derive(Clone, Copy, Debug, PartialEq, Eq, Structural)]
pub struct ListState {
    pub offset: usize,
    pub selected: Option<usize>,
}

impl Default for ListState {
    fn default() -> (s: ListState)
        ensures
            s.offset == 0,
            s.selected is None,
    {
        ListState { offset: 0, selected: None }
    }
}

impl ListState {
    /// Highlights `index`; clearing the highlight also scrolls back to the top.
    pub fn select(&mut self, index: Option<usize>)
        ensures
            final(self).selected == index,
            final(self).offset == (if index is None { 0 } else { old(self).offset }),
    {
        self.selected = index;
        if index.is_none() {
            self.offset = 0;
        }
    }

    pub fn selected(&self) -> (r: Option<usize>)
        ensures
            r == self.selected,
    {
        self.selected
    }

    pub fn offset(&self) -> (r: usize)
        ensures
            r == self.offset,
    {
        self.offset
    }

    pub fn set_offset(&mut self, offset: usize)
        ensures
            final(self).offset == offset,
            final(self).selected == old(self).selected,
    {
        self.offset = offset;
    }
}

/// The index that a cyclic move from `selected` through a list of `len`
/// entries lands on.
pub open spec fn cycle_index(selected: Option<usize>, len: int, direction: Direction) -> int {
    match selected {
        None => 0,
        Some(k) => match direction {
            Direction::UP => if k <= 0 { len - 1 } else { k - 1 },
            Direction::DOWN => if k >= len - 1 { 0 } else { k + 1 },
        },
    }
}

/// A cyclic move stays within `usize` arithmetic: with a selection, the
/// list must not be empty.
pub open spec fn cycle_defined(selected: Option<usize>, len: int) -> bool {
    selected is Some ==> len > 0
}

/// Moves a selection one step through a list of `len` entries, wrapping
/// around at both ends; without a selection the first entry is chosen.
pub fn cycle(selected: Option<usize>, len: usize, direction: Direction) -> (k: usize)
    requires
        cycle_defined(selected, len as int),
    ensures
        k == cycle_index(selected, len as int, direction),
{
    match direction {
        Direction::UP => match selected {
            Some(k) => {
                if k <= 0 {
                    len - 1
                } else {
                    k - 1
                }
            },
            None => 0,
        },
        Direction::DOWN => match selected {
            Some(k) => {
                if k >= len - 1 {
                    0
                } else {
                    k + 1
                }
            },
            None => 0,
        },
    }
}

/// The first `max` entries of `s`, or all of them if there are fewer.
pub open spec fn truncated<T>(s: Seq<T>, max: int) -> Seq<T> {
    if max < s.len() { s.take(max) } else { s }
}

/// A list of entries with one of them highlighted.
pub struct PopupMenu<T> where T: Clone + PartialEq {
    list: Vec<T>,
    state: ListState,
}

impl<T> Default for PopupMenu<T> where T: Clone + PartialEq {
    fn default() -> (m: PopupMenu<T>)
        ensures
            m@.len() == 0,
            m.selection() is None,
            m.state() == (ListState { offset: 0, selected: None }),
    {
        PopupMenu { list: Vec::new(), state: ListState { offset: 0, selected: None } }
    }
}

impl<T> View for PopupMenu<T> where T: Clone + PartialEq {
    type V = Seq<T>;

    closed spec fn view(&self) -> Seq<T> {
        self.list@
    }
}

impl<T> PopupMenu<T> where T: Clone + PartialEq {
    pub closed spec fn state(&self) -> ListState {
        self.state
    }

    pub open spec fn selection(&self) -> Option<usize> {
        self.state().selected
    }

    /// A menu never holds more entries than a `usize` counts.
    pub proof fn lemma_len_fits(&self)
        ensures
            self@.len() <= usize::MAX,
    {
        assert(self.list.len() == self.list@.len());
    }

    /// The highlighted index, if any, names an entry of the list.
    pub open spec fn selection_in_range(&self) -> bool {
        self.selection() matches Some(i) ==> i < self@.len()
    }

    /// Appends an entry; the first entry added becomes highlighted.
    pub fn add_field(self, field: T) -> (r: Self)
        ensures
            r@ == self@.push(field),
            r.selection() == (if self@.len() == 0 { Some(0usize) } else { self.selection() }),
            r.state().offset == self.state().offset,
    {
        let mut s = self;
        let was_empty = s.list.len() == 0;
        s.list.push(field);
        if was_empty {
            s.state.select(Some(0));
        }
        s
    }

    /// Inserts an entry at `index`, then keeps at most `max_count` entries,
    /// moving the highlight to the last entry left if it fell off the end.
    /// An entry added to an empty list becomes highlighted.
    pub fn insert_field(&mut self, index: usize, field: T, max_count: Option<usize>)
        requires
            index <= old(self)@.len(),
            max_count == Some(0usize) ==> old(self).selection() is None,
        ensures
            final(self)@ == (match max_count {
                Some(m) => truncated(old(self)@.insert(index as int, field), m as int),
                None => old(self)@.insert(index as int, field),
            }),
            final(self).selection() == (if old(self)@.len() == 0 {
                Some(0usize)
            } else {
                match (max_count, old(self).selection()) {
                    (Some(_), Some(i)) => if i >= final(self)@.len() {
                        Some((final(self)@.len() - 1) as usize)
                    } else {
                        Some(i)
                    },
                    _ => old(self).selection(),
                }
            }),
            final(self).state().offset == old(self).state().offset,
    {
        let was_empty = self.list.len() == 0;
        self.list.insert(index, field);
        if let Some(max_count) = max_count {
            self.list.truncate(max_count);
            if let Some(index) = self.state.selected() {
                if index >= self.list.len() {
                    self.state.select(Some(self.list.len() - 1));
                }
            }
        }
        if was_empty {
            self.state.select(Some(0));
        }
    }

    /// Removes every entry and the highlight.
    pub fn reset(&mut self)
        ensures
            final(self)@.len() == 0,
            final(self).state() == (ListState { offset: 0, selected: None }),
    {
        self.list.clear();
        self.state.select(None);
    }

    /// The highlight, to be drawn and updated by the list widget.
    pub fn get_state(&mut self) -> (r: &mut ListState)
        ensures
            *r == old(self).state(),
            final(self)@ == old(self)@,
            final(self).state() == *final(r),
    {
        &mut self.state
    }

    /// The highlighted index.
    pub fn selected_index(&self) -> (r: Option<usize>)
        ensures
            r == self.selection(),
    {
        self.state.selected()
    }

    pub fn get_list_items(&self) -> (r: &[T])
        ensures
            r@ == self@,
    {
        self.list.as_slice()
    }

    /// The highlighted entry.
    pub fn get_selected(&self) -> (r: Option<&T>)
        requires
            self.selection_in_range(),
        ensures
            r == (match self.selection() {
                Some(i) => Some(&self@[i as int]),
                None => None,
            }),
    {
        let index = match self.state.selected() {
            Some(index) => index,
            None => {
                return None;
            },
        };
        Some(&self.list[index])
    }

    /// Whether the highlighted entry equals `field`.
    pub fn selected(&self, field: T) -> (r: bool)
        ensures
            T::obeys_eq_spec() ==> r == (match self.selection() {
                Some(i) => i < self@.len() && self@[i as int].eq_spec(&field),
                None => false,
            }),
            !T::obeys_eq_spec() ==> (r ==> (self.selection() matches Some(i) && i < self@.len())),
    {
        let index = match self.state.selected() {
            Some(index) => index,
            None => {
                return false;
            },
        };
        if index >= self.list.len() {
            return false;
        }
        self.list[index] == field
    }

    /// Moves the highlight one entry up or down, wrapping around at both
    /// ends; without a highlight the first entry is chosen.
    pub fn traverse_items(&mut self, direction: Direction)
        requires
            cycle_defined(old(self).selection(), old(self)@.len() as int),
        ensures
            final(self)@ == old(self)@,
            final(self).selection() == Some(
                cycle_index(old(self).selection(), old(self)@.len() as int, direction) as usize,
            ),
            final(self).state().offset == old(self).state().offset,
    {
        let k = cycle(self.state.selected(), self.list.len(), direction);
        self.state.select(Some(k));
    }
}

impl PopupMenu<String> {
    /// The highlighted entry has the text `label`.
    pub open spec fn shows_selected(&self, label: Seq<char>) -> bool {
        self.selection() matches Some(i) && i < self@.len() && self@[i as int]@ == label
    }

    /// Whether the highlighted entry has the text `label`.
    pub fn selected_text(&self, label: &str) -> (r: bool)
        ensures
            r == self.shows_selected(label@),
    {
        match self.state.selected() {
            Some(i) => i < self.list.len() && crate::text::same_text(self.list[i].as_str(), label),
            None => false,
        }
    }
}

} // verus!
