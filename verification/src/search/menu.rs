use vstd::prelude::*;

use crate::events::{Event, KeyCode};
use crate::geometry::Direction;
use crate::input::{input_step, input_step_defined, rendered, Input, InputView};
use crate::popup_menu::{cycle_defined, cycle_index, truncated, ListState, PopupMenu};
use crate::search::SearchItem;

verus! {

/// The most results a search menu keeps.
pub const MAX_RESULTS: usize = 1000;

/// The results are ordered by score, best first.
pub open spec fn ranked(s: Seq<(u32, SearchItem)>) -> bool {
    forall|i: int, j: int| 0 <= i < j < s.len() ==> s[i].0 >= s[j].0
}

/// `p` is a place where an entry with `score` can go without breaking the
/// order: nothing before it scores less, nothing after it scores more.
pub open spec fn rank_position(s: Seq<(u32, SearchItem)>, score: u32, p: int) -> bool {
    &&& 0 <= p <= s.len()
    &&& forall|i: int| 0 <= i < p ==> s[i].0 >= score
    &&& forall|i: int| p <= i < s.len() ==> s[i].0 <= score
}

/// `f` is the menu `o` after a result with `score` was offered: it is
/// counted, the query stays, the result goes in among the results where it
/// keeps them ranked (the last ones beyond `MAX_RESULTS` dropping out), and
/// the highlight goes to the first result if there was none, else stays on
/// a result.
pub open spec fn result_added(o: SearchMenu, f: SearchMenu, score: u32, item: SearchItem) -> bool {
    &&& f.n_items() == o.n_items() + 1
    &&& f.query() == o.query()
    &&& exists|p: int|
        rank_position(o.items(), score, p) && f.items() == truncated(o.items().insert(p, (score, item)), MAX_RESULTS as int)
    &&& f.selection() == (if o.items().len() == 0 {
        Some(0usize)
    } else {
        match o.selection() {
            Some(i) => if i >= f.items().len() {
                Some((f.items().len() - 1) as usize)
            } else {
                Some(i)
            },
            None => None,
        }
    })
}

/// `next` is the menu `m` after `field` was offered: added as `add_field`
/// adds it when it scores above zero, left out otherwise.
pub open spec fn field_offered(m: SearchMenu, field: (u32, SearchItem), next: SearchMenu) -> bool {
    if field.0 > 0 {
        result_added(m, next, field.0, field.1)
    } else {
        next == m
    }
}

/// `ms` are the menus from `o` on as the results of `fields` are offered
/// one by one, in order.
pub open spec fn offer_chain(o: SearchMenu, fields: Seq<(u32, SearchItem)>, ms: Seq<SearchMenu>) -> bool {
    &&& ms.len() == fields.len() + 1
    &&& ms[0] == o
    &&& forall|j: int| 0 <= j < fields.len() ==> #[trigger] field_offered(ms[j], fields[j], ms[j + 1])
}

/// `f` is the menu `o` after the results of `fields` that score above zero
/// were added one by one, in order; the others leave it as it is.
pub open spec fn results_added(o: SearchMenu, fields: Seq<(u32, SearchItem)>, f: SearchMenu) -> bool {
    exists|ms: Seq<SearchMenu>| #[trigger] offer_chain(o, fields, ms) && ms.last() == f
}

/// The search popup: a query line, the results found so far ranked by
/// score, and how many results have been offered to it.
pub struct SearchMenu {
    input: Input,
    popup: PopupMenu<(u32, SearchItem)>,
    n_items: usize,
}

impl Default for SearchMenu {
    fn default() -> (m: SearchMenu)
        ensures
            m.wf(),
            m.items().len() == 0,
            m.selection() is None,
            m.n_items() == 0,
            m.query() == Input::new_view(),
    {
        SearchMenu { input: Input::new(), popup: PopupMenu::default(), n_items: 0 }
    }
}

impl SearchMenu {
    pub closed spec fn items(&self) -> Seq<(u32, SearchItem)> {
        self.popup@
    }

    pub closed spec fn selection(&self) -> Option<usize> {
        self.popup.selection()
    }

    pub closed spec fn list_state(&self) -> ListState {
        self.popup.state()
    }

    pub closed spec fn n_items(&self) -> nat {
        self.n_items as nat
    }

    pub closed spec fn query(&self) -> InputView {
        self.input@
    }

    /// The results are ranked and capped, and the query line is well formed.
    pub open spec fn wf(&self) -> bool {
        &&& ranked(self.items())
        &&& self.items().len() <= MAX_RESULTS
        &&& self.query_wf()
    }

    pub open spec fn query_wf(&self) -> bool {
        0 <= self.query().index < self.query().buffers.len()
    }

    pub fn new() -> (m: SearchMenu)
        ensures
            m.wf(),
            m.items().len() == 0,
            m.selection() is None,
            m.n_items() == 0,
            m.query() == Input::new_view(),
    {
        SearchMenu::default()
    }

    /// Where a result with `score` goes: after every result scoring at
    /// least as much.
    fn rank_index(&self, score: u32) -> (p: usize)
        requires
            ranked(self.items()),
        ensures
            rank_position(self.items(), score, p as int),
    {
        let list = self.popup.get_list_items();
        let mut lo: usize = 0;
        let mut hi: usize = list.len();
        while lo < hi
            invariant
                list@ == self.items(),
                ranked(self.items()),
                0 <= lo <= hi <= list@.len(),
                forall|i: int| 0 <= i < lo ==> list@[i].0 >= score,
                forall|i: int| hi <= i < list@.len() ==> list@[i].0 < score,
            decreases hi - lo,
        {
            let mid = lo + (hi - lo) / 2;
            if list[mid].0 >= score {
                lo = mid + 1;
            } else {
                hi = mid;
            }
        }
        lo
    }

    /// Adds a result, keeping the results ranked best first and at most
    /// `MAX_RESULTS` of them; counts it among the results offered.
    pub fn add_field(&mut self, score: u32, item: SearchItem)
        requires
            old(self).wf(),
            old(self).n_items() < usize::MAX,
        ensures
            final(self).wf(),
            result_added(*old(self), *final(self), score, item),
    {
        self.n_items = self.n_items + 1;
        let index = self.rank_index(score);
        let ghost old_items = self.items();
        self.popup.insert_field(index, (score, item), Some(MAX_RESULTS));
        proof {
            let s = old_items.insert(index as int, (score, item));
            assert forall|i: int, j: int| 0 <= i < j < s.len() implies s[i].0 >= s[j].0 by {
                if j < index {
                } else if j == index {
                } else if i < index {
                    assert(s[j] == old_items[j - 1]);
                } else if i == index {
                    assert(s[j] == old_items[j - 1]);
                } else {
                    assert(s[i] == old_items[i - 1]);
                    assert(s[j] == old_items[j - 1]);
                }
            }
            assert(rank_position(old_items, score, index as int));
        }
    }

    /// Adds the results that scored above zero, in order, each as
    /// `add_field` adds it.
    pub fn add_results(&mut self, fields: Vec<(u32, SearchItem)>)
        requires
            old(self).wf(),
            old(self).n_items() + fields@.len() <= usize::MAX,
        ensures
            final(self).wf(),
            results_added(*old(self), fields@, *final(self)),
            final(self).n_items() == old(self).n_items() + fields@.filter(|f: (u32, SearchItem)| f.0 > 0).len(),
    {
        let mut i: usize = 0;
        let n = fields.len();
        let mut fields = fields;
        let ghost all = fields@;
        let ghost mut ms: Seq<SearchMenu> = seq![*self];
        assert(all.take(0) =~= Seq::<(u32, SearchItem)>::empty());
        while i < n
            invariant
                n == all.len(),
                i <= n,
                fields@ == all.skip(i as int),
                self.wf(),
                offer_chain(*old(self), all.take(i as int), ms),
                ms.last() == *self,
                self.n_items() == old(self).n_items() + all.take(i as int).filter(|f: (u32, SearchItem)| f.0 > 0).len(),
                old(self).n_items() + n <= usize::MAX,
            decreases n - i,
        {
            proof {
                assert(all.take(i + 1).drop_last() =~= all.take(i as int));
                assert(all.take(i + 1).last() == all[i as int]);
                reveal(Seq::filter);
                all.take(i as int).lemma_filter_len(|f: (u32, SearchItem)| f.0 > 0);
                assert(all.skip(i as int)[0] == all[i as int]);
            }
            let ghost before = *self;
            let (score, item) = fields.remove(0);
            if score > 0 {
                self.add_field(score, item);
            }
            proof {
                assert(field_offered(before, all[i as int], *self));
                let ms2 = ms.push(*self);
                assert forall|j: int| 0 <= j < i + 1 implies #[trigger] field_offered(
                    ms2[j],
                    all.take(i + 1)[j],
                    ms2[j + 1],
                ) by {
                    if j < i {
                        assert(field_offered(ms[j], all.take(i as int)[j], ms[j + 1]));
                    }
                }
                ms = ms2;
            }
            i = i + 1;
            proof {
                assert(fields@ =~= all.skip(i as int));
            }
        }
        assert(all.take(n as int) =~= all);
        assert(offer_chain(*old(self), all, ms));
    }

    pub fn get_input_to_render(&self) -> (r: &str)
        ensures
            r@ == rendered(self.query()),
    {
        self.input.get_input_to_render()
    }

    /// The highlight of the result list, to be drawn by the list widget.
    pub fn get_state(&mut self) -> (r: &mut ListState)
        ensures
            *r == old(self).list_state(),
            final(self).items() == old(self).items(),
            final(self).query() == old(self).query(),
            final(self).n_items() == old(self).n_items(),
            final(self).list_state() == *final(r),
    {
        self.popup.get_state()
    }

    /// The results, best first.
    pub fn get_list_items(&self) -> (r: Vec<SearchItem>)
        ensures
            r@ == self.items().map_values(|f: (u32, SearchItem)| f.1),
    {
        let list = self.popup.get_list_items();
        let mut out: Vec<SearchItem> = Vec::new();
        let mut i: usize = 0;
        while i < list.len()
            invariant
                list@ == self.items(),
                i <= list@.len(),
                out@ == list@.take(i as int).map_values(|f: (u32, SearchItem)| f.1),
            decreases list@.len() - i,
        {
            out.push(list[i].1.duplicate());
            i = i + 1;
            assert(out@ =~= list@.take(i as int).map_values(|f: (u32, SearchItem)| f.1));
        }
        assert(list@.take(list@.len() as int) =~= list@);
        out
    }

    /// The highlighted result.
    pub fn get_selected_item(&self) -> (r: Option<&SearchItem>)
        requires
            self.selection() matches Some(i) ==> i < self.items().len(),
        ensures
            r == (match self.selection() {
                Some(i) => Some(&self.items()[i as int].1),
                None => None,
            }),
    {
        match self.popup.get_selected() {
            Some(field) => Some(&field.1),
            None => None,
        }
    }

    /// Moves the highlight through the results, wrapping at both ends.
    pub fn traverse_items(&mut self, direction: Direction)
        requires
            cycle_defined(old(self).selection(), old(self).items().len() as int),
        ensures
            final(self).items() == old(self).items(),
            final(self).query() == old(self).query(),
            final(self).n_items() == old(self).n_items(),
            final(self).selection() == Some(
                cycle_index(old(self).selection(), old(self).items().len() as int, direction) as usize,
            ),
    {
        self.popup.traverse_items(direction)
    }

    /// Whether the highlight can move through the results (see `cycle_defined`).
    pub fn can_traverse(&self) -> (r: bool)
        ensures
            r == cycle_defined(self.selection(), self.items().len() as int),
    {
        self.popup.selected_index().is_none() || self.popup.get_list_items().len() > 0
    }

    /// Whether the highlight, if there is one, is on a result.
    pub fn selection_valid(&self) -> (r: bool)
        ensures
            r == (self.selection() matches Some(i) ==> i < self.items().len()),
    {
        match self.popup.selected_index() {
            Some(i) => i < self.popup.get_list_items().len(),
            None => true,
        }
    }

    /// Whether the query line can take `code` (see `input_step_defined`).
    pub fn accepts(&self, code: KeyCode) -> (r: bool)
        requires
            self.query_wf(),
        ensures
            r == input_step_defined(self.query(), code),
    {
        self.input.accepts(code)
    }

    pub fn get_n_items(&self) -> (r: usize)
        ensures
            r == self.n_items(),
    {
        self.n_items
    }

    /// Forgets the results and the count of results offered.
    pub fn cleanup(&mut self)
        ensures
            final(self).wf() == old(self).query_wf(),
            final(self).items().len() == 0,
            final(self).selection() is None,
            final(self).n_items() == 0,
            final(self).query() == old(self).query(),
    {
        self.popup.reset();
        self.n_items = 0;
    }

    /// Starts a new search unless one is `running`: the old results are
    /// forgotten and the query to search for is returned.
    pub fn search(&mut self, running: bool) -> (r: Option<String>)
        ensures
            running ==> r is None && *final(self) == *old(self),
            !running ==> {
                &&& r matches Some(q) && q@ == rendered(old(self).query())
                &&& final(self).wf() == old(self).query_wf()
                &&& final(self).items().len() == 0
                &&& final(self).selection() is None
                &&& final(self).n_items() == 0
                &&& final(self).query() == old(self).query()
            },
    {
        if running {
            return None;
        }
        self.cleanup();
        let query = String::from_str(self.input.get_input_to_render());
        Some(query)
    }

    /// Edits the query, unless a search is `running`.
    pub fn handle_event(&mut self, event: &Event, running: bool)
        requires
            old(self).wf(),
            !running ==> (event matches Event::Key(k) ==> input_step_defined(old(self).query(), k.code)),
        ensures
            final(self).wf(),
            final(self).items() == old(self).items(),
            final(self).selection() == old(self).selection(),
            final(self).n_items() == old(self).n_items(),
            final(self).query() == (if running {
                old(self).query()
            } else {
                match event {
                    Event::Key(k) => input_step(old(self).query(), k.code),
                    _ => old(self).query(),
                }
            }),
    {
        if running {
            return;
        }
        self.input.handle_event(event);
    }
}

} // verus!
