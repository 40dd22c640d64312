use vstd::prelude::*;

use crate::application::{
    esc_result, is_editor_menu, key_result, next_editor, previous_editor, Action, App, EditorFocus, Focus,
    MenuScreen,
};
use crate::events::{KeyCode, KeyEvent, MouseButton, MouseEvent, MouseEventKind};
use crate::file_system::{
    bytes_before, entry_before, law_expand_then_collapse, lemma_insert_walked_len, toggled_tree, DirRead,
    FileTree, WalkEntry,
};
use crate::input::{input_step, rendered, InputView};
use crate::application::{execute_result, mouse_defined, mouse_result};
use crate::geometry::{
    complement_percent, horizontal_hitbox, horizontal_hitbox_defined, vertical_hitbox, vertical_hitbox_defined,
    Direction, DragKind, MenuScreenType, Rect, Split,
};
use crate::popup_menu::{cycle_index, truncated, PopupMenu};
use crate::search::menu::{ranked, rank_position, result_added, SearchMenu, MAX_RESULTS};
use crate::search::SearchItem;
use crate::search::{last_colon, line_location, location_of, SearchItemType, SearchItemView};
use crate::shell::{env_set, unique_names};
use crate::text::{
    all_digits, byte_len, char_pos, decimal, digit_char, digits_value, is_boundary, is_digit, joined, joined_path,
    lemma_prefix_bytes_grow, parsed_u16, parsed_u64, words,
};
use vstd::utf8::encode_utf8;

verus! {

/// Moving a highlight down and then up (or up and then down) through a
/// non-empty list comes back to the entry it started on.
pub proof fn law_cycle_round_trip(k: usize, len: int)
    requires
        0 <= k < len <= usize::MAX,
    ensures
        cycle_index(Some(cycle_index(Some(k), len, Direction::DOWN) as usize), len, Direction::UP) == k,
        cycle_index(Some(cycle_index(Some(k), len, Direction::UP) as usize), len, Direction::DOWN) == k,
{
}

/// A move through a non-empty list always lands on one of its entries.
pub proof fn law_cycle_in_range(selected: Option<usize>, len: int, direction: Direction)
    requires
        len > 0,
        selected matches Some(k) ==> k < len,
    ensures
        0 <= cycle_index(selected, len, direction) < len,
{
}

/// Cycling to the next editor and back (or back and then on) returns to
/// the editor that was selected.
pub proof fn law_editor_cycle_round_trip(i: usize, n: int)
    requires
        0 <= i < n,
        n <= usize::MAX,
    ensures
        previous_editor(next_editor(Some(i), n), n) == Some(i),
        next_editor(previous_editor(Some(i), n), n) == Some(i),
{
}

/// Exporting a variable twice leaves one binding, with the later value.
pub proof fn law_export_overwrites(
    env: Seq<(Seq<char>, Seq<char>)>,
    name: Seq<char>,
    v1: Seq<char>,
    v2: Seq<char>,
)
    requires
        unique_names(env),
    ensures
        env_set(env_set(env, name, v1), name, v2) == env_set(env, name, v2),
        unique_names(env_set(env, name, v2)),
{
    let e1 = env_set(env, name, v1);
    if exists|i: int| 0 <= i < env.len() && env[i].0 == name {
        let i = choose|i: int| 0 <= i < env.len() && env[i].0 == name;
        assert(e1[i].0 == name);
        let j = choose|j: int| 0 <= j < e1.len() && e1[j].0 == name;
        assert(j == i);
        assert(env_set(e1, name, v2) =~= env_set(env, name, v2));
    } else {
        assert(e1[env.len() as int].0 == name);
        let j = choose|j: int| 0 <= j < e1.len() && e1[j].0 == name;
        assert(j == env.len());
        assert(env_set(e1, name, v2) =~= env_set(env, name, v2));
    }
}

/// In an editor (with no preview open), Esc opens the editor menu and a
/// second Esc closes it again, leaving everything else as it was.
pub proof fn law_editor_menu_esc_round_trip(o: App, m: App, f: App)
    requires
        o.focus == Focus::EDITOR(EditorFocus::MAIN),
        o.preview_pane is None,
        esc_result(o, m, crate::application::Action::Nothing),
        esc_result(m, f, crate::application::Action::Nothing),
    ensures
        m.menu_screen matches Some(MenuScreen::EDITOR(menu)) && is_editor_menu(menu),
        m.focus == Focus::EDITOR(EditorFocus::MENU),
        f == (App { menu_screen: None, ..o }),
{
}

proof fn lemma_digit_value(x: int)
    requires
        0 <= x < 10,
    ensures
        ((digit_char(x) as u32) - ('0' as u32)) as nat == x,
        is_digit(digit_char(x)),
{
}

proof fn lemma_decimal_digits(n: nat)
    ensures
        decimal(n).len() > 0,
        all_digits(decimal(n)),
        digits_value(decimal(n)) == n,
        decimal(n)[0] != '+',
    decreases n,
{
    if n < 10 {
        assert(decimal(n) =~= seq![digit_char(n as int)]);
        assert(seq![digit_char(n as int)].drop_last() =~= Seq::<char>::empty());
        lemma_digit_value(n as int);
        assert(digits_value(Seq::<char>::empty()) == 0);
        assert(decimal(n).drop_last() =~= Seq::<char>::empty());
        assert(decimal(n).last() == digit_char(n as int));
        assert(digits_value(decimal(n)) == n);
    } else {
        lemma_decimal_digits(n / 10);
        let d = decimal(n);
        assert(d.drop_last() =~= decimal(n / 10));
        assert(d[0] == decimal(n / 10)[0]);
        lemma_digit_value((n % 10) as int);
        assert(d.last() == digit_char((n % 10) as int));
        assert(digits_value(d) == digits_value(decimal(n / 10)) * 10 + (n % 10));
        assert((n / 10) * 10 + (n % 10) == n) by (nonlinear_arith);
        assert forall|i: int| 0 <= i < d.len() implies is_digit(#[trigger] d[i]) by {
            if i < d.len() - 1 {
                assert(d[i] == decimal(n / 10)[i]);
            }
        }
    }
}

proof fn lemma_last_colon_skips_digits(p: Seq<char>, d: Seq<char>)
    requires
        all_digits(d),
    ensures
        last_colon(p + seq![':'] + d) == p.len(),
    decreases d.len(),
{
    let s = p + seq![':'] + d;
    if d.len() == 0 {
        assert(s.last() == ':');
    } else {
        assert(is_digit(d[d.len() - 1]));
        assert(s.last() == d.last());
        assert(s.drop_last() =~= p + seq![':'] + d.drop_last());
        assert forall|i: int| 0 <= i < d.drop_last().len() implies is_digit(#[trigger] d.drop_last()[i]) by {
            assert(d.drop_last()[i] == d[i]);
        }
        lemma_last_colon_skips_digits(p, d.drop_last());
    }
}

/// The location written for a matching line (`path:line`) is read back
/// as that path and line number, whatever colons the path holds.
pub proof fn law_line_location_read_back(path: Seq<char>, n: u64, display: Seq<char>)
    ensures
        location_of(
            SearchItemView {
                display,
                metadata: Some(line_location(path, Some(n))),
                item_type: SearchItemType::TEXT,
            },
        ) == (path, Some(n)),
{
    let d = decimal(n as nat);
    lemma_decimal_digits(n as nat);
    lemma_last_colon_skips_digits(path, d);
    let m = line_location(path, Some(n));
    assert(m == path + seq![':'] + d);
    assert(m.take(path.len() as int) =~= path);
    assert(m.skip(path.len() + 1int) =~= d);
    assert(parsed_u64(d) == Some(n));
}

/// Shift+Tab cycles through the panes: from the files to the open editor
/// (when there is one), then to the shell, then back to the files, with
/// nothing else changed on the way.
pub proof fn law_panes_cycle(
    o: App,
    a: App,
    b: App,
    c: App,
    key: KeyEvent,
    running: bool,
    acts: (Action, Action, Action),
)
    requires
        key.code == KeyCode::BackTab,
        o.focus == Focus::FILES,
        key_result(o, a, key, running, acts.0),
        key_result(a, b, key, running, acts.1),
        key_result(b, c, key, running, acts.2),
    ensures
        acts.0 is Nothing && acts.1 is Nothing && acts.2 is Nothing,
        o.selected_editor is Some ==> a.focus == Focus::EDITOR(EditorFocus::MAIN) && b.focus == Focus::SHELL
            && c == o,
        o.selected_editor is None ==> a.focus == Focus::SHELL && b == o,
{
}

/// With no preview open, `?` opens an empty search menu that gets the
/// keys, letting any running search go, and Esc closes it again, stopping
/// its search and handing the keys to the files; nothing else changes.
pub proof fn law_search_open_close(
    o: App,
    m: App,
    f: App,
    open: KeyEvent,
    esc: KeyEvent,
    running: bool,
    a1: Action,
    a2: Action,
)
    requires
        o.preview_pane is None,
        open.code == KeyCode::Char('?'),
        esc.code == KeyCode::Esc,
        key_result(o, m, open, running, a1),
        key_result(m, f, esc, running, a2),
    ensures
        m.focus == Focus::SEARCH,
        m.menu_screen matches Some(MenuScreen::SEARCH(menu)) && menu.items().len() == 0,
        a1 is DropSearch,
        a2 is CleanupSearch,
        f == (App { menu_screen: None, focus: Focus::FILES, ..o }),
{
}

/// Enter queues the command being edited behind those queued before and
/// adds an empty one at the end, which is shown next when the newest
/// command was being edited.
pub proof fn law_enter_queues_line(v: InputView)
    requires
        0 <= v.index < v.buffers.len(),
    ensures
        input_step(v, KeyCode::Enter).queue == v.queue.push(rendered(v)),
        v.index == v.buffers.len() - 1 ==> rendered(input_step(v, KeyCode::Enter)) == Seq::<char>::empty(),
        input_step(v, KeyCode::Enter).cursor == 0,
{
}

/// In the small shell, typing a character and then deleting it with
/// Backspace gives back the line and cursor as they were.
pub proof fn law_tidy_type_then_delete(
    o: crate::tidy::App,
    m: crate::tidy::App,
    f: crate::tidy::App,
    c: char,
    r1: Option<Vec<String>>,
    r2: Option<Vec<String>>,
)
    requires
        o.wf(),
        crate::tidy::key_result(o, m, KeyCode::Char(c), r1),
        crate::tidy::key_result(m, f, KeyCode::Backspace, r2),
    ensures
        f.line() == o.line(),
        f.cursor() == o.cursor(),
        f.exiting() == o.exiting(),
        f.printed() == o.printed(),
{
    let l = o.line();
    let k = o.cursor();
    let typed = l.take(k).push(c) + l.skip(k);
    assert(typed.take(k) =~= l.take(k));
    assert(typed.skip(k + 1) =~= l.skip(k));
    assert(l.take(k) + l.skip(k) =~= l);
}

proof fn lemma_bytes_before_irreflexive(a: Seq<u8>)
    ensures
        !bytes_before(a, a),
    decreases a.len(),
{
    if a.len() > 0 {
        lemma_bytes_before_irreflexive(a.drop_first());
    }
}

proof fn lemma_bytes_before_trichotomy(a: Seq<u8>, b: Seq<u8>)
    ensures
        a == b || bytes_before(a, b) || bytes_before(b, a),
        !(bytes_before(a, b) && bytes_before(b, a)),
    decreases a.len(),
{
    if a.len() > 0 && b.len() > 0 && a[0] == b[0] {
        lemma_bytes_before_trichotomy(a.drop_first(), b.drop_first());
        if a.drop_first() == b.drop_first() {
            assert(a =~= seq![a[0]] + a.drop_first());
            assert(b =~= seq![b[0]] + b.drop_first());
        }
    } else if a.len() == 0 && b.len() == 0 {
        assert(a =~= b);
    }
}

proof fn lemma_bytes_before_transitive(a: Seq<u8>, b: Seq<u8>, c: Seq<u8>)
    requires
        bytes_before(a, b),
        bytes_before(b, c),
    ensures
        bytes_before(a, c),
    decreases a.len(),
{
    if a.len() > 0 && a[0] == b[0] && b[0] == c[0] {
        lemma_bytes_before_transitive(a.drop_first(), b.drop_first(), c.drop_first());
    }
}

/// The order in which a directory's entries are walked is a strict total
/// order: no entry goes before itself, of two different entries exactly
/// one goes first, and it is transitive.
pub proof fn law_entry_order_total(
    a_dir: bool,
    a: Seq<u8>,
    b_dir: bool,
    b: Seq<u8>,
    c_dir: bool,
    c: Seq<u8>,
)
    ensures
        !entry_before(a_dir, a, a_dir, a),
        (a_dir == b_dir && a == b) || entry_before(a_dir, a, b_dir, b) || entry_before(b_dir, b, a_dir, a),
        !(entry_before(a_dir, a, b_dir, b) && entry_before(b_dir, b, a_dir, a)),
        entry_before(a_dir, a, b_dir, b) && entry_before(b_dir, b, c_dir, c) ==> entry_before(a_dir, a, c_dir, c),
{
    lemma_bytes_before_irreflexive(a);
    lemma_bytes_before_trichotomy(a, b);
    if entry_before(a_dir, a, b_dir, b) && entry_before(b_dir, b, c_dir, c) && a_dir == b_dir && b_dir == c_dir {
        lemma_bytes_before_transitive(a, b, c);
    }
}

/// Key handling keeps the open editors in order: the selection names an
/// open editor, there is one whenever an editor is open, and no two open
/// editors are of the same file (see `editors_valid`).
pub proof fn law_keys_keep_editors_valid(o: App, f: App, key: KeyEvent, running: bool, act: Action)
    requires
        o.wf(),
        o.editors_valid(),
        key_result(o, f, key, running, act),
    ensures
        f.editors_valid(),
{
    let n = o.editor_panes@.len();
    if f.editor_panes@ != o.editor_panes@ {
        let i = o.selected_editor->0 as int;
        assert(f.editor_panes@ == o.editor_panes@.remove(i));
        assert forall|j: int, k: int| 0 <= j < k < f.editor_panes@.len() implies #[trigger] f.editor_panes@[j].path@
            != #[trigger] f.editor_panes@[k].path@ by {
            let jj = if j < i { j } else { j + 1 };
            let kk = if k < i { k } else { k + 1 };
            assert(f.editor_panes@[j] == o.editor_panes@[jj]);
            assert(f.editor_panes@[k] == o.editor_panes@[kk]);
            assert(o.editor_panes@[jj].path@ != o.editor_panes@[kk].path@);
        }
    }
}

/// Enter on a collapsed directory of the files and then Enter again gives
/// back the entries as they were, with the same directory highlighted,
/// provided no entry after it lies deeper (collapsing hides every deeper
/// entry after it) and the walk reports entries below the directory.
pub proof fn law_toggle_twice_restores(
    o: FileTree,
    m: FileTree,
    f: FileTree,
    parent: Option<DirRead>,
    cs: Seq<WalkEntry>,
    cs2: Seq<WalkEntry>,
)
    requires
        o.selection() matches Some(i) && 0 < i < o.entries().len() && o.entries()[i as int].is_dir
            && !o.entries()[i as int].expanded,
        forall|j: int|
            o.selection()->0 < j < o.entries().len() ==> #[trigger] o.entries()[j].depth <= o.entries()[o.selection()->0 as int].depth,
        forall|c: int| 0 <= c < cs.len() ==> #[trigger] cs[c].depth >= 1,
        toggled_tree(o, m, parent, cs),
        toggled_tree(m, f, parent, cs2),
    ensures
        f.entries() == o.entries(),
        f.selection() == o.selection(),
        f.state().offset == o.state().offset,
        f.current_path() == o.current_path(),
        f.current_name() == o.current_name(),
{
    let i = o.selection()->0 as int;
    let s = o.entries();
    law_expand_then_collapse(s, i, cs);
    lemma_insert_walked_len(s, i + 1, s[i].depth, cs);
}

/// A key never takes the command line off its commands: the one edited
/// stays one of them; only Enter adds a command, an empty one at the end;
/// and no key changes a command other than the one being edited.
pub proof fn law_input_step_shape(v: InputView, code: KeyCode)
    requires
        0 <= v.index < v.buffers.len(),
    ensures
        0 <= input_step(v, code).index < input_step(v, code).buffers.len(),
        input_step(v, code).buffers.len() == v.buffers.len() + (if code == KeyCode::Enter { 1int } else { 0 }),
        code == KeyCode::Enter ==> input_step(v, code).buffers.last() == Seq::<char>::empty(),
        forall|j: int| 0 <= j < v.buffers.len() && j != v.index ==> #[trigger] input_step(v, code).buffers[j] == v.buffers[j],
{
}

/// In a menu, moving the highlight down and then up (as `traverse_items`
/// does) comes back to the entry it started on, with the entries unchanged.
pub proof fn law_menu_down_up(m0: PopupMenu<String>, m1: PopupMenu<String>, m2: PopupMenu<String>)
    requires
        m0.selection() matches Some(j) && j < m0@.len(),
        m1@ == m0@,
        m1.selection() == Some(cycle_index(m0.selection(), m0@.len() as int, Direction::DOWN) as usize),
        m2@ == m1@,
        m2.selection() == Some(cycle_index(m1.selection(), m1@.len() as int, Direction::UP) as usize),
    ensures
        m2.selection() == m0.selection(),
        m2@ == m0@,
{
    m0.lemma_len_fits();
    law_cycle_round_trip(m0.selection()->0, m0@.len() as int);
}

/// Adding a search result to ranked results keeps them ranked, keeps the
/// others in their order with the new one among them, counts one more
/// result offered, and holds one more result unless `MAX_RESULTS` are held.
pub proof fn law_result_added_ranked(o: SearchMenu, f: SearchMenu, score: u32, item: SearchItem)
    requires
        ranked(o.items()),
        o.items().len() <= MAX_RESULTS,
        result_added(o, f, score, item),
    ensures
        ranked(f.items()),
        f.items().len() == if o.items().len() < MAX_RESULTS { o.items().len() + 1int } else { MAX_RESULTS as int },
        f.n_items() == o.n_items() + 1,
        exists|p: int|
            0 <= p <= o.items().len() && f.items() == truncated(o.items().insert(p, (score, item)), MAX_RESULTS as int),
{
    let p = choose|p: int|
        rank_position(o.items(), score, p) && f.items() == truncated(o.items().insert(p, (score, item)), MAX_RESULTS as int);
    let s = o.items().insert(p, (score, item));
    assert forall|i: int, j: int| 0 <= i < j < s.len() implies s[i].0 >= s[j].0 by {
        if j < p {
        } else if j == p {
        } else if i < p {
            assert(s[j] == o.items()[j - 1]);
        } else if i == p {
            assert(s[j] == o.items()[j - 1]);
        } else {
            assert(s[i] == o.items()[i - 1]);
            assert(s[j] == o.items()[j - 1]);
        }
    }
}

/// In the search pane, Down moves the highlight to the next result (from
/// the last one round to the first) and Up to the previous one (from the
/// first one round to the last); without a highlight either key takes the
/// first result. The results and the query stay, and nothing else changes.
pub proof fn law_search_arrows(o: App, f: App, key: KeyEvent, running: bool, act: Action)
    requires
        o.focus == Focus::SEARCH,
        key.code == KeyCode::Down || key.code == KeyCode::Up,
        key_result(o, f, key, running, act),
    ensures
        act is Nothing,
        match o.menu_screen {
            Some(MenuScreen::SEARCH(m)) => {
                let n = m.items().len() as int;
                &&& f.menu_screen matches Some(MenuScreen::SEARCH(m2)) && {
                    &&& m2.items() == m.items()
                    &&& m2.query() == m.query()
                    &&& m2.n_items() == m.n_items()
                    &&& m2.selection() == Some(
                        (match m.selection() {
                            None => 0,
                            Some(k) => if key.code == KeyCode::Down {
                                if k + 1 < n { k + 1 } else { 0 }
                            } else {
                                if k > 0 { k - 1 } else { n - 1 }
                            },
                        }) as usize,
                    )
                }
                &&& f == (App { menu_screen: f.menu_screen, ..o })
            },
            _ => f == o,
        },
{
}

/// In the files, Down moves the highlight to the next entry (from the last
/// round to the first) and Up to the previous one (from the first round to
/// the last); the entry landed on is previewed when it is a file. The
/// entries stay, and nothing else changes.
pub proof fn law_files_arrows(o: App, f: App, key: KeyEvent, running: bool, act: Action)
    requires
        o.focus == Focus::FILES,
        key.code == KeyCode::Down || key.code == KeyCode::Up,
        key_result(o, f, key, running, act),
    ensures
        ({
            let n = o.file_system.entries().len() as int;
            let k = match o.file_system.selection() {
                None => 0,
                Some(j) => if key.code == KeyCode::Down {
                    if j + 1 < n { j + 1 } else { 0 }
                } else {
                    if j > 0 { j - 1 } else { n - 1 }
                },
            };
            &&& f.file_system.selection() == Some(k as usize)
            &&& f.file_system.entries() == o.file_system.entries()
            &&& f == (App { file_system: f.file_system, ..o })
            &&& if o.file_system.entries()[k].is_dir {
                act is Nothing
            } else {
                act matches Action::Preview(p) && p@ == o.file_system.entries()[k].path
            }
        }),
{
}

/// In the editor menu, Down moves the highlight to the next choice and Up
/// to the previous one, wrapping round at either end.
pub proof fn law_editor_menu_arrows(o: App, f: App, key: KeyEvent, running: bool, act: Action)
    requires
        o.focus == Focus::EDITOR(EditorFocus::MENU),
        key.code == KeyCode::Down || key.code == KeyCode::Up,
        key_result(o, f, key, running, act),
    ensures
        act is Nothing,
        match o.menu_screen {
            Some(MenuScreen::EDITOR(m)) => {
                let n = m@.len() as int;
                &&& f.menu_screen matches Some(MenuScreen::EDITOR(m2)) && {
                    &&& m2@ == m@
                    &&& m2.selection() == Some(
                        (match m.selection() {
                            None => 0,
                            Some(k) => if key.code == KeyCode::Down {
                                if k + 1 < n { k + 1 } else { 0 }
                            } else {
                                if k > 0 { k - 1 } else { n - 1 }
                            },
                        }) as usize,
                    )
                }
                &&& f == (App { menu_screen: f.menu_screen, ..o })
            },
            _ => f == o,
        },
{
}

/// Esc with a preview open only closes the preview: the application keeps
/// running and the focus, menus and editors stay.
pub proof fn law_esc_closes_preview_only(o: App, f: App, key: KeyEvent, running: bool, act: Action)
    requires
        o.preview_pane is Some,
        key.code == KeyCode::Esc,
        key_result(o, f, key, running, act),
    ensures
        act is Nothing,
        f == (App { preview_pane: None, ..o }),
        f.exit == o.exit,
{
}

/// Esc without a preview: from the files or the shell it offers the
/// editor menu when an editor is open and otherwise ends the application;
/// from the search it closes the search (stopping it) and goes back to the
/// files; in an editor it opens its menu, and in the menu it closes it.
pub proof fn law_esc_without_preview(o: App, f: App, key: KeyEvent, running: bool, act: Action)
    requires
        o.preview_pane is None,
        key.code == KeyCode::Esc,
        key_result(o, f, key, running, act),
    ensures
        (o.focus == Focus::FILES || o.focus == Focus::SHELL) && o.selected_editor is None ==> f == (App {
            exit: true,
            ..o
        }) && act is Nothing,
        (o.focus == Focus::FILES || o.focus == Focus::SHELL) && o.selected_editor is Some ==> {
            &&& f.exit == o.exit
            &&& f.focus == Focus::EDITOR(EditorFocus::MENU)
            &&& f.menu_screen matches Some(MenuScreen::EDITOR(m)) && m.shows_selected("Save?"@)
            &&& f.editor_panes == o.editor_panes
            &&& f.selected_editor == o.selected_editor
        },
        o.focus == Focus::SEARCH ==> f == (App { menu_screen: None, focus: Focus::FILES, ..o }),
        o.focus == Focus::SEARCH && (o.menu_screen matches Some(MenuScreen::SEARCH(_))) ==> act is CleanupSearch,
        o.focus == Focus::EDITOR(EditorFocus::MENU) ==> f == (App {
            menu_screen: None,
            focus: Focus::EDITOR(EditorFocus::MAIN),
            ..o
        }),
        o.focus == Focus::EDITOR(EditorFocus::MAIN) ==> f.focus == Focus::EDITOR(EditorFocus::MENU) && f.exit == o.exit,
{
    reveal_strlit("Save?");
    reveal_strlit("Exit?");
    if (o.focus == Focus::FILES || o.focus == Focus::SHELL) && o.selected_editor is Some {
        assert(esc_result(o, f, act));
        let m = f.menu_screen->0->EDITOR_0;
        assert(is_editor_menu(m));
        assert(m@.map_values(|s: String| s@).len() == 2);
        assert(m@.map_values(|s: String| s@)[0] == m@[0]@);
        assert(m.shows_selected("Save?"@));
    }
}

/// A left press on a divider's band starts dragging that divider: the
/// file list divider when the press is on its band, else the editor/shell
/// divider when it is on that one; nothing else changes.
pub proof fn law_divider_press(
    o: App,
    f: App,
    m: MouseEvent,
    frame: Rect,
    editor: Rect,
    shell: Rect,
    file: Rect,
    popup: Option<(MenuScreenType, Rect)>,
    to_editor: Option<usize>,
    act: Action,
)
    requires
        m.kind == MouseEventKind::Down(MouseButton::Left),
        mouse_result(o, f, m, frame, editor, shell, file, popup, to_editor, act),
    ensures
        horizontal_hitbox(o.split, frame).strictly_contains(m.column as int, m.row as int) ==> f == (App {
            last_drag: Some(DragKind::HORIZONTAL),
            ..o
        }),
        !horizontal_hitbox(o.split, frame).strictly_contains(m.column as int, m.row as int) && vertical_hitbox(
            o.split,
            frame,
        ).strictly_contains(m.column as int, m.row as int) ==> f == (App {
            last_drag: Some(DragKind::VERTICAL),
            ..o
        }),
{
}

/// A left press on the editor/shell divider's band (away from the file
/// list divider's) and then a drag moves that divider to the row dragged
/// to, in percent of the frame's height; the file list divider stays.
/// Pressed on the file list divider's band, a drag moves that one to the
/// column, in percent of the frame's width, and the other stays.
pub proof fn law_press_then_drag(
    o: App,
    m: App,
    f: App,
    press: MouseEvent,
    drag: MouseEvent,
    frame: Rect,
    editor: Rect,
    shell: Rect,
    file: Rect,
    popup: Option<(MenuScreenType, Rect)>,
    e1: Option<usize>,
    e2: Option<usize>,
    a1: Action,
    a2: Action,
)
    requires
        press.kind == MouseEventKind::Down(MouseButton::Left),
        drag.kind matches MouseEventKind::Drag(_),
        mouse_result(o, m, press, frame, editor, shell, file, popup, e1, a1),
        mouse_defined(m, drag, frame, editor, shell, file, popup),
        mouse_result(m, f, drag, frame, editor, shell, file, popup, e2, a2),
    ensures
        !horizontal_hitbox(o.split, frame).strictly_contains(press.column as int, press.row as int)
            && vertical_hitbox(o.split, frame).strictly_contains(press.column as int, press.row as int) ==> {
            &&& f.split.vertical == (drag.row * 100) / (frame.height as int)
            &&& f.split.horizontal == o.split.horizontal
        },
        horizontal_hitbox(o.split, frame).strictly_contains(press.column as int, press.row as int) ==> {
            &&& f.split.horizontal == (drag.column * 100) / (frame.width as int)
            &&& f.split.vertical == o.split.vertical
        },
{
}

/// Choosing Save? in the editor menu saves the selected editor and closes
/// the menu; choosing Exit? closes the selected editor: it leaves the
/// list of editors, the one after it (or else the new last one) is
/// selected, and with none left the files get the keys.
pub proof fn law_editor_menu_choices(o: App, f: App, key: KeyEvent, running: bool, act: Action, i: usize)
    requires
        o.wf(),
        o.focus == Focus::EDITOR(EditorFocus::MENU),
        o.selected_editor == Some(i),
        key.code == KeyCode::Enter,
        key_result(o, f, key, running, act),
    ensures
        match o.menu_screen {
            Some(MenuScreen::EDITOR(menu)) => {
                let n = o.editor_panes@.len() as int;
                &&& menu.shows_selected("Save?"@) ==> act == Action::Save(i) && f == (App { menu_screen: None, ..o })
                &&& menu.shows_selected("Exit?"@) ==> {
                    &&& act == Action::Close(i)
                    &&& f.editor_panes@ == o.editor_panes@.remove(i as int)
                    &&& f.selected_editor == if n <= 1 {
                        None
                    } else if i + 1 >= n {
                        Some((n - 2) as usize)
                    } else {
                        Some(i)
                    }
                    &&& f.menu_screen is None
                    &&& f.focus == if n <= 1 { Focus::FILES } else { o.focus }
                }
            },
            _ => f == o && act is Nothing,
        },
{
    reveal_strlit("Save?");
    reveal_strlit("Exit?");
    assert("Save?"@[0] != "Exit?"@[0]);
}

/// On the shell's command line, Up goes back exactly one command and Down
/// forward exactly one, within the commands; Left and Right move the
/// cursor one byte within the command; neither changes any command.
pub proof fn law_command_line_arrows(v: InputView)
    ensures
        v.index > 0 ==> input_step(v, KeyCode::Up) == (InputView { index: v.index - 1, ..v }),
        v.index <= 0 ==> input_step(v, KeyCode::Up) == v,
        v.index + 1 < v.buffers.len() ==> input_step(v, KeyCode::Down) == (InputView { index: v.index + 1, ..v }),
        v.index + 1 >= v.buffers.len() ==> input_step(v, KeyCode::Down) == v,
        v.cursor > 0 ==> input_step(v, KeyCode::Left) == (InputView { cursor: v.cursor - 1, ..v }),
        v.cursor <= 0 ==> input_step(v, KeyCode::Left) == v,
        v.cursor + 1 < byte_len(v.buffers[v.index]) ==> input_step(v, KeyCode::Right) == (InputView {
            cursor: v.cursor + 1,
            ..v
        }),
        v.cursor + 1 >= byte_len(v.buffers[v.index]) ==> input_step(v, KeyCode::Right) == v,
{
}

/// Typing a character on the command line puts it in the command being
/// edited at the cursor (the cursor being a character boundary) and moves
/// the cursor past it; Backspace takes out the character that starts at
/// the cursor and moves the cursor back one byte. Other commands, the
/// queue and the command being edited stay.
pub proof fn law_command_line_typing(v: InputView, c: char, k: int)
    requires
        0 <= v.index < v.buffers.len(),
        0 <= k <= v.buffers[v.index].len(),
        byte_len(v.buffers[v.index].take(k)) == v.cursor,
    ensures
        ({
            let b = v.buffers[v.index];
            let w = input_step(v, KeyCode::Char(c));
            &&& w.buffers[v.index].len() == b.len() + 1
            &&& w.buffers[v.index][k] == c
            &&& w.buffers[v.index].take(k) == b.take(k)
            &&& w.buffers[v.index].skip(k + 1) == b.skip(k)
            &&& w.cursor == v.cursor + 1
            &&& w.index == v.index
            &&& w.queue == v.queue
            &&& forall|j: int| 0 <= j < v.buffers.len() && j != v.index ==> #[trigger] w.buffers[j] == v.buffers[j]
        }),
        v.cursor > 0 && k < v.buffers[v.index].len() ==> ({
            let b = v.buffers[v.index];
            let w = input_step(v, KeyCode::Backspace);
            &&& w.buffers[v.index] == b.take(k) + b.skip(k + 1)
            &&& w.cursor == v.cursor - 1
            &&& w.index == v.index
            &&& w.queue == v.queue
            &&& forall|j: int| 0 <= j < v.buffers.len() && j != v.index ==> #[trigger] w.buffers[j] == v.buffers[j]
        }),
{
    let b = v.buffers[v.index];
    lemma_prefix_unique(b, k);
    let w = input_step(v, KeyCode::Char(c));
    assert(w.buffers[v.index] == b.take(k).push(c) + b.skip(k));
    assert((b.take(k).push(c) + b.skip(k)).take(k) =~= b.take(k));
    assert((b.take(k).push(c) + b.skip(k)).skip(k + 1) =~= b.skip(k));
}

/// A byte offset that starts a character names just one character position.
proof fn lemma_prefix_unique(b: Seq<char>, k: int)
    requires
        0 <= k <= b.len(),
    ensures
        char_pos(b, byte_len(b.take(k))) == k,
{
    let c = byte_len(b.take(k));
    assert(is_boundary(b, c));
    let j = char_pos(b, c);
    if j < k {
        lemma_prefix_bytes_grow(b, j, k);
    } else if j > k {
        lemma_prefix_bytes_grow(b, k, j);
    }
}

/// Left and Right cycle through the open editors (with shift, or outside
/// an editor): Right selects the next one (from the last round to the
/// first), Left the previous one (from the first round to the last);
/// nothing else changes. In an editor without shift they go to it.
pub proof fn law_editor_tabs_keys(o: App, f: App, key: KeyEvent, running: bool, act: Action)
    requires
        o.wf(),
        key.code == KeyCode::Left || key.code == KeyCode::Right,
        key_result(o, f, key, running, act),
    ensures
        (key.shift || !(o.focus matches Focus::EDITOR(_))) ==> {
            let n = o.editor_panes@.len() as int;
            &&& act is Nothing
            &&& f == (App {
                selected_editor: match o.selected_editor {
                    Some(i) => Some(
                        (if key.code == KeyCode::Right {
                            if i + 1 < n { i + 1 } else { 0 }
                        } else {
                            if i > 0 { i - 1 } else { n - 1 }
                        }) as usize,
                    ),
                    None => None,
                },
                ..o
            })
        },
        (!key.shift && o.focus matches Focus::EDITOR(_)) ==> f == o && match o.selected_editor {
            Some(i) => act == Action::EditorKey(i),
            None => act is Nothing,
        },
{
}

/// Scrolling sideways cycles through the open editors as Left and Right
/// do; scrolling up over the shell shows one older line of its output
/// (while there is one) and scrolling down one newer line; elsewhere
/// nothing changes.
pub proof fn law_mouse_scrolling(
    o: App,
    f: App,
    m: MouseEvent,
    frame: Rect,
    editor: Rect,
    shell: Rect,
    file: Rect,
    popup: Option<(MenuScreenType, Rect)>,
    to_editor: Option<usize>,
    act: Action,
)
    requires
        o.wf(),
        mouse_result(o, f, m, frame, editor, shell, file, popup, to_editor, act),
    ensures
        ({
            let n = o.editor_panes@.len() as int;
            &&& m.kind == MouseEventKind::ScrollRight ==> act is Nothing && f == (App {
                selected_editor: match o.selected_editor {
                    Some(i) => Some((if i + 1 < n { i + 1 } else { 0 }) as usize),
                    None => None,
                },
                ..o
            })
            &&& m.kind == MouseEventKind::ScrollLeft ==> act is Nothing && f == (App {
                selected_editor: match o.selected_editor {
                    Some(i) => Some((if i > 0 { i - 1 } else { n - 1 }) as usize),
                    None => None,
                },
                ..o
            })
        }),
        m.kind == MouseEventKind::ScrollUp ==> act is Nothing && if shell.strictly_contains(
            m.column as int,
            m.row as int,
        ) && o.output_pos + 1 < (o.output@.len() as u16) {
            f == (App { output_pos: (o.output_pos + 1) as u16, ..o })
        } else {
            f == o
        },
        m.kind == MouseEventKind::ScrollDown ==> act is Nothing && if shell.strictly_contains(
            m.column as int,
            m.row as int,
        ) && o.output_pos > 0 {
            f == (App { output_pos: (o.output_pos - 1) as u16, ..o })
        } else {
            f == o
        },
        m.kind == MouseEventKind::Down(MouseButton::Right) ==> f == o,
        to_editor == (if editor.strictly_contains(m.column as int, m.row as int) {
            o.selected_editor
        } else {
            None
        }),
{
}

/// A left click away from the divider bands with no popup shown: on an
/// open editor it gives the editor the keys (closing the preview); else
/// in the shell it gives the shell the keys; else in the file list it
/// gives the files the keys and highlights the entry on the row clicked
/// (the first entry being on the row below the list's top), opening it
/// if it is a file.
pub proof fn law_left_click(
    o: App,
    f: App,
    m: MouseEvent,
    frame: Rect,
    editor: Rect,
    shell: Rect,
    file: Rect,
    to_editor: Option<usize>,
    act: Action,
)
    requires
        m.kind == MouseEventKind::Down(MouseButton::Left),
        !horizontal_hitbox(o.split, frame).strictly_contains(m.column as int, m.row as int),
        !vertical_hitbox(o.split, frame).strictly_contains(m.column as int, m.row as int),
        mouse_result(o, f, m, frame, editor, shell, file, None, to_editor, act),
    ensures
        ({
            let (x, y) = (m.column as int, m.row as int);
            let on_editor = editor.strictly_contains(x, y) && o.selected_editor is Some;
            let es = o.file_system.entries();
            &&& on_editor ==> f == (App {
                preview_pane: None,
                focus: Focus::EDITOR(EditorFocus::MAIN),
                ..o
            }) && act is Nothing
            &&& !on_editor && shell.strictly_contains(x, y) ==> f == (App { focus: Focus::SHELL, ..o })
                && act is Nothing
            &&& !on_editor && !shell.strictly_contains(x, y) && file.strictly_contains(x, y) ==> {
                &&& f.focus == Focus::FILES
                &&& f.file_system.entries() == es
                &&& 0 <= y - 1 < es.len() ==> f.file_system.selection() == Some((y - 1) as usize) && if es[y
                    - 1].is_dir {
                    act is Nothing
                } else {
                    act matches Action::Open(p) && p@ == es[y - 1].path
                }
            }
            &&& !on_editor && !shell.strictly_contains(x, y) && !file.strictly_contains(x, y) ==> f == o
                && act is Nothing
        }),
{
}

/// A left click with a popup shown: inside it, it gives the popup the
/// keys; outside it, it closes the popup.
pub proof fn law_click_popup(
    o: App,
    f: App,
    m: MouseEvent,
    frame: Rect,
    editor: Rect,
    shell: Rect,
    file: Rect,
    kind: MenuScreenType,
    area: Rect,
    to_editor: Option<usize>,
    act: Action,
)
    requires
        m.kind == MouseEventKind::Down(MouseButton::Left),
        !horizontal_hitbox(o.split, frame).strictly_contains(m.column as int, m.row as int),
        !vertical_hitbox(o.split, frame).strictly_contains(m.column as int, m.row as int),
        mouse_result(o, f, m, frame, editor, shell, file, Some((kind, area)), to_editor, act),
    ensures
        area.strictly_contains(m.column as int, m.row as int) ==> act is Nothing && f == (App {
            focus: if kind == MenuScreenType::EDITOR { Focus::EDITOR(EditorFocus::MENU) } else { Focus::SEARCH },
            ..o
        }),
        !area.strictly_contains(m.column as int, m.row as int) ==> f.menu_screen is None,
{
}

/// Tab in the files goes to the highlighted directory or opens the
/// highlighted file; Tab in the search goes to the place the highlighted
/// result points at. Neither changes the state itself.
pub proof fn law_tab(o: App, f: App, key: KeyEvent, running: bool, act: Action)
    requires
        o.wf(),
        key.code == KeyCode::Tab,
        key_result(o, f, key, running, act),
    ensures
        o.focus == Focus::FILES ==> f == o && match o.file_system.selection() {
            Some(i) => {
                let e = o.file_system.entries()[i as int];
                if e.is_dir {
                    act matches Action::ChangeDir(p) && p@ == e.path
                } else {
                    act matches Action::Open(p) && p@ == e.path
                }
            },
            None => act is Nothing,
        },
        o.focus == Focus::SEARCH ==> f == o && match o.menu_screen {
            Some(MenuScreen::SEARCH(m)) => match m.selection() {
                Some(i) => act matches Action::SearchSelection { path, line } && (path@, line) == location_of(
                    m.items()[i as int].1@,
                ),
                None => act is Nothing,
            },
            _ => act is Nothing,
        },
{
}

/// Enter in the search starts a search for the query (unless one is
/// running), clearing the results; in the files it asks for the
/// highlighted entry to be toggled; on the shell line it queues the line.
pub proof fn law_enter(o: App, f: App, key: KeyEvent, running: bool, act: Action)
    requires
        o.wf(),
        key.code == KeyCode::Enter,
        key_result(o, f, key, running, act),
    ensures
        o.focus == Focus::SEARCH && running ==> f == o && act is Nothing,
        o.focus == Focus::SEARCH && !running ==> match o.menu_screen {
            Some(MenuScreen::SEARCH(m)) => {
                &&& act matches Action::StartSearch(q) && q@ == rendered(m.query())
                &&& f.menu_screen matches Some(MenuScreen::SEARCH(m2)) && m2.items().len() == 0
                    && m2.n_items() == 0 && m2.query() == m.query()
                &&& f == (App { menu_screen: f.menu_screen, ..o })
            },
            _ => f == o && act is Nothing,
        },
        o.focus == Focus::FILES ==> f == o && act is ToggleDir,
        o.focus == Focus::SHELL ==> act is Nothing && f == (App { input: f.input, ..o })
            && f.input@.queue == o.input@.queue.push(rendered(o.input@)),
{
}

/// The divider position a command's argument gives: the number, at most
/// 100, or 50 where it is not a number.
pub open spec fn typed_percent(a: Seq<char>) -> u16 {
    match parsed_u16(a) {
        Some(x) => if x > 100 { 100 } else { x },
        None => 50,
    }
}

/// The shell line's built-in commands: `set-vertical` and
/// `set-horizontal` move their own divider to the number given (at most
/// 100; 50 for what is not a number) and leave the other; `clear`
/// empties the output; `cd` asks to move to the directory given, taken
/// from the shell's directory; any other command runs through
/// `/bin/sh -c` with its words joined by spaces.
pub proof fn law_commands(o: App, f: App, command: Seq<char>, act: Action)
    requires
        execute_result(o, f, command, act),
    ensures
        words(command).len() == 0 ==> f == o && act is Nothing,
        words(command).len() > 1 && words(command)[0] == "set-vertical"@ ==> act is Nothing && f == (App {
            split: Split { vertical: typed_percent(words(command)[1]), ..o.split },
            ..o
        }),
        words(command).len() > 1 && words(command)[0] == "set-horizontal"@ ==> act is Nothing && f == (App {
            split: Split { horizontal: typed_percent(words(command)[1]), ..o.split },
            ..o
        }),
        words(command).len() > 0 && words(command)[0] == "clear"@ ==> act is Nothing && f.output@.len() == 0 && f
            == (App { output: f.output, ..o }),
        words(command).len() > 1 && words(command)[0] == "cd"@ ==> f == o && (act matches Action::ChangeDirIfDir(p)
            && p@ == joined_path(o.shell.cwd_view(), encode_utf8(words(command)[1]))),
        words(command).len() > 0 && words(command)[0] != "set-vertical"@ && words(command)[0] != "set-horizontal"@
            && words(command)[0] != "clear"@ && words(command)[0] != "cd"@ && words(command)[0] != "export"@ ==> f
            == o && (act matches Action::Run(v) && v@.map_values(|s: String| s@) == seq![
            "/bin/sh"@,
            "-c"@,
            joined(words(command), " "@),
        ]),
{
    reveal_strlit("set-vertical");
    reveal_strlit("set-horizontal");
    reveal_strlit("clear");
    reveal_strlit("cd");
    reveal_strlit("export");
    assert("set-vertical"@.len() == 12 && "set-horizontal"@.len() == 14 && "clear"@.len() == 5);
    assert("set-horizontal"@ != "set-vertical"@);
    assert("clear"@ != "set-vertical"@ && "clear"@ != "set-horizontal"@);
    assert("cd"@ != "set-vertical"@ && "cd"@ != "set-horizontal"@ && "cd"@ != "clear"@);
}

/// Each divider's band lies around it: the file list divider's, in the
/// columns within one of the divider's column, and the editor/shell
/// divider's, in the rows within two of the divider's row.
pub proof fn law_divider_bands(split: Split, frame: Rect, x: int, y: int)
    requires
        horizontal_hitbox_defined(split, frame),
        vertical_hitbox_defined(split, frame),
    ensures
        ({
            let c = (split.horizontal * frame.width) / 100;
            2 <= c <= u16::MAX - 2 && frame.y < y < frame.y + frame.height ==> (horizontal_hitbox(
                split,
                frame,
            ).strictly_contains(x, y) <==> c - 2 < x < c + 2)
        }),
        ({
            let r = (split.vertical * frame.height) / 100;
            let left = vertical_hitbox(split, frame).x;
            3 <= r <= u16::MAX - 3 && left < x < frame.width ==> (vertical_hitbox(split, frame).strictly_contains(
                x,
                y,
            ) <==> r - 3 < y < r + 3)
        }),
{
}

/// The widths of the two sides of a divider add up to 100 percent while
/// the divider is within the frame, and the second side is empty past it.
pub proof fn law_split_percentages(p: u16)
    ensures
        p <= 100 ==> p + complement_percent(p) == 100,
        p > 100 ==> complement_percent(p) == 0,
{
}

/// In the small shell, a character goes into the line at the cursor and
/// the cursor moves past it; Backspace takes out the character before the
/// cursor and moves the cursor back; Enter hands back the line's words and
/// empties it; Esc ends the shell. Nothing printed changes.
pub proof fn law_tidy_keys(
    o: crate::tidy::App,
    f: crate::tidy::App,
    code: KeyCode,
    r: Option<Vec<String>>,
)
    requires
        o.wf(),
        crate::tidy::key_result(o, f, code, r),
    ensures
        f.printed() == o.printed(),
        code matches KeyCode::Char(c) ==> {
            &&& f.line().len() == o.line().len() + 1
            &&& f.line()[o.cursor()] == c
            &&& f.line().take(o.cursor()) == o.line().take(o.cursor())
            &&& f.line().skip(o.cursor() + 1) == o.line().skip(o.cursor())
            &&& f.cursor() == o.cursor() + 1
            &&& f.exiting() == o.exiting()
        },
        code == KeyCode::Backspace && o.cursor() > 0 ==> {
            &&& f.line().len() == o.line().len() - 1
            &&& f.line().take(o.cursor() - 1) == o.line().take(o.cursor() - 1)
            &&& f.line().skip(o.cursor() - 1) == o.line().skip(o.cursor())
            &&& f.cursor() == o.cursor() - 1
        },
        code == KeyCode::Enter ==> (r matches Some(argv) && argv@.map_values(|w: String| w@) == words(o.line()))
            && f.line().len() == 0 && f.cursor() == 0,
        code == KeyCode::Esc ==> f.exiting() && f.line() == o.line(),
{
    let l = o.line();
    let k = o.cursor();
    if let KeyCode::Char(c) = code {
        let t = l.take(k).push(c) + l.skip(k);
        assert(t.take(k) =~= l.take(k));
        assert(t.skip(k + 1) =~= l.skip(k));
    }
    if code == KeyCode::Backspace && k > 0 {
        let t = l.take(k - 1) + l.skip(k);
        assert(t.take(k - 1) =~= l.take(k - 1));
        assert(t.skip(k - 1) =~= l.skip(k));
    }
}

/// A typed character (other than `?`) or Backspace goes to whoever has the
/// keys: the shell line takes it; the search query takes it unless a
/// search is running; the selected editor is handed it; the files ignore it.
pub proof fn law_typing(o: App, f: App, key: KeyEvent, running: bool, act: Action)
    requires
        (key.code matches KeyCode::Char(c) && c != '?') || key.code == KeyCode::Backspace,
        key_result(o, f, key, running, act),
    ensures
        o.focus == Focus::SHELL ==> act is Nothing && f == (App { input: f.input, ..o }) && f.input@ == input_step(
            o.input@,
            key.code,
        ),
        o.focus == Focus::SEARCH ==> act is Nothing && match o.menu_screen {
            Some(MenuScreen::SEARCH(m)) => {
                &&& f.menu_screen matches Some(MenuScreen::SEARCH(m2)) && {
                    &&& m2.items() == m.items()
                    &&& m2.selection() == m.selection()
                    &&& m2.query() == if running { m.query() } else { input_step(m.query(), key.code) }
                }
                &&& f == (App { menu_screen: f.menu_screen, ..o })
            },
            _ => f == o,
        },
        o.focus == Focus::FILES ==> f == o && act is Nothing,
        o.focus matches Focus::EDITOR(_) ==> f == o && match o.selected_editor {
            Some(i) => act == Action::EditorKey(i),
            None => act is Nothing,
        },
{
}

/// Exporting binds the name to the value: afterwards that binding is
/// there, every other binding stays, nothing else is bound, and no name is
/// bound twice.
pub proof fn law_export_binds(env: Seq<(Seq<char>, Seq<char>)>, name: Seq<char>, value: Seq<char>)
    requires
        unique_names(env),
    ensures
        env_set(env, name, value).contains((name, value)),
        forall|p: (Seq<char>, Seq<char>)| env.contains(p) && p.0 != name ==> env_set(env, name, value).contains(p),
        forall|p: (Seq<char>, Seq<char>)| env_set(env, name, value).contains(p) ==> p == (name, value) || env.contains(p),
        unique_names(env_set(env, name, value)),
{
    let e = env_set(env, name, value);
    law_export_overwrites(env, name, value, value);
    if exists|i: int| 0 <= i < env.len() && env[i].0 == name {
        let i = choose|i: int| 0 <= i < env.len() && env[i].0 == name;
        assert(e[i] == (name, value));
        assert forall|p: (Seq<char>, Seq<char>)| env.contains(p) && p.0 != name implies e.contains(p) by {
            let j = choose|j: int| 0 <= j < env.len() && env[j] == p;
            assert(e[j] == p);
        }
        assert forall|p: (Seq<char>, Seq<char>)| e.contains(p) implies p == (name, value) || env.contains(p) by {
            let j = choose|j: int| 0 <= j < e.len() && e[j] == p;
            if j != i {
                assert(env[j] == p);
            }
        }
    } else {
        assert(e[env.len() as int] == (name, value));
        assert forall|p: (Seq<char>, Seq<char>)| env.contains(p) && p.0 != name implies e.contains(p) by {
            let j = choose|j: int| 0 <= j < env.len() && env[j] == p;
            assert(e[j] == p);
        }
        assert forall|p: (Seq<char>, Seq<char>)| e.contains(p) implies p == (name, value) || env.contains(p) by {
            let j = choose|j: int| 0 <= j < e.len() && e[j] == p;
            if j < env.len() {
                assert(env[j] == p);
            }
        }
    }
}

} // verus!
