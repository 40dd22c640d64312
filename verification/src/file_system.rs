use vstd::prelude::*;

use crate::geometry::Direction;
use crate::popup_menu::{cycle, cycle_defined, cycle_index, ListState};

verus! {

/// A copy of a byte string.
pub fn copy_bytes(v: &Vec<u8>) -> (r: Vec<u8>)
    ensures
        r@ == v@,
{
    let r = v.clone();
    assert(r@ =~= v@);
    r
}

/// `n` spaces.
pub open spec fn spaces(n: nat) -> Seq<char> {
    Seq::new(n, |i: int| ' ')
}

/// A path to show in a file list; directories end in a slash.
#[derive(Clone, Debug, Default)]
pub struct FilePath {
    path: String,
    is_dir: bool,
}

impl View for FilePath {
    type V = (Seq<char>, bool);

    closed spec fn view(&self) -> (Seq<char>, bool) {
        (self.path@, self.is_dir)
    }
}

impl FilePath {
    pub fn new(path: String, is_dir: bool) -> (r: Self)
        ensures
            r@.0 == (if is_dir { path@.push('/') } else { path@ }),
            r@.1 == is_dir,
    {
        let mut path = path;
        if is_dir {
            path.append("/");
            proof {
                reveal_strlit("/");
            }
        }
        FilePath { path, is_dir }
    }

    pub fn is_dir(&self) -> (r: bool)
        ensures
            r == self@.1,
    {
        self.is_dir
    }

    pub fn path(&self) -> (r: &str)
        ensures
            r@ == self@.0,
    {
        self.path.as_str()
    }
}

/// A flat listing of a directory: the paths to show, the paths of the
/// objects they stand for, and the highlight.
#[derive(Clone, Debug, Default)]
pub struct FileSystem {
    current_dir_to_render: String,
    paths_to_render: Vec<FilePath>,
    paths_to_objects: Vec<Vec<u8>>,
    state: ListState,
}

impl FileSystem {
    pub closed spec fn rendered(&self) -> Seq<(Seq<char>, bool)> {
        self.paths_to_render@.map_values(|p: FilePath| p@)
    }

    pub closed spec fn objects(&self) -> Seq<Seq<u8>> {
        self.paths_to_objects@.map_values(|p: Vec<u8>| p@)
    }

    pub closed spec fn current_dir(&self) -> Seq<char> {
        self.current_dir_to_render@
    }

    pub closed spec fn state(&self) -> ListState {
        self.state
    }

    pub fn new() -> (r: Self)
        ensures
            r.rendered().len() == 0,
            r.objects().len() == 0,
            r.current_dir().len() == 0,
            r.state().selected is None,
    {
        FileSystem {
            current_dir_to_render: String::new(),
            paths_to_render: Vec::new(),
            paths_to_objects: Vec::new(),
            state: ListState { offset: 0, selected: None },
        }
    }

    /// Forgets the listed paths (the current directory and highlight stay).
    pub fn clear(&mut self)
        ensures
            final(self).rendered().len() == 0,
            final(self).objects().len() == 0,
            final(self).current_dir() == old(self).current_dir(),
            final(self).state() == old(self).state(),
    {
        self.paths_to_render.clear();
        self.paths_to_objects.clear();
    }

    /// The number of paths shown.
    pub fn len(&self) -> (r: usize)
        ensures
            r == self.rendered().len(),
    {
        self.paths_to_render.len()
    }

    pub fn get_state(&mut self) -> (r: &mut ListState)
        ensures
            *r == old(self).state(),
            final(self).rendered() == old(self).rendered(),
            final(self).objects() == old(self).objects(),
            final(self).current_dir() == old(self).current_dir(),
            final(self).state() == *final(r),
    {
        &mut self.state
    }

    pub fn push_path_to_object(&mut self, path: Vec<u8>)
        ensures
            final(self).objects() == old(self).objects().push(path@),
            final(self).rendered() == old(self).rendered(),
            final(self).current_dir() == old(self).current_dir(),
            final(self).state() == old(self).state(),
    {
        self.paths_to_objects.push(path);
        assert(self.objects() =~= old(self).objects().push(path@));
    }

    pub fn get_path_to_object(&self, index: usize) -> (r: Vec<u8>)
        requires
            index < self.objects().len(),
        ensures
            r@ == self.objects()[index as int],
    {
        copy_bytes(&self.paths_to_objects[index])
    }

    pub fn push_path_to_render(&mut self, path: &str, is_dir: bool)
        ensures
            final(self).rendered() == old(self).rendered().push(
                (if is_dir { path@.push('/') } else { path@ }, is_dir),
            ),
            final(self).objects() == old(self).objects(),
            final(self).current_dir() == old(self).current_dir(),
            final(self).state() == old(self).state(),
    {
        let p = FilePath::new(String::from_str(path), is_dir);
        self.paths_to_render.push(p);
        assert(self.rendered() =~= old(self).rendered().push(p@));
    }

    pub fn set_current_dir_to_render(&mut self, path: &str)
        ensures
            final(self).current_dir() == path@,
            final(self).rendered() == old(self).rendered(),
            final(self).objects() == old(self).objects(),
            final(self).state() == old(self).state(),
    {
        self.current_dir_to_render = String::from_str(path);
    }

    pub fn get_current_dir_to_render(&self) -> (r: &str)
        ensures
            r@ == self.current_dir(),
    {
        self.current_dir_to_render.as_str()
    }

    pub fn get_paths_to_render(&self) -> (r: &[FilePath])
        ensures
            r@.map_values(|p: FilePath| p@) == self.rendered(),
    {
        self.paths_to_render.as_slice()
    }
}


/// A directory entry as a walk of the disk reports it.
pub struct WalkEntry {
    pub path: Vec<u8>,
    /// The components of `path`, as text.
    pub components: Vec<String>,
    pub file_name: String,
    /// How far below the walked directory the entry lies.
    pub depth: usize,
    pub is_dir: bool,
}

pub open spec fn starts_with_dot(s: Seq<char>) -> bool {
    s.len() > 0 && s[0] == '.'
}

/// Some component of the path starts with a dot.
pub open spec fn hidden(components: Seq<Seq<char>>) -> bool {
    exists|i: int| 0 <= i < components.len() && #[trigger] starts_with_dot(components[i])
}

pub open spec fn hidden_entry(e: WalkEntry) -> bool {
    hidden(e.components@.map_values(|c: String| c@))
}

/// Whether a path has a component that starts with a dot.
pub fn is_dotfile(components: &Vec<String>) -> (r: bool)
    ensures
        r == hidden(components@.map_values(|c: String| c@)),
{
    let ghost cs = components@.map_values(|c: String| c@);
    let mut i: usize = 0;
    while i < components.len()
        invariant
            cs == components@.map_values(|c: String| c@),
            i <= components@.len(),
            forall|j: int| 0 <= j < i ==> !starts_with_dot(#[trigger] cs[j]),
        decreases components@.len() - i,
    {
        let c = components[i].as_str();
        if c.unicode_len() > 0 && c.get_char(0) == '.' {
            assert(starts_with_dot(cs[i as int]));
            return true;
        }
        i = i + 1;
    }
    false
}

/// An entry of the file tree.
#[derive(Clone, Debug, Default)]
pub struct FileEntry {
    path: Vec<u8>,
    basename: String,
    depth: usize,
    is_dir: bool,
    expanded: bool,
}

/// What a `FileEntry` holds.
pub struct FileEntryView {
    pub path: Seq<u8>,
    pub basename: Seq<char>,
    pub depth: int,
    pub is_dir: bool,
    pub expanded: bool,
}

impl View for FileEntry {
    type V = FileEntryView;

    closed spec fn view(&self) -> FileEntryView {
        FileEntryView {
            path: self.path@,
            basename: self.basename@,
            depth: self.depth as int,
            is_dir: self.is_dir,
            expanded: self.expanded,
        }
    }
}

/// The tree entry for a walked entry whose walk started at depth `root_depth`.
pub open spec fn walked_view(e: WalkEntry, root_depth: int) -> FileEntryView {
    FileEntryView {
        path: e.path@,
        basename: e.file_name@,
        depth: root_depth + e.depth,
        is_dir: e.is_dir,
        expanded: false,
    }
}

/// The entry that leads to the parent directory.
pub open spec fn parent_view() -> FileEntryView {
    FileEntryView {
        path: Seq::empty(),
        basename: seq!['.', '.'],
        depth: 1,
        is_dir: true,
        expanded: false,
    }
}

impl FileEntry {
    pub fn new(dir_entry: WalkEntry, root_depth: usize) -> (r: Self)
        requires
            root_depth + dir_entry.depth <= usize::MAX,
        ensures
            r@ == walked_view(dir_entry, root_depth as int),
    {
        FileEntry {
            path: dir_entry.path,
            basename: dir_entry.file_name,
            depth: root_depth + dir_entry.depth,
            is_dir: dir_entry.is_dir,
            expanded: false,
        }
    }

    pub fn is_dir(&self) -> (r: bool)
        ensures
            r == self@.is_dir,
    {
        self.is_dir
    }

    /// The line shown for the entry: its name indented by two spaces per
    /// level below the top.
    pub fn path(&self) -> (r: String)
        requires
            self@.depth >= 1,
            2 * (self@.depth - 1) <= usize::MAX,
        ensures
            r@ == spaces((2 * (self@.depth - 1)) as nat) + self@.basename,
    {
        let n = 2 * (self.depth - 1);
        let mut r = String::new();
        let mut i: usize = 0;
        while i < n
            invariant
                i <= n,
                r@ == spaces(i as nat),
            decreases n - i,
        {
            crate::text::string_push(&mut r, ' ');
            i = i + 1;
            assert(r@ =~= spaces(i as nat));
        }
        r.append(self.basename.as_str());
        r
    }

    pub fn file_path(&self) -> (r: &Vec<u8>)
        ensures
            r@ == self@.path,
    {
        &self.path
    }

    pub fn basename(&self) -> (r: &str)
        ensures
            r@ == self@.basename,
    {
        self.basename.as_str()
    }

    pub fn depth(&self) -> (r: usize)
        ensures
            r == self@.depth,
    {
        self.depth
    }

    pub fn expanded(&self) -> (r: bool)
        ensures
            r == self@.expanded,
    {
        self.expanded
    }
}

/// `s` with each visible walked entry of `cs` inserted in turn at `pos`
/// (so that they end up in reverse order).
pub open spec fn insert_walked(
    s: Seq<FileEntryView>,
    pos: int,
    root_depth: int,
    cs: Seq<WalkEntry>,
) -> Seq<FileEntryView>
    decreases cs.len(),
{
    if cs.len() == 0 {
        s
    } else {
        let prev = insert_walked(s, pos, root_depth, cs.drop_last());
        if hidden_entry(cs.last()) {
            prev
        } else {
            prev.insert(pos, walked_view(cs.last(), root_depth))
        }
    }
}

/// The walked entries can be given depths from `root_depth` on.
pub open spec fn depths_fit(cs: Seq<WalkEntry>, root_depth: int) -> bool {
    forall|i: int| 0 <= i < cs.len() ==> root_depth + #[trigger] cs[i].depth <= usize::MAX
}

/// Entries at most `depth` deep.
pub open spec fn at_most(depth: int) -> spec_fn(FileEntryView) -> bool {
    |e: FileEntryView| e.depth <= depth
}

/// What selecting an entry of the tree leads to.
pub enum FileType {
    Directory(Vec<u8>),
    File(Vec<u8>),
    Nothing,
}

/// What a toggle of the highlighted entry starts with.
#[derive(Clone, Copy, Debug, PartialEq, Eq, Structural)]
pub enum TogglePlan {
    /// Nothing is highlighted.
    Nothing,
    /// The parent entry is highlighted: move to the parent directory first,
    /// then toggle the (new) first entry.
    Parent,
    /// Toggle the entry at this index.
    Entry(usize),
}

/// What toggling one entry does.
pub enum EntryToggle {
    NotDir,
    Collapse,
    /// Read the directory at `path` and show its entries below it.
    Expand { path: Vec<u8>, depth: usize },
}

/// A directory as read for the tree: its path, its name, and its entries.
pub type DirRead = (Vec<u8>, String, Vec<WalkEntry>);

/// The entries a toggle of `t` works on: for the parent entry, those of
/// the parent directory as read (`parent`), else the entries as they are.
pub open spec fn toggle_base(t: FileTree, parent: Option<DirRead>) -> Seq<FileEntryView> {
    if t.selection() == Some(0usize) && parent is Some {
        insert_walked(seq![parent_view()], 1, 0, (parent->0).2@)
    } else {
        t.entries()
    }
}

/// The entries after toggling the entry at `i` of `s`: an expanded
/// directory is collapsed (the deeper entries after it go), a collapsed
/// one is expanded with `children` below it, and a file leaves them as
/// they are.
pub open spec fn toggled_entries(s: Seq<FileEntryView>, i: int, children: Seq<WalkEntry>) -> Seq<FileEntryView> {
    let e = s[i];
    if !e.is_dir {
        s
    } else if e.expanded {
        s.take(i).push(FileEntryView { expanded: false, ..e }) + s.skip(i + 1).filter(at_most(e.depth))
    } else {
        let x = insert_walked(s, i + 1, e.depth, children);
        x.update(i, FileEntryView { expanded: true, ..x[i] })
    }
}

/// The file that toggling the highlighted entry of `t` opens, if it is one.
pub open spec fn toggled_file(t: FileTree, parent: Option<DirRead>) -> Option<Seq<u8>> {
    match t.selection() {
        Some(i) => if toggle_base(t, parent)[i as int].is_dir {
            None
        } else {
            Some(toggle_base(t, parent)[i as int].path)
        },
        None => None,
    }
}

/// What a toggle may be given: the parent directory as read when the
/// parent entry is highlighted, and entries whose depths fit below a
/// directory that it expands.
pub open spec fn toggle_defined(t: FileTree, parent: Option<DirRead>, children: Seq<WalkEntry>) -> bool {
    &&& t.selection() == Some(0usize) ==> parent is Some && depths_fit((parent->0).2@, 0)
    &&& t.selection() matches Some(i) ==> {
        let e = toggle_base(t, parent)[i as int];
        e.is_dir && !e.expanded ==> depths_fit(children, e.depth)
    }
}

/// `f` is the tree `o` after its highlighted entry was toggled: for the
/// parent entry the tree first moves to the parent directory (`parent`);
/// then a directory entry is expanded or collapsed in place and the
/// highlight stays. Without a highlight nothing changes.
pub open spec fn toggled_tree(o: FileTree, f: FileTree, parent: Option<DirRead>, children: Seq<WalkEntry>) -> bool {
    match o.selection() {
        None => f == o,
        Some(i) => {
            &&& f.entries() == toggled_entries(toggle_base(o, parent), i as int, children)
            &&& f.selection() == Some(i)
            &&& f.state().offset == o.state().offset
            &&& f.current_path() == if i == 0 { (parent->0).0@ } else { o.current_path() }
            &&& f.current_name() == if i == 0 { (parent->0).1@ } else { o.current_name() }
        },
    }
}

/// The file tree: the directory shown, its entries with expanded
/// subdirectories shown below them, and the highlight.
pub struct FileTree {
    current_path: Vec<u8>,
    current_name: String,
    file_entries: Vec<FileEntry>,
    list_state: ListState,
}

impl FileTree {
    pub closed spec fn entries(&self) -> Seq<FileEntryView> {
        self.file_entries@.map_values(|e: FileEntry| e@)
    }

    pub closed spec fn state(&self) -> ListState {
        self.list_state
    }

    pub open spec fn selection(&self) -> Option<usize> {
        self.state().selected
    }

    pub closed spec fn current_path(&self) -> Seq<u8> {
        self.current_path@
    }

    pub closed spec fn current_name(&self) -> Seq<char> {
        self.current_name@
    }

    /// The highlight, if any, names an entry.
    pub open spec fn wf(&self) -> bool {
        self.selection() matches Some(i) ==> i < self.entries().len()
    }

    pub fn new() -> (r: Self)
        ensures
            r.wf(),
            r.entries().len() == 0,
            r.selection() is None,
            r.current_path().len() == 0,
            r.current_name().len() == 0,
    {
        FileTree {
            current_path: Vec::new(),
            current_name: String::new(),
            file_entries: Vec::new(),
            list_state: ListState { offset: 0, selected: None },
        }
    }

    /// Inserts the visible walked entries at `index + 1` (or at the top),
    /// one by one, at depths counted from `depth` (or from zero).
    fn insert_entries(&mut self, index: Option<usize>, depth: Option<usize>, children: Vec<WalkEntry>)
        requires
            match index {
                Some(i) => i < old(self).entries().len(),
                None => true,
            },
            depths_fit(children@, match depth { Some(d) => d as int, None => 0 }),
        ensures
            final(self).entries() == insert_walked(
                old(self).entries(),
                match index { Some(i) => i + 1, None => 0 },
                match depth { Some(d) => d as int, None => 0 },
                children@,
            ),
            final(self).state() == old(self).state(),
            final(self).current_path() == old(self).current_path(),
            final(self).current_name() == old(self).current_name(),
    {
        let ghost cs = children@;
        let ghost s0 = self.entries();
        let len = self.file_entries.len();
        assert(len == s0.len());
        let pos: usize = match index {
            Some(i) => i + 1,
            None => 0,
        };
        let root_depth: usize = match depth {
            Some(d) => d,
            None => 0,
        };
        let mut children = children;
        let ghost mut done: int = 0;
        while children.len() > 0
            invariant
                0 <= done <= cs.len(),
                children@ == cs.skip(done),
                pos <= s0.len(),
                s0.len() <= self.entries().len(),
                depths_fit(cs, root_depth as int),
                self.entries() == insert_walked(s0, pos as int, root_depth as int, cs.take(done)),
                self.state() == old(self).state(),
                self.current_path() == old(self).current_path(),
                self.current_name() == old(self).current_name(),
            decreases children@.len(),
        {
            let entry = children.remove(0);
            proof {
                assert(entry == cs[done]);
                assert(cs.take(done + 1).drop_last() =~= cs.take(done));
                assert(cs.take(done + 1).last() == cs[done]);
            }
            if is_dotfile(&entry.components) {
            } else {
                let e = FileEntry::new(entry, root_depth);
                let ghost before = self.entries();
                assert(self.file_entries@.len() == before.len());
                self.file_entries.insert(pos, e);
                proof {
                    assert(self.entries() =~= before.insert(pos as int, e@));
                }
            }
            proof {
                done = done + 1;
                assert(children@ =~= cs.skip(done));
            }
        }
        assert(cs.take(done) =~= cs);
    }

    /// Keeps the entries up to `index` and, after it, those no deeper than it.
    fn remove_entries(&mut self, index: usize)
        requires
            index < old(self).entries().len(),
        ensures
            final(self).entries() == old(self).entries().take(index + 1) + old(self).entries().skip(
                index + 1,
            ).filter(at_most(old(self).entries()[index as int].depth)),
            final(self).state() == old(self).state(),
            final(self).current_path() == old(self).current_path(),
            final(self).current_name() == old(self).current_name(),
    {
        let ghost s0 = self.entries();
        let depth = self.file_entries[index].depth;
        let ghost pred = at_most(depth as int);
        let mut p = self.file_entries.len();
        proof {
            reveal(Seq::filter);
            assert(s0.skip(p as int) =~= Seq::<FileEntryView>::empty());
            assert(s0.take(p as int) =~= s0);
            assert(self.entries() =~= s0.take(p as int) + s0.skip(p as int).filter(pred));
        }
        while p > index + 1
            invariant
                index + 1 <= p <= s0.len(),
                index < s0.len(),
                depth == s0[index as int].depth,
                pred == at_most(depth as int),
                self.entries() == s0.take(p as int) + s0.skip(p as int).filter(pred),
                self.state() == old(self).state(),
                self.current_path() == old(self).current_path(),
                self.current_name() == old(self).current_name(),
            decreases p,
        {
            assert(self.file_entries@.len() == self.entries().len());
            assert(self.entries().len() >= p);
            p = p - 1;
            proof {
                assert(s0.skip(p as int) =~= seq![s0[p as int]] + s0.skip(p + 1));
                s0.skip(p + 1).lemma_filter_prepend(s0[p as int], pred);
                assert(self.entries()[p as int] == s0[p as int]);
            }
            if self.file_entries[p].depth > depth {
                let ghost before = self.entries();
                assert(!pred(s0[p as int]));
                self.file_entries.remove(p);
                proof {
                    assert(self.entries() =~= before.remove(p as int));
                    assert(s0.take(p + 1) =~= s0.take(p as int).push(s0[p as int]));
                    assert(self.entries() =~= s0.take(p as int) + s0.skip(p as int).filter(pred));
                }
            } else {
                proof {
                    assert(pred(s0[p as int]));
                    assert(s0.take(p + 1) =~= s0.take(p as int).push(s0[p as int]));
                    assert(self.entries() =~= s0.take(p as int) + s0.skip(p as int).filter(pred));
                }
            }
        }
    }

    /// Moves the highlight through the entries, wrapping at both ends, and
    /// names the file to preview when it lands on one.
    pub fn traverse_dirs(&mut self, direction: Direction) -> (r: Option<Vec<u8>>)
        requires
            old(self).wf(),
            old(self).entries().len() > 0,
        ensures
            final(self).wf(),
            final(self).entries() == old(self).entries(),
            final(self).current_path() == old(self).current_path(),
            final(self).current_name() == old(self).current_name(),
            final(self).state().offset == old(self).state().offset,
            ({
                let k = cycle_index(old(self).selection(), old(self).entries().len() as int, direction);
                &&& final(self).selection() == Some(k as usize)
                &&& r == (if old(self).entries()[k].is_dir {
                    None::<Vec<u8>>
                } else {
                    Some(r->0)
                })
                &&& r matches Some(p) ==> p@ == old(self).entries()[k].path
            }),
    {
        let k = cycle(self.list_state.selected(), self.file_entries.len(), direction);
        self.list_state.select(Some(k));
        if self.file_entries[k].is_dir {
            None
        } else {
            Some(copy_bytes(&self.file_entries[k].path))
        }
    }

    /// Shows the directory at `path`, named `name`: a parent entry, then
    /// the visible entries read from it; highlights the parent entry.
    pub fn change_dir(&mut self, path: Vec<u8>, name: String, children: Vec<WalkEntry>)
        requires
            depths_fit(children@, 0),
        ensures
            final(self).wf(),
            final(self).entries() == insert_walked(seq![parent_view()], 1, 0, children@),
            final(self).selection() == Some(0usize),
            final(self).state().offset == old(self).state().offset,
            final(self).current_path() == path@,
            final(self).current_name() == name@,
    {
        self.file_entries.clear();
        let parent = FileEntry {
            path: Vec::new(),
            basename: String::from_str(".."),
            depth: 1,
            is_dir: true,
            expanded: false,
        };
        proof {
            reveal_strlit("..");
        }
        assert(parent@.basename == seq!['.', '.']);
        assert(parent@.path =~= Seq::<u8>::empty());
        assert(parent@ == parent_view());
        self.file_entries.push(parent);
        assert(self.entries() =~= seq![parent_view()]);
        self.list_state.select(Some(0));
        self.insert_entries(Some(0), None, children);
        self.current_path = path;
        self.current_name = name;
        proof {
            lemma_insert_walked_len(seq![parent_view()], 1, 0, children@);
        }
    }

    /// Toggles the highlighted entry, `children` being what the directory
    /// to expand holds (and `parent` the parent directory as read, when the
    /// parent entry is highlighted): names the file when the entry is one.
    pub fn toggle(&mut self, parent: Option<DirRead>, children: Vec<WalkEntry>) -> (r: Option<Vec<u8>>)
        requires
            old(self).wf(),
            toggle_defined(*old(self), parent, children@),
        ensures
            final(self).wf(),
            toggled_tree(*old(self), *final(self), parent, children@),
            r is None <==> toggled_file(*old(self), parent) is None,
            r matches Some(p) ==> toggled_file(*old(self), parent) == Some(p@),
    {
        let i = match self.list_state.selected() {
            None => {
                return None;
            },
            Some(i) => i,
        };
        let ghost base = toggle_base(*old(self), parent);
        if i == 0 {
            let (path, name, cs) = parent.unwrap();
            let ghost v = cs@;
            self.change_dir(path, name, cs);
            proof {
                lemma_insert_walked_len(seq![parent_view()], 1, 0, v);
            }
        }
        assert(self.entries() == base);
        assert(i < self.entries().len());
        match self.entry_toggle(i) {
            EntryToggle::NotDir => Some(copy_bytes(&self.file_entries[i].path)),
            EntryToggle::Collapse => {
                self.collapse(i);
                None
            },
            EntryToggle::Expand { .. } => {
                self.expand(i, children);
                None
            },
        }
    }

    /// What a toggle starts with: nothing, a move to the parent, or the
    /// highlighted entry.
    pub fn toggle_plan(&self) -> (r: TogglePlan)
        ensures
            r == (match self.selection() {
                None => TogglePlan::Nothing,
                Some(i) => if i == 0 { TogglePlan::Parent } else { TogglePlan::Entry(i) },
            }),
    {
        match self.list_state.selected() {
            None => TogglePlan::Nothing,
            Some(index) => if index == 0 {
                TogglePlan::Parent
            } else {
                TogglePlan::Entry(index)
            },
        }
    }

    /// What toggling the entry at `index` does: nothing for a file, hide
    /// the entries below an expanded directory, or read a collapsed one.
    pub fn entry_toggle(&self, index: usize) -> (r: EntryToggle)
        requires
            index < self.entries().len(),
        ensures
            !self.entries()[index as int].is_dir ==> r is NotDir,
            self.entries()[index as int].is_dir && self.entries()[index as int].expanded ==> r is Collapse,
            self.entries()[index as int].is_dir && !self.entries()[index as int].expanded ==> (r matches EntryToggle::Expand { path, depth }
                && path@ == self.entries()[index as int].path && depth == self.entries()[index as int].depth),
    {
        let e = &self.file_entries[index];
        if !e.is_dir {
            EntryToggle::NotDir
        } else if e.expanded {
            EntryToggle::Collapse
        } else {
            EntryToggle::Expand { path: copy_bytes(&e.path), depth: e.depth }
        }
    }

    /// Collapses the directory at `index`: marks it collapsed and hides the
    /// entries after it that lie deeper than it.
    pub fn collapse(&mut self, index: usize)
        requires
            old(self).wf(),
            index < old(self).entries().len(),
            old(self).selection() matches Some(i) ==> i <= index,
        ensures
            final(self).wf(),
            ({
                let s = old(self).entries();
                let e = FileEntryView { expanded: false, ..s[index as int] };
                final(self).entries() == s.take(index as int).push(e) + s.skip(index + 1).filter(
                    at_most(s[index as int].depth),
                )
            }),
            final(self).state() == old(self).state(),
            final(self).current_path() == old(self).current_path(),
            final(self).current_name() == old(self).current_name(),
    {
        let ghost s = self.entries();
        let mut e = self.file_entries.remove(index);
        e.expanded = false;
        self.file_entries.insert(index, e);
        let ghost s1 = self.entries();
        assert(s1 =~= s.update(index as int, e@));
        self.remove_entries(index);
        proof {
            assert(s1.take(index + 1) =~= s.take(index as int).push(e@));
            assert(s1.skip(index + 1) =~= s.skip(index + 1));
            let rest = s.skip(index + 1).filter(at_most(s[index as int].depth));
            s.skip(index + 1).lemma_filter_len(at_most(s[index as int].depth));
        }
    }

    /// Expands the directory at `index` with the entries read from it: they
    /// go in below it, one level deeper, and it is marked expanded.
    pub fn expand(&mut self, index: usize, children: Vec<WalkEntry>)
        requires
            old(self).wf(),
            index < old(self).entries().len(),
            depths_fit(children@, old(self).entries()[index as int].depth),
        ensures
            final(self).wf(),
            ({
                let s = insert_walked(old(self).entries(), index + 1, old(self).entries()[index as int].depth, children@);
                final(self).entries() == s.update(index as int, FileEntryView { expanded: true, ..s[index as int] })
            }),
            final(self).state() == old(self).state(),
            final(self).current_path() == old(self).current_path(),
            final(self).current_name() == old(self).current_name(),
    {
        let depth = self.file_entries[index].depth;
        let ghost cs = children@;
        self.insert_entries(Some(index), Some(depth), children);
        let ghost s = self.entries();
        proof {
            lemma_insert_walked_len(old(self).entries(), index + 1, depth as int, cs);
        }
        let mut e = self.file_entries.remove(index);
        e.expanded = true;
        self.file_entries.insert(index, e);
        assert(self.entries() =~= s.update(index as int, FileEntryView { expanded: true, ..s[index as int] }));
    }

    /// What the highlighted entry is: a directory or a file with its path,
    /// or nothing.
    pub fn get_selected(&self) -> (r: FileType)
        requires
            self.wf(),
        ensures
            match self.selection() {
                Some(i) => if self.entries()[i as int].is_dir {
                    r matches FileType::Directory(p) && p@ == self.entries()[i as int].path
                } else {
                    r matches FileType::File(p) && p@ == self.entries()[i as int].path
                },
                None => r is Nothing,
            },
    {
        match self.list_state.selected() {
            Some(i) => {
                let e = &self.file_entries[i];
                if e.is_dir {
                    FileType::Directory(copy_bytes(&e.path))
                } else {
                    FileType::File(copy_bytes(&e.path))
                }
            },
            None => FileType::Nothing,
        }
    }

    /// Highlights the entry at `k`, if there is one, and names it if it
    /// is a file.
    pub fn select_entry(&mut self, k: usize) -> (r: Option<Vec<u8>>)
        requires
            old(self).wf(),
        ensures
            final(self).wf(),
            final(self).entries() == old(self).entries(),
            final(self).current_path() == old(self).current_path(),
            final(self).current_name() == old(self).current_name(),
            k < old(self).entries().len() ==> final(self).selection() == Some(k),
            k < old(self).entries().len() ==> final(self).state().offset == old(self).state().offset,
            k >= old(self).entries().len() ==> final(self).state() == old(self).state(),
            r matches Some(p) ==> k < old(self).entries().len() && !old(self).entries()[k as int].is_dir
                && p@ == old(self).entries()[k as int].path,
            r is None ==> k >= old(self).entries().len() || old(self).entries()[k as int].is_dir,
    {
        if k >= self.file_entries.len() {
            return None;
        }
        self.list_state.select(Some(k));
        if self.file_entries[k].is_dir {
            None
        } else {
            Some(copy_bytes(&self.file_entries[k].path))
        }
    }

    /// The path of the entry at `k`, if there is one and it is a directory.
    pub fn get_dir_at_index(&self, k: usize) -> (r: Option<Vec<u8>>)
        ensures
            r matches Some(p) ==> k < self.entries().len() && self.entries()[k as int].is_dir
                && p@ == self.entries()[k as int].path,
            r is None ==> k >= self.entries().len() || !self.entries()[k as int].is_dir,
    {
        if k < self.file_entries.len() && self.file_entries[k].is_dir {
            Some(copy_bytes(&self.file_entries[k].path))
        } else {
            None
        }
    }

    pub fn iter(&self) -> (r: &[FileEntry])
        ensures
            r@.map_values(|e: FileEntry| e@) == self.entries(),
    {
        self.file_entries.as_slice()
    }

    pub fn get_state(&mut self) -> (r: &mut ListState)
        ensures
            *r == old(self).state(),
            final(self).entries() == old(self).entries(),
            final(self).current_path() == old(self).current_path(),
            final(self).current_name() == old(self).current_name(),
            final(self).state() == *final(r),
    {
        &mut self.list_state
    }

    /// The name of the directory shown.
    pub fn get_current_dir_to_render(&self) -> (r: String)
        ensures
            r@ == self.current_name(),
    {
        self.current_name.clone()
    }

    /// The path of the directory shown.
    pub fn current_dir(&self) -> (r: Vec<u8>)
        ensures
            r@ == self.current_path(),
    {
        copy_bytes(&self.current_path)
    }
}

/// Inserting entries never shortens the list, and leaves the entries
/// before the insertion point where they were.
pub proof fn lemma_insert_walked_len(s: Seq<FileEntryView>, pos: int, root_depth: int, cs: Seq<WalkEntry>)
    requires
        0 <= pos <= s.len(),
    ensures
        insert_walked(s, pos, root_depth, cs).len() >= s.len(),
        forall|i: int| 0 <= i < pos ==> insert_walked(s, pos, root_depth, cs)[i] == s[i],
    decreases cs.len(),
{
    if cs.len() > 0 {
        lemma_insert_walked_len(s, pos, root_depth, cs.drop_last());
    }
}


/// `e` is the entry of one of the walked paths `cs` none of whose
/// components starts with a dot.
pub open spec fn visible_walked(cs: Seq<WalkEntry>, root_depth: int, e: FileEntryView) -> bool {
    exists|c: int| 0 <= c < cs.len() && !hidden_entry(#[trigger] cs[c]) && walked_view(cs[c], root_depth) == e
}

/// Reading a directory only ever adds visible entries: every entry after
/// the insertion is one that was there before or the entry of a walked
/// path none of whose components starts with a dot.
pub proof fn law_dotfiles_never_listed(s: Seq<FileEntryView>, pos: int, root_depth: int, cs: Seq<WalkEntry>)
    requires
        0 <= pos <= s.len(),
    ensures
        forall|j: int|
            0 <= j < insert_walked(s, pos, root_depth, cs).len() ==> s.contains(
                #[trigger] insert_walked(s, pos, root_depth, cs)[j],
            ) || visible_walked(cs, root_depth, insert_walked(s, pos, root_depth, cs)[j]),
    decreases cs.len(),
{
    let all = insert_walked(s, pos, root_depth, cs);
    if cs.len() == 0 {
        assert forall|j: int| 0 <= j < all.len() implies s.contains(#[trigger] all[j]) by {
            assert(s[j] == all[j]);
        }
    } else {
        let prev = insert_walked(s, pos, root_depth, cs.drop_last());
        law_dotfiles_never_listed(s, pos, root_depth, cs.drop_last());
        lemma_insert_walked_len(s, pos, root_depth, cs.drop_last());
        assert forall|j: int| 0 <= j < all.len() implies s.contains(#[trigger] all[j]) || visible_walked(
            cs,
            root_depth,
            all[j],
        ) by {
            let hide = hidden_entry(cs.last());
            if !hide && j == pos {
                assert(all[j] == walked_view(cs[cs.len() - 1], root_depth));
            } else {
                let k = if hide || j < pos { j } else { j - 1 };
                assert(all[j] == prev[k]);
                if visible_walked(cs.drop_last(), root_depth, prev[k]) {
                    let c = choose|c: int|
                        0 <= c < cs.drop_last().len() && !hidden_entry(#[trigger] cs.drop_last()[c])
                            && walked_view(cs.drop_last()[c], root_depth) == prev[k];
                    assert(cs.drop_last()[c] == cs[c]);
                } else {
                    assert(s.contains(prev[k]));
                }
            }
        }
    }
}

/// Reading a directory into the tree lists its visible entries in the
/// reverse of the walk's order (the last walked first), right after the
/// entry that they are read below.
pub proof fn law_listing_reverses_walk(s: Seq<FileEntryView>, pos: int, root_depth: int, cs: Seq<WalkEntry>)
    requires
        0 <= pos <= s.len(),
    ensures
        insert_walked(s, pos, root_depth, cs) == s.take(pos) + cs.filter(|c: WalkEntry| !hidden_entry(c)).map_values(
            |c: WalkEntry| walked_view(c, root_depth),
        ).reverse() + s.skip(pos),
{
    lemma_insert_walked_shape(s, pos, root_depth, cs);
    lemma_inserted_views_reverse(root_depth, cs);
}

proof fn lemma_inserted_views_reverse(root_depth: int, cs: Seq<WalkEntry>)
    ensures
        inserted_views(root_depth, cs) == cs.filter(|c: WalkEntry| !hidden_entry(c)).map_values(
            |c: WalkEntry| walked_view(c, root_depth),
        ).reverse(),
    decreases cs.len(),
{
    reveal(Seq::filter);
    let vis = |c: WalkEntry| !hidden_entry(c);
    let view = |c: WalkEntry| walked_view(c, root_depth);
    if cs.len() == 0 {
        assert(cs.filter(vis).map_values(view).reverse() =~= Seq::<FileEntryView>::empty());
    } else {
        lemma_inserted_views_reverse(root_depth, cs.drop_last());
        let prevf = cs.drop_last().filter(vis);
        if !hidden_entry(cs.last()) {
            assert(cs.filter(vis) == prevf.push(cs.last()));
            assert(prevf.push(cs.last()).map_values(view) =~= prevf.map_values(view).push(view(cs.last())));
            assert(prevf.map_values(view).push(view(cs.last())).reverse() =~= seq![view(cs.last())]
                + prevf.map_values(view).reverse());
        } else {
            assert(cs.filter(vis) == prevf);
        }
    }
}

/// The entries that inserting the walked entries `cs` adds, in the order
/// they end up in.
pub open spec fn inserted_views(root_depth: int, cs: Seq<WalkEntry>) -> Seq<FileEntryView>
    decreases cs.len(),
{
    if cs.len() == 0 {
        Seq::empty()
    } else {
        let prev = inserted_views(root_depth, cs.drop_last());
        if hidden_entry(cs.last()) {
            prev
        } else {
            seq![walked_view(cs.last(), root_depth)] + prev
        }
    }
}

proof fn lemma_insert_walked_shape(s: Seq<FileEntryView>, pos: int, root_depth: int, cs: Seq<WalkEntry>)
    requires
        0 <= pos <= s.len(),
    ensures
        insert_walked(s, pos, root_depth, cs) == s.take(pos) + inserted_views(root_depth, cs) + s.skip(pos),
    decreases cs.len(),
{
    if cs.len() == 0 {
        assert(s.take(pos) + Seq::<FileEntryView>::empty() + s.skip(pos) =~= s);
    } else {
        lemma_insert_walked_shape(s, pos, root_depth, cs.drop_last());
        let prev = inserted_views(root_depth, cs.drop_last());
        if !hidden_entry(cs.last()) {
            let w = walked_view(cs.last(), root_depth);
            assert((s.take(pos) + prev + s.skip(pos)).insert(pos, w) =~= s.take(pos) + (seq![w] + prev)
                + s.skip(pos));
        }
    }
}

proof fn lemma_inserted_deeper(root_depth: int, cs: Seq<WalkEntry>)
    requires
        forall|c: int| 0 <= c < cs.len() ==> #[trigger] cs[c].depth >= 1,
    ensures
        forall|j: int| 0 <= j < inserted_views(root_depth, cs).len() ==> #[trigger] inserted_views(root_depth, cs)[j].depth > root_depth,
    decreases cs.len(),
{
    if cs.len() > 0 {
        assert forall|c: int| 0 <= c < cs.drop_last().len() implies #[trigger] cs.drop_last()[c].depth >= 1 by {
            assert(cs.drop_last()[c] == cs[c]);
        }
        lemma_inserted_deeper(root_depth, cs.drop_last());
        let prev = inserted_views(root_depth, cs.drop_last());
        if !hidden_entry(cs.last()) {
            let all = seq![walked_view(cs.last(), root_depth)] + prev;
            assert forall|j: int| 0 <= j < all.len() implies #[trigger] all[j].depth > root_depth by {
                if j > 0 {
                    assert(all[j] == prev[j - 1]);
                }
            }
        }
    }
}

proof fn lemma_filter_all_kept(s: Seq<FileEntryView>, pred: spec_fn(FileEntryView) -> bool)
    requires
        forall|j: int| 0 <= j < s.len() ==> pred(#[trigger] s[j]),
    ensures
        s.filter(pred) == s,
    decreases s.len(),
{
    reveal(Seq::filter);
    if s.len() > 0 {
        assert forall|j: int| 0 <= j < s.drop_last().len() implies pred(#[trigger] s.drop_last()[j]) by {
            assert(s.drop_last()[j] == s[j]);
        }
        lemma_filter_all_kept(s.drop_last(), pred);
        assert(s.drop_last().push(s.last()) =~= s);
    }
}

/// Expanding a collapsed directory and then collapsing it gives back the
/// entries as they were, provided no entry after it lies deeper than it
/// (collapsing hides every deeper entry after it, also those shown below
/// other directories) and the walk reports entries below the directory.
pub proof fn law_expand_then_collapse(s: Seq<FileEntryView>, i: int, cs: Seq<WalkEntry>)
    requires
        0 <= i < s.len(),
        !s[i].expanded,
        forall|c: int| 0 <= c < cs.len() ==> #[trigger] cs[c].depth >= 1,
        forall|j: int| i < j < s.len() ==> #[trigger] s[j].depth <= s[i].depth,
    ensures
        ({
            let e = insert_walked(s, i + 1, s[i].depth, cs);
            let x = e.update(i, FileEntryView { expanded: true, ..e[i] });
            x.take(i).push(FileEntryView { expanded: false, ..x[i] }) + x.skip(i + 1).filter(at_most(x[i].depth))
                == s
        }),
{
    let d = s[i].depth;
    let e = insert_walked(s, i + 1, d, cs);
    let m = inserted_views(d, cs);
    lemma_insert_walked_shape(s, i + 1, d, cs);
    lemma_inserted_deeper(d, cs);
    let x = e.update(i, FileEntryView { expanded: true, ..e[i] });
    assert(e[i] == s[i]);
    assert(x[i].depth == d);
    assert(x.skip(i + 1) =~= m + s.skip(i + 1));
    let pred = at_most(d);
    Seq::<FileEntryView>::filter_distributes_over_add(m, s.skip(i + 1), pred);
    m.lemma_all_neg_filter_empty(pred);
    assert forall|j: int| 0 <= j < s.skip(i + 1).len() implies pred(#[trigger] s.skip(i + 1)[j]) by {
        assert(s.skip(i + 1)[j] == s[i + 1 + j]);
    }
    lemma_filter_all_kept(s.skip(i + 1), pred);
    assert(m.filter(pred) =~= Seq::<FileEntryView>::empty());
    assert(FileEntryView { expanded: false, ..x[i] } == s[i]);
    assert(x.take(i) =~= s.take(i));
    assert(s.take(i).push(s[i]) + s.skip(i + 1) =~= s);
}


/// Byte strings compared the way `OsStr` compares them on Unix:
/// lexicographically, a proper prefix first.
pub open spec fn bytes_before(a: Seq<u8>, b: Seq<u8>) -> bool
    decreases a.len(),
{
    if a.len() == 0 {
        b.len() > 0
    } else if b.len() == 0 {
        false
    } else if a[0] != b[0] {
        a[0] < b[0]
    } else {
        bytes_before(a.drop_first(), b.drop_first())
    }
}

/// Where a walked entry goes relative to another: files before
/// directories, and by name within each.
pub open spec fn entry_before(a_is_dir: bool, a_name: Seq<u8>, b_is_dir: bool, b_name: Seq<u8>) -> bool {
    if a_is_dir != b_is_dir { !a_is_dir } else { bytes_before(a_name, b_name) }
}

/// Compares two walked entries: -1 when the first goes first, 1 when the
/// second does, 0 when they are alike.
pub fn compare_entries(a_is_dir: bool, a_name: &[u8], b_is_dir: bool, b_name: &[u8]) -> (r: i8)
    ensures
        r == -1 <==> entry_before(a_is_dir, a_name@, b_is_dir, b_name@),
        r == 1 <==> entry_before(b_is_dir, b_name@, a_is_dir, a_name@),
        r == 0 <==> (a_is_dir == b_is_dir && a_name@ == b_name@),
        -1 <= r <= 1,
{
    if a_is_dir && !b_is_dir {
        return 1;
    }
    if !a_is_dir && b_is_dir {
        return -1;
    }
    let mut i: usize = 0;
    assert(a_name@.skip(0) =~= a_name@);
    assert(b_name@.skip(0) =~= b_name@);
    assert(a_name@.take(0) =~= b_name@.take(0));
    while i < a_name.len() && i < b_name.len()
        invariant
            a_is_dir == b_is_dir,
            i <= a_name@.len(),
            i <= b_name@.len(),
            a_name@.take(i as int) == b_name@.take(i as int),
            bytes_before(a_name@, b_name@) == bytes_before(a_name@.skip(i as int), b_name@.skip(i as int)),
            bytes_before(b_name@, a_name@) == bytes_before(b_name@.skip(i as int), a_name@.skip(i as int)),
        decreases a_name@.len() - i,
    {
        let x = a_name[i];
        let y = b_name[i];
        proof {
            assert(a_name@.skip(i as int)[0] == x);
            assert(b_name@.skip(i as int)[0] == y);
            assert(a_name@.skip(i as int).drop_first() =~= a_name@.skip(i + 1));
            assert(b_name@.skip(i as int).drop_first() =~= b_name@.skip(i + 1));
        }
        if x < y {
            proof {
                assert(bytes_before(a_name@.skip(i as int), b_name@.skip(i as int)));
                assert(!bytes_before(b_name@.skip(i as int), a_name@.skip(i as int)));
            }
            return -1;
        }
        if x > y {
            proof {
                assert(!bytes_before(a_name@.skip(i as int), b_name@.skip(i as int)));
                assert(bytes_before(b_name@.skip(i as int), a_name@.skip(i as int)));
            }
            return 1;
        }
        i = i + 1;
        assert(a_name@.take(i as int) =~= a_name@.take(i - 1).push(x));
        assert(b_name@.take(i as int) =~= b_name@.take(i - 1).push(y));
    }
    proof {
        assert(a_name@.skip(i as int).len() == 0 || b_name@.skip(i as int).len() == 0);
    }
    if a_name.len() < b_name.len() {
        -1
    } else if a_name.len() > b_name.len() {
        1
    } else {
        assert(a_name@ =~= a_name@.take(i as int));
        assert(b_name@ =~= b_name@.take(i as int));
        0
    }
}

/// The order in which a directory's entries are walked: files before
/// directories, each by name.
pub fn entry_order(a_is_dir: bool, a_name: &[u8], b_is_dir: bool, b_name: &[u8]) -> (r: std::cmp::Ordering)
    ensures
        r == std::cmp::Ordering::Less <==> entry_before(a_is_dir, a_name@, b_is_dir, b_name@),
        r == std::cmp::Ordering::Greater <==> entry_before(b_is_dir, b_name@, a_is_dir, a_name@),
        r == std::cmp::Ordering::Equal <==> (a_is_dir == b_is_dir && a_name@ == b_name@),
{
    let c = compare_entries(a_is_dir, a_name, b_is_dir, b_name);
    if c < 0 {
        std::cmp::Ordering::Less
    } else if c > 0 {
        std::cmp::Ordering::Greater
    } else {
        std::cmp::Ordering::Equal
    }
}

} // verus!
