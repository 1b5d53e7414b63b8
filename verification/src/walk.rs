//! The search of a directory tree for a file by name, as a machine that asks for one
//! directory listing at a time.
use vstd::prelude::*;
use crate::commands::texts;
use crate::launcher::name_matches;
use crate::text::{eq_ignore_ascii_case, opt_view};

verus! {

/// What a directory listing tells of one entry.
#[derive(Debug)]
pub struct EntryFacts {
    pub path: String,
    /// The entry's file name, when it is valid text.
    pub file_name: Option<String>,
    pub is_file: bool,
    pub is_dir: bool,
}

pub struct EntryView {
    pub path: Seq<char>,
    pub file_name: Option<Seq<char>>,
    pub is_file: bool,
    pub is_dir: bool,
}

impl View for EntryFacts {
    type V = EntryView;

    open spec fn view(&self) -> EntryView {
        EntryView {
            path: self.path@,
            file_name: opt_view(self.file_name),
            is_file: self.is_file,
            is_dir: self.is_dir,
        }
    }
}

pub open spec fn entries_view(v: Seq<EntryFacts>) -> Seq<EntryView> {
    v.map_values(|e: EntryFacts| e@)
}

/// A listing as the walk sees it; an unreadable directory has none.
pub open spec fn listing_view(listing: Option<Vec<EntryFacts>>) -> Option<Seq<EntryView>> {
    match listing {
        Some(v) => Some(entries_view(v@)),
        None => None,
    }
}

/// What the walk asks for next.
#[derive(Debug)]
pub enum WalkRequest {
    /// List this directory and hand the entries (or nothing, when it cannot be
    /// read) to `TreeWalk::step`.
    ReadDir(String),
    /// The walk is over: the path of the file found, if any.
    Done(Option<String>),
}

pub enum WalkRequestView {
    ReadDir(Seq<char>),
    Done(Option<Seq<char>>),
}

impl View for WalkRequest {
    type V = WalkRequestView;

    open spec fn view(&self) -> WalkRequestView {
        match self {
            WalkRequest::ReadDir(p) => WalkRequestView::ReadDir(p@),
            WalkRequest::Done(f) => WalkRequestView::Done(opt_view(*f)),
        }
    }
}

/// Whether an entry's file name equals one of `names`, ignoring ASCII case.
pub open spec fn entry_matches(names: Seq<Seq<char>>, e: EntryView) -> bool {
    e.file_name matches Some(f) && exists|i: int|
        0 <= i < names.len() && eq_ignore_ascii_case(#[trigger] names[i], f)
}

/// The entries of a listed directory still to be looked at, and how many levels
/// the search may still descend from that directory (itself included).
pub struct FrameView {
    pub rest: Seq<EntryView>,
    pub depth: nat,
}

/// The walk: the names it looks for, the directories it is inside (innermost
/// last), and, while it waits for a listing, the depth of the directory asked for.
pub struct WalkView {
    pub names: Seq<Seq<char>>,
    pub stack: Seq<FrameView>,
    pub pending: Option<nat>,
}

pub open spec fn stack_measure(stack: Seq<FrameView>) -> nat
    decreases stack.len(),
{
    if stack.len() == 0 {
        0
    } else {
        stack_measure(stack.drop_last()) + stack.last().rest.len() + 1
    }
}

/// Goes through the entries in order, depth first, until a file whose name matches
/// (the walk is over), a directory that may be entered (its listing is asked for),
/// or the end of the outermost listing (nothing was found). A directory is entered
/// only when its parent may descend more than one level.
pub open spec fn advance(names: Seq<Seq<char>>, stack: Seq<FrameView>) -> (Seq<FrameView>, Option<
    nat,
>, WalkRequestView)
    decreases stack_measure(stack),
{
    if stack.len() == 0 {
        (stack, None, WalkRequestView::Done(None))
    } else {
        let top = stack.last();
        if top.rest.len() == 0 {
            advance(names, stack.drop_last())
        } else {
            let e = top.rest[0];
            let stack2 = stack.drop_last().push(FrameView { rest: top.rest.drop_first(), depth: top.depth });
            proof {
                assert(stack2.drop_last() =~= stack.drop_last());
            }
            if e.is_file {
                if entry_matches(names, e) {
                    (stack2, None, WalkRequestView::Done(Some(e.path)))
                } else {
                    advance(names, stack2)
                }
            } else if e.is_dir && top.depth > 1 {
                (stack2, Some((top.depth - 1) as nat), WalkRequestView::ReadDir(e.path))
            } else {
                advance(names, stack2)
            }
        }
    }
}

/// The walk's first request: the root's listing, unless no level may be searched.
pub open spec fn walk_start(root: Seq<char>, names: Seq<Seq<char>>, max_depth: nat) -> (
    WalkView,
    WalkRequestView,
) {
    if max_depth == 0 {
        (WalkView { names, stack: seq![], pending: None }, WalkRequestView::Done(None))
    } else {
        (
            WalkView { names, stack: seq![], pending: Some(max_depth) },
            WalkRequestView::ReadDir(root),
        )
    }
}

/// One step: the listing asked for (none when the directory cannot be read, which
/// counts as empty) is entered, and the walk goes on from its first entry.
pub open spec fn walk_step(w: WalkView, listing: Option<Seq<EntryView>>) -> (
    WalkView,
    WalkRequestView,
) {
    let entries = match listing {
        Some(l) => l,
        None => seq![],
    };
    let (stack, pending, request) = advance(
        w.names,
        w.stack.push(FrameView { rest: entries, depth: w.pending->0 }),
    );
    (WalkView { names: w.names, stack, pending }, request)
}

struct Frame {
    rest: Vec<EntryFacts>,
    depth: usize,
}

impl View for Frame {
    type V = FrameView;

    closed spec fn view(&self) -> FrameView {
        FrameView { rest: entries_view(self.rest@), depth: self.depth as nat }
    }
}

spec fn frames_view(v: Seq<Frame>) -> Seq<FrameView> {
    v.map_values(|f: Frame| f@)
}

/// A search of a directory tree, one listing at a time.
pub struct TreeWalk {
    names: Vec<String>,
    stack: Vec<Frame>,
    pending: Option<usize>,
}

impl View for TreeWalk {
    type V = WalkView;

    closed spec fn view(&self) -> WalkView {
        WalkView {
            names: texts(self.names@),
            stack: frames_view(self.stack@),
            pending: match self.pending {
                Some(d) => Some(d as nat),
                None => None,
            },
        }
    }
}

impl TreeWalk {
    /// Whether the walk waits for a listing.
    pub open spec fn awaiting(&self) -> bool {
        self@.pending is Some
    }

    /// Starts a search below `root` for a file named one of `names` (ignoring ASCII
    /// case), descending at most `max_depth` levels: the files in `root` and in the
    /// directories fewer than `max_depth` levels below it.
    pub fn new(root: String, names: Vec<String>, max_depth: usize) -> (r: (TreeWalk, WalkRequest))
        ensures
            (r.0@, r.1@) == walk_start(root@, texts(names@), max_depth as nat),
            max_depth == 0 ==> r.1@ == WalkRequestView::Done(None),
            max_depth > 0 ==> r.1@ == WalkRequestView::ReadDir(root@),
    {
        let stack: Vec<Frame> = Vec::new();
        assert(frames_view(stack@) =~= seq![]);
        if max_depth == 0 {
            (TreeWalk { names, stack, pending: None }, WalkRequest::Done(None))
        } else {
            (TreeWalk { names, stack, pending: Some(max_depth) }, WalkRequest::ReadDir(root))
        }
    }

    fn matches(&self, e: &EntryFacts) -> (b: bool)
        ensures
            b == entry_matches(self@.names, e@),
    {
        match &e.file_name {
            Some(f) => {
                let b = name_matches(&self.names, f.as_str());
                proof {
                    let ns = texts(self.names@);
                    if b {
                        let i = choose|i: int|
                            0 <= i < self.names@.len() && eq_ignore_ascii_case(
                                #[trigger] self.names@[i]@,
                                f@,
                            );
                        assert(eq_ignore_ascii_case(ns[i], f@));
                    } else {
                        assert forall|i: int| 0 <= i < ns.len() implies !eq_ignore_ascii_case(
                            #[trigger] ns[i],
                            f@,
                        ) by {
                            assert(ns[i] == self.names@[i]@);
                        }
                    }
                }
                b
            },
            None => false,
        }
    }

    fn go_on(&mut self) -> (r: WalkRequest)
        ensures
            final(self)@.names == old(self)@.names,
            (final(self)@.stack, final(self)@.pending, r@) == advance(
                old(self)@.names,
                old(self)@.stack,
            ),
    {
        let ghost names = self@.names;
        let ghost target = advance(names, self@.stack);
        loop
            invariant
                self@.names == names,
                names == old(self)@.names,
                target == advance(old(self)@.names, old(self)@.stack),
                advance(names, self@.stack) == target,
            decreases stack_measure(self@.stack),
        {
            let ghost before = self@.stack;
            if self.stack.len() == 0 {
                self.pending = None;
                return WalkRequest::Done(None);
            }
            let mut top = self.stack.pop().unwrap();
            assert(frames_view(self.stack@) =~= before.drop_last());
            assert(top@ == before.last());
            if top.rest.len() == 0 {
                assert(stack_measure(before) == stack_measure(before.drop_last()) + 1);
                continue;
            }
            let ghost old_rest = top.rest@;
            let e = top.rest.remove(0);
            assert(e@ == before.last().rest[0]);
            assert(entries_view(top.rest@) =~= entries_view(old_rest).drop_first());
            let d = top.depth;
            self.stack.push(top);
            let ghost after = before.drop_last().push(
                FrameView { rest: before.last().rest.drop_first(), depth: d as nat },
            );
            assert(frames_view(self.stack@) =~= after);
            assert(after.drop_last() =~= before.drop_last());
            assert(stack_measure(after) < stack_measure(before));
            if e.is_file {
                if self.matches(&e) {
                    self.pending = None;
                    return WalkRequest::Done(Some(e.path));
                }
            } else if e.is_dir && d > 1 {
                self.pending = Some(d - 1);
                return WalkRequest::ReadDir(e.path);
            }
        }
    }

    /// Hands the walk the listing it asked for (`None` when the directory could not
    /// be read) and returns what it asks for next.
    pub fn step(&mut self, listing: Option<Vec<EntryFacts>>) -> (r: WalkRequest)
        requires
            old(self).awaiting(),
        ensures
            (final(self)@, r@) == walk_step(old(self)@, listing_view(listing)),
    {
        let depth = match self.pending {
            Some(d) => d,
            None => 0,
        };
        let rest = match listing {
            Some(v) => v,
            None => Vec::new(),
        };
        let ghost before = self@.stack;
        assert(entries_view(rest@) == match listing_view(listing) {
            Some(l) => l,
            None => Seq::<EntryView>::empty(),
        }) by {
            match listing {
                Some(v) => {},
                None => {
                    assert(entries_view(rest@) =~= Seq::<EntryView>::empty());
                },
            }
        }
        self.stack.push(Frame { rest, depth });
        assert(frames_view(self.stack@) =~= before.push(
            FrameView {
                rest: match listing_view(listing) {
                    Some(l) => l,
                    None => seq![],
                },
                depth: old(self)@.pending->0,
            },
        ));
        self.go_on()
    }
}

/// A directory tree as listings: the entries of each directory, in listing order,
/// or nothing for a directory that cannot be read.
pub type Listings = spec_fn(Seq<char>) -> Option<Seq<EntryView>>;

/// The first file at or below `dir` whose name matches one of `names`, looking at
/// the entries depth first in listing order and descending at most `depth` levels:
/// the files of `dir` itself when `depth` is one, nothing when it is zero.
pub open spec fn search(tree: Listings, names: Seq<Seq<char>>, dir: Seq<char>, depth: nat) -> Option<
    Seq<char>,
>
    decreases depth, 1nat, 0nat,
{
    if depth == 0 {
        None
    } else {
        match tree(dir) {
            None => None,
            Some(es) => search_entries(tree, names, es, depth),
        }
    }
}

/// The first match among the entries `es` of a directory that may descend `depth`
/// levels, in order, entering subdirectories as they come.
pub open spec fn search_entries(
    tree: Listings,
    names: Seq<Seq<char>>,
    es: Seq<EntryView>,
    depth: nat,
) -> Option<Seq<char>>
    decreases depth, 0nat, es.len(),
{
    if es.len() == 0 {
        None
    } else {
        let e = es[0];
        if e.is_file {
            if entry_matches(names, e) {
                Some(e.path)
            } else {
                search_entries(tree, names, es.drop_first(), depth)
            }
        } else if e.is_dir && depth > 1 {
            match search(tree, names, e.path, (depth - 1) as nat) {
                Some(p) => Some(p),
                None => search_entries(tree, names, es.drop_first(), depth),
            }
        } else {
            search_entries(tree, names, es.drop_first(), depth)
        }
    }
}

spec fn first_some(a: Option<Seq<char>>, b: Option<Seq<char>>) -> Option<Seq<char>> {
    if a is Some {
        a
    } else {
        b
    }
}

/// What the rest of the directories the walk is inside would find, innermost first.
spec fn stack_result(tree: Listings, names: Seq<Seq<char>>, stack: Seq<FrameView>) -> Option<
    Seq<char>,
>
    decreases stack.len(),
{
    if stack.len() == 0 {
        None
    } else {
        first_some(
            search_entries(tree, names, stack.last().rest, stack.last().depth),
            stack_result(tree, names, stack.drop_last()),
        )
    }
}

proof fn lemma_advance(tree: Listings, names: Seq<Seq<char>>, stack: Seq<FrameView>)
    ensures
        ({
            let (st, pending, request) = advance(names, stack);
            &&& request matches WalkRequestView::Done(x) ==> x == stack_result(tree, names, stack)
            &&& request matches WalkRequestView::ReadDir(p) ==> pending matches Some(d) && d >= 1
                && first_some(search(tree, names, p, d), stack_result(tree, names, st))
                == stack_result(tree, names, stack)
        }),
    decreases stack_measure(stack),
{
    if stack.len() > 0 {
        let top = stack.last();
        if top.rest.len() == 0 {
            lemma_advance(tree, names, stack.drop_last());
        } else {
            let e = top.rest[0];
            let stack2 = stack.drop_last().push(FrameView { rest: top.rest.drop_first(), depth: top.depth });
            assert(stack2.drop_last() =~= stack.drop_last());
            assert(stack2.last() == FrameView { rest: top.rest.drop_first(), depth: top.depth });
            if e.is_file {
                if !entry_matches(names, e) {
                    lemma_advance(tree, names, stack2);
                }
            } else if !(e.is_dir && top.depth > 1) {
                lemma_advance(tree, names, stack2);
            }
        }
    }
}

/// The walk driven by a caller that lists each directory as `tree` says, for at most
/// `fuel` listings: what it found, once it is over.
pub open spec fn drive(tree: Listings, w: WalkView, r: WalkRequestView, fuel: nat) -> Option<
    Option<Seq<char>>,
>
    decreases fuel,
{
    match r {
        WalkRequestView::Done(x) => Some(x),
        WalkRequestView::ReadDir(p) => if fuel == 0 {
            None
        } else {
            let (w2, r2) = walk_step(w, tree(p));
            drive(tree, w2, r2, (fuel - 1) as nat)
        },
    }
}

spec fn on_course(tree: Listings, w: WalkView, r: WalkRequestView, target: Option<Seq<char>>) -> bool {
    match r {
        WalkRequestView::Done(x) => x == target,
        WalkRequestView::ReadDir(p) => w.pending matches Some(d) && d >= 1 && first_some(
            search(tree, w.names, p, d),
            stack_result(tree, w.names, w.stack),
        ) == target,
    }
}

proof fn lemma_drive(
    tree: Listings,
    w: WalkView,
    r: WalkRequestView,
    fuel: nat,
    target: Option<Seq<char>>,
)
    requires
        on_course(tree, w, r, target),
    ensures
        drive(tree, w, r, fuel) matches Some(x) ==> x == target,
    decreases fuel,
{
    if let WalkRequestView::ReadDir(p) = r {
        if fuel > 0 {
            let d = w.pending->0;
            let entries = match tree(p) {
                Some(l) => l,
                None => seq![],
            };
            let st = w.stack.push(FrameView { rest: entries, depth: d });
            assert(st.drop_last() =~= w.stack);
            assert(search(tree, w.names, p, d) == search_entries(tree, w.names, entries, d));
            lemma_advance(tree, w.names, st);
            let (w2, r2) = walk_step(w, tree(p));
            lemma_drive(tree, w2, r2, (fuel - 1) as nat, target);
        }
    }
}

/// Whenever the walk is over, what it found is the first file whose name matches,
/// depth first in listing order, in `root` or in a directory fewer than
/// `max_depth` levels below it; directories that cannot be read count as empty.
pub proof fn walk_finds_first_match(
    tree: Listings,
    root: Seq<char>,
    names: Seq<Seq<char>>,
    max_depth: nat,
    fuel: nat,
)
    ensures
        ({
            let (w, r) = walk_start(root, names, max_depth);
            drive(tree, w, r, fuel) matches Some(x) ==> x == search(tree, names, root, max_depth)
        }),
{
    let (w, r) = walk_start(root, names, max_depth);
    let target = search(tree, names, root, max_depth);
    if max_depth > 0 {
        assert(stack_result(tree, names, w.stack) == None::<Seq<char>>);
    }
    lemma_drive(tree, w, r, fuel, target);
}

/// Whether `e` is an entry of some listing of `tree`.
pub open spec fn listed(tree: Listings, e: EntryView) -> bool {
    exists|d: Seq<char>, j: int|
        #[trigger] tree(d) is Some && 0 <= j < tree(d)->0.len() && #[trigger] tree(d)->0[j] == e
}

/// Whether every listing names its entries by paths that extend the directory's own.
pub open spec fn paths_nest(tree: Listings) -> bool {
    forall|d: Seq<char>, j: int|
        #[trigger] tree(d) is Some && 0 <= j < tree(d)->0.len() ==> d.is_prefix_of(
            #[trigger] tree(d)->0[j].path,
        )
}

/// Whether `p` is the path of a listed file whose name matches one of `names`.
pub open spec fn found_file(tree: Listings, names: Seq<Seq<char>>, p: Seq<char>) -> bool {
    exists|e: EntryView| #[trigger] listed(tree, e) && e.path == p && e.is_file && entry_matches(names, e)
}

proof fn lemma_prefix_trans(a: Seq<char>, b: Seq<char>, c: Seq<char>)
    requires
        a.is_prefix_of(b),
        b.is_prefix_of(c),
    ensures
        a.is_prefix_of(c),
{
    assert forall|i: int| 0 <= i < a.len() implies a[i] == c[i] by {
        assert(a[i] == b.subrange(0, a.len() as int)[i]);
        assert(b[i] == c.subrange(0, b.len() as int)[i]);
    }
    assert(a =~= c.subrange(0, a.len() as int));
}

proof fn lemma_search_found(tree: Listings, names: Seq<Seq<char>>, dir: Seq<char>, depth: nat)
    ensures
        search(tree, names, dir, depth) matches Some(p) ==> found_file(tree, names, p) && (
        paths_nest(tree) ==> dir.is_prefix_of(p)),
    decreases depth, 1nat, 0nat,
{
    if depth > 0 {
        if let Some(es) = tree(dir) {
            assert forall|i: int| 0 <= i < es.len() implies #[trigger] listed(tree, es[i]) && (
            paths_nest(tree) ==> dir.is_prefix_of(es[i].path)) by {
                assert(tree(dir)->0[i] == es[i]);
            }
            lemma_entries_found(tree, names, dir, es, depth);
        }
    }
}

proof fn lemma_entries_found(
    tree: Listings,
    names: Seq<Seq<char>>,
    dir: Seq<char>,
    es: Seq<EntryView>,
    depth: nat,
)
    requires
        forall|i: int|
            0 <= i < es.len() ==> #[trigger] listed(tree, es[i]) && (paths_nest(tree)
                ==> dir.is_prefix_of(es[i].path)),
    ensures
        search_entries(tree, names, es, depth) matches Some(p) ==> found_file(tree, names, p) && (
        paths_nest(tree) ==> dir.is_prefix_of(p)),
    decreases depth, 0nat, es.len(),
{
    if es.len() > 0 {
        let e = es[0];
        assert(listed(tree, e));
        let rest = es.drop_first();
        assert forall|i: int| 0 <= i < rest.len() implies #[trigger] listed(tree, rest[i]) && (
        paths_nest(tree) ==> dir.is_prefix_of(rest[i].path)) by {
            assert(rest[i] == es[i + 1]);
        }
        lemma_entries_found(tree, names, dir, rest, depth);
        if e.is_file {
        } else if e.is_dir && depth > 1 {
            lemma_search_found(tree, names, e.path, (depth - 1) as nat);
            if let Some(p) = search(tree, names, e.path, (depth - 1) as nat) {
                if paths_nest(tree) {
                    lemma_prefix_trans(dir, e.path, p);
                }
            }
        }
    }
}

/// What a search finds is a listed file whose name matches one of `names`, and,
/// when every listing names its entries by paths under the listed directory, its
/// path lies under the directory the search started from.
pub proof fn search_finds_matching_file_below(
    tree: Listings,
    names: Seq<Seq<char>>,
    root: Seq<char>,
    max_depth: nat,
)
    ensures
        search(tree, names, root, max_depth) matches Some(p) ==> found_file(tree, names, p) && (
        paths_nest(tree) ==> root.is_prefix_of(p)),
        names.len() == 0 ==> search(tree, names, root, max_depth) is None,
{
    lemma_search_found(tree, names, root, max_depth);
    if names.len() == 0 {
        if let Some(p) = search(tree, names, root, max_depth) {
            let e = choose|e: EntryView|
                #[trigger] listed(tree, e) && e.path == p && e.is_file && entry_matches(names, e);
            assert(entry_matches(names, e));
        }
    }
}

} // verus!
