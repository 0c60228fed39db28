//! Merging the raw notifications of a file-system watcher into one bulk
//! event: which paths were added, modified, deleted or moved, with every
//! path reported once and changes that cancel out dropped.

use vstd::prelude::*;

use crate::path_table::{PathMap, PathSet};
use crate::text::str_eq;

verus! {

broadcast use vstd::string::group_string_axioms;

/// The net change of one path.
pub ghost enum PathChange {
    Added,
    Modified,
    Deleted,
    /// The path now holds what was at the given path before.
    MovedFrom(Seq<char>),
}

/// The net changes of all paths seen so far, and the source of a rename
/// whose target has not been reported yet.
pub ghost struct MergeState {
    pub status: Map<Seq<char>, PathChange>,
    pub pending: Option<Seq<char>>,
}

/// Appending an element to a sequence adds it to the sequence's set.
pub proof fn lemma_push_to_set<A>(s: Seq<A>, x: A)
    ensures
        s.push(x).to_set() == s.to_set().insert(x),
{
    assert forall|a: A| s.push(x).to_set().contains(a) <==> s.to_set().insert(x).contains(a) by {
        if s.push(x).contains(a) {
            let k = choose|k: int| 0 <= k < s.push(x).len() && s.push(x)[k] == a;
            if k < s.len() {
                assert(s[k] == a);
            }
        }
        if s.contains(a) {
            let k = choose|k: int| 0 <= k < s.len() && s[k] == a;
            assert(s.push(x)[k] == a);
        }
        if a == x {
            assert(s.push(x)[s.len() as int] == a);
        }
    }
    assert(s.push(x).to_set() =~= s.to_set().insert(x));
}

/// A bulk change set as plain sets: added, modified, deleted, and moved
/// paths (new path to old path).
pub ghost struct FsChanges {
    pub added: Set<Seq<char>>,
    pub modified: Set<Seq<char>>,
    pub deleted: Set<Seq<char>>,
    pub moved: Map<Seq<char>, Seq<char>>,
}

/// The kinds of raw notifications a file-system watcher reports.
#[derive(Clone, Copy, Debug, PartialEq, Eq, Structural, Hash)]
pub enum RawEventKind {
    /// A notification of an unknown kind.
    Any,
    /// A file was read or opened; nothing changed.
    Access,
    /// A file or folder was created.
    Create,
    /// The content of a file changed.
    ModifyData,
    /// The metadata of a file or folder changed.
    ModifyMetadata,
    /// Something about a file changed, it is not known what.
    ModifyAny,
    /// A change that fits no other kind.
    ModifyOther,
    /// The source side of a rename; the target follows in a later notification.
    RenameFrom,
    /// The target side of a rename.
    RenameTo,
    /// A rename with the source as first path and the target as second.
    RenameBoth,
    /// A rename of unknown shape.
    RenameAny,
    /// A rename of another shape.
    RenameOther,
    /// A file or folder was removed.
    Remove,
    /// A notification that fits no other kind.
    Other,
}

/// One raw notification: its kind and the paths it concerns.
#[derive(Clone, Debug)]
pub struct RawNotifierEvent {
    pub kind: RawEventKind,
    pub paths: Vec<String>,
}

impl View for RawNotifierEvent {
    type V = (RawEventKind, Seq<Seq<char>>);

    open spec fn view(&self) -> (RawEventKind, Seq<Seq<char>>) {
        (self.kind, self.paths@.map_values(|p: String| p@))
    }
}

impl RawNotifierEvent {
    /// A notification of kind `kind` about `paths`.
    pub fn new(kind: RawEventKind, paths: Vec<String>) -> (e: RawNotifierEvent)
        ensures
            e.kind == kind,
            e.paths == paths,
    {
        RawNotifierEvent { kind, paths }
    }
}

/// A path was created.
pub open spec fn st_create(m: Map<Seq<char>, PathChange>, p: Seq<char>) -> Map<Seq<char>, PathChange> {
    if !m.contains_key(p) {
        m.insert(p, PathChange::Added)
    } else if m[p] == PathChange::Deleted {
        m.insert(p, PathChange::Modified)
    } else {
        m
    }
}

/// A path was modified.
pub open spec fn st_modify(m: Map<Seq<char>, PathChange>, p: Seq<char>) -> Map<Seq<char>, PathChange> {
    if m.contains_key(p) {
        m
    } else {
        m.insert(p, PathChange::Modified)
    }
}

/// What was at path `o` before is gone.
pub open spec fn st_mark_deleted(m: Map<Seq<char>, PathChange>, o: Seq<char>) -> Map<Seq<char>, PathChange> {
    if !m.contains_key(o) {
        m.insert(o, PathChange::Deleted)
    } else if m[o] == PathChange::Added {
        m.insert(o, PathChange::Modified)
    } else {
        m
    }
}

/// A path was removed.
pub open spec fn st_remove(m: Map<Seq<char>, PathChange>, p: Seq<char>) -> Map<Seq<char>, PathChange> {
    if !m.contains_key(p) {
        m.insert(p, PathChange::Deleted)
    } else {
        match m[p] {
            PathChange::Added => m.remove(p),
            PathChange::MovedFrom(o) => st_mark_deleted(m.remove(p), o),
            _ => m.insert(p, PathChange::Deleted),
        }
    }
}

/// A path `f` was renamed to `t`.
pub open spec fn st_rename(m: Map<Seq<char>, PathChange>, f: Seq<char>, t: Seq<char>) -> Map<Seq<char>, PathChange> {
    if f == t {
        m
    } else if !m.contains_key(f) {
        m.insert(t, PathChange::MovedFrom(f))
    } else {
        match m[f] {
            PathChange::Added => {
                let m1 = m.remove(f);
                if m1.contains_key(t) {
                    m1.insert(t, PathChange::Modified)
                } else {
                    m1.insert(t, PathChange::Added)
                }
            },
            PathChange::MovedFrom(o) => {
                let m1 = m.remove(f);
                if o == t {
                    if m1.contains_key(t) {
                        m1.insert(t, PathChange::Modified)
                    } else {
                        m1
                    }
                } else {
                    m1.insert(t, PathChange::MovedFrom(o))
                }
            },
            PathChange::Deleted => st_create(m, t),
            PathChange::Modified => m.remove(f).insert(t, PathChange::MovedFrom(f)),
        }
    }
}

/// Whether a notification of this kind carries a rename's source and target together.
pub open spec fn is_pair_rename(kind: RawEventKind) -> bool {
    kind == RawEventKind::RenameBoth || kind == RawEventKind::RenameAny || kind
        == RawEventKind::RenameOther
}

/// Whether a notification of this kind modifies its paths.
pub open spec fn is_modify(kind: RawEventKind) -> bool {
    kind == RawEventKind::ModifyData || kind == RawEventKind::ModifyMetadata || kind
        == RawEventKind::ModifyAny || kind == RawEventKind::ModifyOther
}

/// One path of a notification that is no paired rename.
pub open spec fn apply_path(kind: RawEventKind, st: MergeState, p: Seq<char>) -> MergeState {
    if kind == RawEventKind::Create {
        MergeState { status: st_create(st.status, p), pending: st.pending }
    } else if is_modify(kind) {
        MergeState { status: st_modify(st.status, p), pending: st.pending }
    } else if kind == RawEventKind::Remove {
        MergeState { status: st_remove(st.status, p), pending: st.pending }
    } else if kind == RawEventKind::RenameFrom {
        MergeState {
            status: match st.pending {
                Some(q) => st_remove(st.status, q),
                None => st.status,
            },
            pending: Some(p),
        }
    } else if kind == RawEventKind::RenameTo {
        match st.pending {
            Some(q) => MergeState { status: st_rename(st.status, q, p), pending: None },
            None => MergeState { status: st_create(st.status, p), pending: None },
        }
    } else {
        st
    }
}

/// The paths of a notification, one after the other.
pub open spec fn apply_paths(kind: RawEventKind, st: MergeState, ps: Seq<Seq<char>>) -> MergeState
    decreases ps.len(),
{
    if ps.len() == 0 {
        st
    } else {
        apply_path(kind, apply_paths(kind, st, ps.drop_last()), ps.last())
    }
}

/// One notification.
pub open spec fn apply_event(st: MergeState, e: (RawEventKind, Seq<Seq<char>>)) -> MergeState {
    if is_pair_rename(e.0) {
        if e.1.len() >= 2 {
            MergeState { status: st_rename(st.status, e.1[0], e.1[1]), pending: st.pending }
        } else {
            st
        }
    } else {
        apply_paths(e.0, st, e.1)
    }
}

/// The state before any notification.
pub open spec fn initial_state() -> MergeState {
    MergeState { status: Map::empty(), pending: None }
}

/// The notifications, one after the other.
pub open spec fn apply_events(es: Seq<(RawEventKind, Seq<Seq<char>>)>) -> MergeState
    decreases es.len(),
{
    if es.len() == 0 {
        initial_state()
    } else {
        apply_event(apply_events(es.drop_last()), es.last())
    }
}

/// The net changes once all notifications are in: a rename source whose
/// target never came was moved out of view, which is a removal.
pub open spec fn final_status(st: MergeState) -> Map<Seq<char>, PathChange> {
    match st.pending {
        Some(q) => st_remove(st.status, q),
        None => st.status,
    }
}

/// The net changes of a sequence of notifications.
pub open spec fn merged_status(es: Seq<(RawEventKind, Seq<Seq<char>>)>) -> Map<Seq<char>, PathChange> {
    final_status(apply_events(es))
}

/// The change set of a table of net changes.
pub open spec fn changes_of(m: Map<Seq<char>, PathChange>) -> FsChanges {
    FsChanges {
        added: Set::new(|p: Seq<char>| m.contains_key(p) && m[p] == PathChange::Added),
        modified: Set::new(|p: Seq<char>| m.contains_key(p) && m[p] == PathChange::Modified),
        deleted: Set::new(|p: Seq<char>| m.contains_key(p) && m[p] == PathChange::Deleted),
        moved: Map::new(
            |p: Seq<char>| m.contains_key(p) && m[p] is MovedFrom,
            |p: Seq<char>| m[p]->MovedFrom_0,
        ),
    }
}

/// Whether a change set holds no change.
pub open spec fn changes_empty(c: FsChanges) -> bool {
    &&& c.added == Set::<Seq<char>>::empty()
    &&& c.modified == Set::<Seq<char>>::empty()
    &&& c.deleted == Set::<Seq<char>>::empty()
    &&& c.moved.dom() == Set::<Seq<char>>::empty()
}

/// The net change of a path, as the merge keeps it.
#[derive(Debug)]
pub enum PathStatus {
    Added,
    Modified,
    Deleted,
    MovedFrom(String),
}

impl View for PathStatus {
    type V = PathChange;

    open spec fn view(&self) -> PathChange {
        match self {
            PathStatus::Added => PathChange::Added,
            PathStatus::Modified => PathChange::Modified,
            PathStatus::Deleted => PathChange::Deleted,
            PathStatus::MovedFrom(o) => PathChange::MovedFrom(o@),
        }
    }
}

/// A batch of file-system changes: the paths added, modified and deleted, and
/// the moves (new path to old path). Nothing about the type keeps a path out
/// of two of these; a batch that the watcher's merge builds holds each path in
/// at most one of them (`lemma_changes_disjoint`).
#[derive(Debug)]
pub struct BulkFilesystemWatcherEvent {
    pub added: PathSet,
    pub modified: PathSet,
    pub deleted: PathSet,
    pub moved: PathMap<String>,
}

impl View for BulkFilesystemWatcherEvent {
    type V = FsChanges;

    open spec fn view(&self) -> FsChanges {
        FsChanges {
            added: self.added@,
            modified: self.modified@,
            deleted: self.deleted@,
            moved: self.moved@,
        }
    }
}

impl Default for BulkFilesystemWatcherEvent {
    fn default() -> (e: BulkFilesystemWatcherEvent)
        ensures
            changes_empty(e@),
    {
        BulkFilesystemWatcherEvent {
            added: PathSet::new(),
            modified: PathSet::new(),
            deleted: PathSet::new(),
            moved: PathMap::new(),
        }
    }
}

impl Clone for BulkFilesystemWatcherEvent {
    fn clone(&self) -> (e: BulkFilesystemWatcherEvent)
        ensures
            e@ == self@,
    {
        BulkFilesystemWatcherEvent {
            added: self.added.clone(),
            modified: self.modified.clone(),
            deleted: self.deleted.clone(),
            moved: self.moved.clone(),
        }
    }
}

impl BulkFilesystemWatcherEvent {
    /// Whether the batch holds no change at all.
    pub fn is_empty(&self) -> (r: bool)
        ensures
            r == changes_empty(self@),
    {
        self.added.is_empty() && self.modified.is_empty() && self.deleted.is_empty()
            && self.moved.is_empty()
    }

    /// The paths that were added or modified, each once.
    pub fn added_or_updated_set(&self) -> (s: PathSet)
        ensures
            s@ == self@.added + self@.modified,
    {
        let mut s = self.added.clone();
        let ms = self.modified.to_vec();
        let ghost mv = ms@.map_values(|p: String| p@);
        let mut i: usize = 0;
        while i < ms.len()
            invariant
                mv == ms@.map_values(|p: String| p@),
                mv.to_set() == self@.modified,
                i <= ms@.len(),
                s@ == self@.added + mv.subrange(0, i as int).to_set(),
            decreases ms@.len() - i,
        {
            s.insert(ms[i].clone());
            assert(mv.subrange(0, i + 1) =~= mv.subrange(0, i as int).push(mv[i as int]));
            proof {
                lemma_push_to_set(mv.subrange(0, i as int), mv[i as int]);
            }
            assert(s@ =~= self@.added + mv.subrange(0, i + 1).to_set());
            i = i + 1;
        }
        assert(mv.subrange(0, ms@.len() as int) =~= mv);
        s
    }

    /// The added paths, then the modified ones; a path that is in both sets
    /// comes twice.
    pub fn added_or_updated_iter(&self) -> (v: Vec<String>)
        ensures
            v@.map_values(|p: String| p@).to_set() == self@.added + self@.modified,
            v@.len() == self@.added.len() + self@.modified.len(),
            v@.map_values(|p: String| p@).take(self@.added.len() as int).to_set() == self@.added,
            v@.map_values(|p: String| p@).skip(self@.added.len() as int).to_set() == self@.modified,
    {
        let mut v = self.added.to_vec();
        let mut m = self.modified.to_vec();
        let ghost av = v@.map_values(|p: String| p@);
        let ghost mv = m@.map_values(|p: String| p@);
        proof {
            av.unique_seq_to_set();
            mv.unique_seq_to_set();
        }
        v.append(&mut m);
        assert(v@.map_values(|p: String| p@) =~= av + mv);
        assert((av + mv).take(av.len() as int) =~= av);
        assert((av + mv).skip(av.len() as int) =~= mv);
        assert((av + mv).to_set() =~= av.to_set() + mv.to_set()) by {
            assert forall|p: Seq<char>| (av + mv).contains(p) implies av.contains(p) || mv.contains(p) by {
                let k = choose|k: int| 0 <= k < (av + mv).len() && (av + mv)[k] == p;
                if k < av.len() {
                    assert(av[k] == p);
                } else {
                    assert(mv[k - av.len()] == p);
                }
            }
            assert forall|p: Seq<char>| av.contains(p) implies (av + mv).contains(p) by {
                let k = choose|k: int| 0 <= k < av.len() && av[k] == p;
                assert((av + mv)[k] == p);
            }
            assert forall|p: Seq<char>| mv.contains(p) implies (av + mv).contains(p) by {
                let k = choose|k: int| 0 <= k < mv.len() && mv[k] == p;
                assert((av + mv)[k + av.len()] == p);
            }
        }
        v
    }
}

/// Notifications that cancel out: the batch would hold no change.
#[derive(Clone, Copy, Debug, PartialEq, Eq)]
pub struct NoNetChanges;

fn clone_status(s: &PathStatus) -> (r: PathStatus)
    ensures
        r@ == s@,
{
    match s {
        PathStatus::Added => PathStatus::Added,
        PathStatus::Modified => PathStatus::Modified,
        PathStatus::Deleted => PathStatus::Deleted,
        PathStatus::MovedFrom(o) => PathStatus::MovedFrom(o.clone()),
    }
}

fn lookup(t: &PathMap<PathStatus>, p: &str) -> (r: Option<PathStatus>)
    ensures
        match r {
            Some(s) => t@.contains_key(p@) && t@[p@] == s@,
            None => !t@.contains_key(p@),
        },
{
    match t.get(p) {
        Some(s) => Some(clone_status(s)),
        None => None,
    }
}

fn do_create(t: &mut PathMap<PathStatus>, p: String)
    ensures
        final(t)@ == st_create(old(t)@, p@),
{
    match lookup(t, p.as_str()) {
        None => {
            t.insert(p, PathStatus::Added);
        },
        Some(PathStatus::Deleted) => {
            t.insert(p, PathStatus::Modified);
        },
        Some(_) => {},
    }
}

fn do_modify(t: &mut PathMap<PathStatus>, p: String)
    ensures
        final(t)@ == st_modify(old(t)@, p@),
{
    if !t.contains_key(p.as_str()) {
        t.insert(p, PathStatus::Modified);
    }
}

fn do_mark_deleted(t: &mut PathMap<PathStatus>, o: String)
    ensures
        final(t)@ == st_mark_deleted(old(t)@, o@),
{
    match lookup(t, o.as_str()) {
        None => {
            t.insert(o, PathStatus::Deleted);
        },
        Some(PathStatus::Added) => {
            t.insert(o, PathStatus::Modified);
        },
        Some(_) => {},
    }
}

fn do_remove(t: &mut PathMap<PathStatus>, p: String)
    ensures
        final(t)@ == st_remove(old(t)@, p@),
{
    match lookup(t, p.as_str()) {
        None => {
            t.insert(p, PathStatus::Deleted);
        },
        Some(PathStatus::Added) => {
            t.remove(p.as_str());
        },
        Some(PathStatus::MovedFrom(o)) => {
            t.remove(p.as_str());
            do_mark_deleted(t, o);
        },
        Some(_) => {
            t.insert(p, PathStatus::Deleted);
        },
    }
}

fn do_rename(t: &mut PathMap<PathStatus>, f: String, to: String)
    ensures
        final(t)@ == st_rename(old(t)@, f@, to@),
{
    if str_eq(f.as_str(), to.as_str()) {
        return;
    }
    match lookup(t, f.as_str()) {
        None => {
            t.insert(to, PathStatus::MovedFrom(f));
        },
        Some(PathStatus::Added) => {
            t.remove(f.as_str());
            if t.contains_key(to.as_str()) {
                t.insert(to, PathStatus::Modified);
            } else {
                t.insert(to, PathStatus::Added);
            }
        },
        Some(PathStatus::MovedFrom(o)) => {
            t.remove(f.as_str());
            if str_eq(o.as_str(), to.as_str()) {
                if t.contains_key(to.as_str()) {
                    t.insert(to, PathStatus::Modified);
                }
            } else {
                t.insert(to, PathStatus::MovedFrom(o));
            }
        },
        Some(PathStatus::Deleted) => {
            do_create(t, to);
        },
        Some(PathStatus::Modified) => {
            t.remove(f.as_str());
            t.insert(to, PathStatus::MovedFrom(f));
        },
    }
}

/// The view of a pending rename source.
pub open spec fn pending_view(p: Option<String>) -> Option<Seq<char>> {
    match p {
        Some(s) => Some(s@),
        None => None,
    }
}

fn do_path(kind: RawEventKind, t: &mut PathMap<PathStatus>, pending: &mut Option<String>, p: String)
    ensures
        (MergeState { status: final(t)@, pending: pending_view(*final(pending)) }) == apply_path(
            kind,
            MergeState { status: old(t)@, pending: pending_view(*old(pending)) },
            p@,
        ),
{
    match kind {
        RawEventKind::Create => do_create(t, p),
        RawEventKind::ModifyData | RawEventKind::ModifyMetadata | RawEventKind::ModifyAny
        | RawEventKind::ModifyOther => do_modify(t, p),
        RawEventKind::Remove => do_remove(t, p),
        RawEventKind::RenameFrom => {
            let mut prev: Option<String> = None;
            std::mem::swap(&mut prev, pending);
            match prev {
                Some(q) => do_remove(t, q),
                None => {},
            }
            *pending = Some(p);
        },
        RawEventKind::RenameTo => {
            let mut prev: Option<String> = None;
            std::mem::swap(&mut prev, pending);
            match prev {
                Some(q) => do_rename(t, q, p),
                None => do_create(t, p),
            }
        },
        _ => {},
    }
}

fn do_event(t: &mut PathMap<PathStatus>, pending: &mut Option<String>, e: &RawNotifierEvent)
    ensures
        (MergeState { status: final(t)@, pending: pending_view(*final(pending)) }) == apply_event(
            MergeState { status: old(t)@, pending: pending_view(*old(pending)) },
            e@,
        ),
{
    let ghost ps = e.paths@.map_values(|p: String| p@);
    if e.kind == RawEventKind::RenameBoth || e.kind == RawEventKind::RenameAny || e.kind
        == RawEventKind::RenameOther {
        if e.paths.len() >= 2 {
            do_rename(t, e.paths[0].clone(), e.paths[1].clone());
        }
        return;
    }
    let ghost st0 = MergeState { status: t@, pending: pending_view(*pending) };
    let mut j: usize = 0;
    assert(ps.subrange(0, 0) =~= Seq::<Seq<char>>::empty());
    while j < e.paths.len()
        invariant
            ps == e.paths@.map_values(|p: String| p@),
            !is_pair_rename(e.kind),
            j <= e.paths@.len(),
            (MergeState { status: t@, pending: pending_view(*pending) }) == apply_paths(
                e.kind,
                st0,
                ps.subrange(0, j as int),
            ),
        decreases e.paths@.len() - j,
    {
        do_path(e.kind, t, pending, e.paths[j].clone());
        assert(ps.subrange(0, j + 1).drop_last() =~= ps.subrange(0, j as int));
        j = j + 1;
    }
    assert(ps.subrange(0, e.paths@.len() as int) =~= ps);
}

/// The views of a sequence of notifications.
pub open spec fn event_views(es: Seq<RawNotifierEvent>) -> Seq<(RawEventKind, Seq<Seq<char>>)> {
    es.map_values(|e: RawNotifierEvent| e@)
}

fn changes_from_table(t: &PathMap<PathStatus>) -> (e: BulkFilesystemWatcherEvent)
    ensures
        e@ == changes_of(t@),
{
    let n = t.len();
    let ghost ks = t.key_seq();
    let mut e = BulkFilesystemWatcherEvent::default();
    assert(ks.subrange(0, 0).to_set() =~= Set::<Seq<char>>::empty());
    proof {
        let c0 = changes_of(t@.restrict(ks.subrange(0, 0).to_set()));
        assert(e@.added =~= c0.added);
        assert(e@.modified =~= c0.modified);
        assert(e@.deleted =~= c0.deleted);
        assert(e@.moved =~= c0.moved);
    }
    let mut i: usize = 0;
    while i < n
        invariant
            ks == t.key_seq(),
            n == ks.len(),
            ks.no_duplicates(),
            ks.to_set() == t@.dom(),
            i <= n,
            e@ == changes_of(t@.restrict(ks.subrange(0, i as int).to_set())),
        decreases n - i,
    {
        let (k, s) = t.entry_at(i);
        let ghost before = t@.restrict(ks.subrange(0, i as int).to_set());
        let ghost after = t@.restrict(ks.subrange(0, i + 1).to_set());
        assert(ks.subrange(0, i + 1) =~= ks.subrange(0, i as int).push(k@));
        proof {
            lemma_push_to_set(ks.subrange(0, i as int), k@);
        }
        assert(!ks.subrange(0, i as int).contains(k@)) by {
            if ks.subrange(0, i as int).contains(k@) {
                let q = choose|q: int| 0 <= q < i && ks.subrange(0, i as int)[q] == k@;
                assert(ks[q] == ks[i as int]);
            }
        }
        assert(after =~= before.insert(k@, s@));
        match s {
            PathStatus::Added => {
                e.added.insert(k.clone());
            },
            PathStatus::Modified => {
                e.modified.insert(k.clone());
            },
            PathStatus::Deleted => {
                e.deleted.insert(k.clone());
            },
            PathStatus::MovedFrom(o) => {
                e.moved.insert(k.clone(), o.clone());
            },
        }
        assert(e@.added =~= changes_of(after).added);
        assert(e@.modified =~= changes_of(after).modified);
        assert(e@.deleted =~= changes_of(after).deleted);
        assert(e@.moved =~= changes_of(after).moved);
        i = i + 1;
    }
    assert(ks.subrange(0, n as int) =~= ks);
    assert(t@.restrict(t@.dom()) =~= t@);
    e
}

/// Merges the raw notifications of a watcher, in order, into one batch of
/// net changes per path. Changes that cancel out (a path created and then
/// removed, renamed and renamed back) leave nothing; chains of renames
/// become one move; a rename source whose target never comes counts as a
/// removal. When nothing is left the merge is refused.
pub fn deduplicate_and_merge_raw_notifier_events(events: &[RawNotifierEvent]) -> (r: Result<
    BulkFilesystemWatcherEvent,
    NoNetChanges,
>)
    ensures
        r is Err <==> merged_status(event_views(events@)).dom() == Set::<Seq<char>>::empty(),
        r matches Ok(e) ==> e@ == changes_of(merged_status(event_views(events@))) && !changes_empty(
            e@,
        ),
{
    let ghost es = event_views(events@);
    let mut t: PathMap<PathStatus> = PathMap::new();
    let mut pending: Option<String> = None;
    let mut i: usize = 0;
    assert(es.subrange(0, 0) =~= Seq::<(RawEventKind, Seq<Seq<char>>)>::empty());
    assert(t@ =~= initial_state().status);
    while i < events.len()
        invariant
            es == event_views(events@),
            i <= events@.len(),
            (MergeState { status: t@, pending: pending_view(pending) }) == apply_events(
                es.subrange(0, i as int),
            ),
        decreases events@.len() - i,
    {
        do_event(&mut t, &mut pending, &events[i]);
        assert(es.subrange(0, i + 1).drop_last() =~= es.subrange(0, i as int));
        i = i + 1;
    }
    assert(es.subrange(0, events@.len() as int) =~= es);
    match pending {
        Some(q) => do_remove(&mut t, q),
        None => {},
    }
    proof {
        lemma_changes_empty_iff(t@);
    }
    if t.is_empty() {
        return Err(NoNetChanges);
    }
    Ok(changes_from_table(&t))
}

/// A path that is created and then removed leaves no trace.
pub proof fn lemma_create_then_remove_cancels(m: Map<Seq<char>, PathChange>, p: Seq<char>)
    requires
        !m.contains_key(p),
    ensures
        st_remove(st_create(m, p), p) == m,
{
    assert(st_create(m, p).remove(p) =~= m);
}

/// A path that existed, was modified and then removed is reported deleted.
pub proof fn lemma_modify_then_remove_is_delete(m: Map<Seq<char>, PathChange>, p: Seq<char>)
    requires
        !m.contains_key(p),
    ensures
        st_remove(st_modify(m, p), p) == m.insert(p, PathChange::Deleted),
{
    assert(st_modify(m, p).insert(p, PathChange::Deleted) =~= m.insert(p, PathChange::Deleted));
}

/// Modifying a path that was just created leaves it added.
pub proof fn lemma_create_then_modify_is_added(m: Map<Seq<char>, PathChange>, p: Seq<char>)
    ensures
        st_modify(st_create(m, p), p) == st_create(m, p),
{
}

/// Two renames in a row, a to b and b to c, are one move from a to c, and b
/// is not reported.
pub proof fn lemma_chained_renames_squash(
    m: Map<Seq<char>, PathChange>,
    a: Seq<char>,
    b: Seq<char>,
    c: Seq<char>,
)
    requires
        a != b,
        b != c,
        a != c,
        !m.contains_key(a),
        !m.contains_key(b),
    ensures
        st_rename(st_rename(m, a, b), b, c) == m.insert(c, PathChange::MovedFrom(a)),
{
    let m1 = m.insert(b, PathChange::MovedFrom(a));
    assert(m1.remove(b) =~= m);
}

/// A path renamed and renamed back leaves no trace.
pub proof fn lemma_rename_back_cancels(m: Map<Seq<char>, PathChange>, a: Seq<char>, b: Seq<char>)
    requires
        a != b,
        !m.contains_key(a),
        !m.contains_key(b),
    ensures
        st_rename(st_rename(m, a, b), b, a) == m,
{
    let m1 = m.insert(b, PathChange::MovedFrom(a));
    assert(m1.remove(b) =~= m);
}

/// A rename reported in two halves, source then target, has the effect of
/// the same rename reported at once.
pub proof fn lemma_split_rename_is_paired(st: MergeState, a: Seq<char>, b: Seq<char>)
    requires
        st.pending is None,
    ensures
        apply_event(apply_event(st, (RawEventKind::RenameFrom, seq![a])), (RawEventKind::RenameTo, seq![b]))
            == apply_event(st, (RawEventKind::RenameBoth, seq![a, b])),
{
    let s1 = apply_event(st, (RawEventKind::RenameFrom, seq![a]));
    assert(seq![a].drop_last() =~= Seq::<Seq<char>>::empty());
    assert(seq![b].drop_last() =~= Seq::<Seq<char>>::empty());
    assert(seq![a].last() == a);
    assert(seq![b].last() == b);
    assert(apply_paths(RawEventKind::RenameFrom, st, seq![a].drop_last()) == st);
    assert(s1 == MergeState { status: st.status, pending: Some(a) });
    assert(apply_paths(RawEventKind::RenameTo, s1, seq![b].drop_last()) == s1);
    assert(seq![a, b][0] == a && seq![a, b][1] == b);
}

/// The sets of a change set never share a path: a path is added, modified,
/// deleted or the target of a move, at most one of these.
pub proof fn lemma_changes_disjoint(m: Map<Seq<char>, PathChange>)
    ensures
        changes_of(m).added.disjoint(changes_of(m).modified),
        changes_of(m).added.disjoint(changes_of(m).deleted),
        changes_of(m).modified.disjoint(changes_of(m).deleted),
        changes_of(m).added.disjoint(changes_of(m).moved.dom()),
        changes_of(m).modified.disjoint(changes_of(m).moved.dom()),
        changes_of(m).deleted.disjoint(changes_of(m).moved.dom()),
{
}

/// A change set is empty exactly when no path has a net change.
pub proof fn lemma_changes_empty_iff(m: Map<Seq<char>, PathChange>)
    ensures
        changes_empty(changes_of(m)) <==> m.dom() == Set::<Seq<char>>::empty(),
{
    let c = changes_of(m);
    if m.dom() == Set::<Seq<char>>::empty() {
        assert(c.added =~= Set::<Seq<char>>::empty());
        assert(c.modified =~= Set::<Seq<char>>::empty());
        assert(c.deleted =~= Set::<Seq<char>>::empty());
        assert(c.moved.dom() =~= Set::<Seq<char>>::empty());
    } else {
        if !(exists|q: Seq<char>| m.dom().contains(q)) {
            assert(m.dom() =~= Set::<Seq<char>>::empty());
        }
        let p = choose|q: Seq<char>| m.dom().contains(q);
        match m[p] {
            PathChange::Added => assert(c.added.contains(p)),
            PathChange::Modified => assert(c.modified.contains(p)),
            PathChange::Deleted => assert(c.deleted.contains(p)),
            PathChange::MovedFrom(_) => assert(c.moved.dom().contains(p)),
        }
    }
}

/// After a rename of `f` to another path `t`, `f` is neither added nor
/// modified: it holds no net change at all, unless it was already deleted
/// before (then it stays deleted). When `f` had no net change or was only
/// modified, `t` now holds what was at `f`.
pub proof fn lemma_rename_leaves_source_behind(m: Map<Seq<char>, PathChange>, f: Seq<char>, t: Seq<char>)
    requires
        f != t,
    ensures
        !changes_of(st_rename(m, f, t)).added.contains(f),
        !changes_of(st_rename(m, f, t)).modified.contains(f),
        !changes_of(st_rename(m, f, t)).moved.contains_key(f),
        changes_of(st_rename(m, f, t)).deleted.contains(f) ==> m.contains_key(f) && m[f]
            == PathChange::Deleted,
        !m.contains_key(f) || m[f] == PathChange::Modified ==> changes_of(st_rename(m, f, t)).moved.contains_key(t)
            && changes_of(st_rename(m, f, t)).moved[t] == f,
{
}

/// Editing a file just before it is renamed leaves no trace of the edit:
/// a change notification for `f` followed by a rename of `f` to `t` merges
/// to the same net changes as the rename alone, whatever came before.
pub proof fn lemma_edit_then_rename_is_rename(
    es: Seq<(RawEventKind, Seq<Seq<char>>)>,
    modify: RawEventKind,
    rename: RawEventKind,
    f: Seq<char>,
    t: Seq<char>,
)
    requires
        is_modify(modify),
        is_pair_rename(rename),
        f != t,
    ensures
        merged_status(es.push((modify, seq![f])).push((rename, seq![f, t]))) == merged_status(
            es.push((rename, seq![f, t])),
        ),
{
    let st = apply_events(es);
    let a = es.push((modify, seq![f]));
    assert(a.push((rename, seq![f, t])).drop_last() =~= a);
    assert(a.drop_last() =~= es);
    assert(es.push((rename, seq![f, t])).drop_last() =~= es);
    assert(seq![f].drop_last() =~= Seq::<Seq<char>>::empty());
    assert(apply_paths(modify, st, seq![f].drop_last()) == st);
    let s1 = apply_events(a);
    assert(s1 == MergeState { status: st_modify(st.status, f), pending: st.pending });
    assert(seq![f, t][0] == f && seq![f, t][1] == t);
    assert(st_rename(st_modify(st.status, f), f, t) =~= st_rename(st.status, f, t));
}

/// An edit and then a rename of the edited file, with nothing before, is
/// reported as one move (new path to old path) and nothing else.
pub proof fn lemma_edit_then_rename_reports_move(
    modify: RawEventKind,
    rename: RawEventKind,
    f: Seq<char>,
    t: Seq<char>,
)
    requires
        is_modify(modify),
        is_pair_rename(rename),
        f != t,
    ensures
        changes_of(
            merged_status(seq![(modify, seq![f]), (rename, seq![f, t])]),
        ).moved == Map::<Seq<char>, Seq<char>>::empty().insert(t, f),
        changes_of(merged_status(seq![(modify, seq![f]), (rename, seq![f, t])])).added
            == Set::<Seq<char>>::empty(),
        changes_of(merged_status(seq![(modify, seq![f]), (rename, seq![f, t])])).modified
            == Set::<Seq<char>>::empty(),
        changes_of(merged_status(seq![(modify, seq![f]), (rename, seq![f, t])])).deleted
            == Set::<Seq<char>>::empty(),
{
    let es = Seq::<(RawEventKind, Seq<Seq<char>>)>::empty();
    lemma_edit_then_rename_is_rename(es, modify, rename, f, t);
    assert(es.push((modify, seq![f])).push((rename, seq![f, t])) =~= seq![
        (modify, seq![f]),
        (rename, seq![f, t]),
    ]);
    let one = es.push((rename, seq![f, t]));
    assert(one.drop_last() =~= es);
    assert(seq![f, t][0] == f && seq![f, t][1] == t);
    assert(apply_events(es) == initial_state());
    assert(apply_events(one) == apply_event(initial_state(), (rename, seq![f, t])));
    assert(!Map::<Seq<char>, PathChange>::empty().contains_key(f));
    let m = merged_status(one);
    assert(m =~= Map::<Seq<char>, PathChange>::empty().insert(t, PathChange::MovedFrom(f)));
    let c = changes_of(m);
    assert(c.moved =~= Map::<Seq<char>, Seq<char>>::empty().insert(t, f));
    assert(c.added =~= Set::<Seq<char>>::empty());
    assert(c.modified =~= Set::<Seq<char>>::empty());
    assert(c.deleted =~= Set::<Seq<char>>::empty());
}

/// One notification alone is reported as itself: a creation as added, any
/// modification as modified, a removal as deleted, the source half of a
/// rename whose target never comes as deleted, a read as nothing.
pub proof fn lemma_single_notification_reported(kind: RawEventKind, p: Seq<char>)
    ensures
        kind == RawEventKind::Create ==> merged_status(seq![(kind, seq![p])])
            == Map::<Seq<char>, PathChange>::empty().insert(p, PathChange::Added),
        is_modify(kind) ==> merged_status(seq![(kind, seq![p])]) == Map::<
            Seq<char>,
            PathChange,
        >::empty().insert(p, PathChange::Modified),
        kind == RawEventKind::Remove ==> merged_status(seq![(kind, seq![p])]) == Map::<
            Seq<char>,
            PathChange,
        >::empty().insert(p, PathChange::Deleted),
        kind == RawEventKind::RenameFrom ==> merged_status(seq![(kind, seq![p])]) == Map::<
            Seq<char>,
            PathChange,
        >::empty().insert(p, PathChange::Deleted),
        kind == RawEventKind::Access ==> merged_status(seq![(kind, seq![p])]) == Map::<
            Seq<char>,
            PathChange,
        >::empty(),
{
    let es = seq![(kind, seq![p])];
    assert(es.drop_last() =~= Seq::<(RawEventKind, Seq<Seq<char>>)>::empty());
    assert(seq![p].drop_last() =~= Seq::<Seq<char>>::empty());
    assert(apply_events(es.drop_last()) == initial_state());
    assert(apply_paths(kind, initial_state(), seq![p].drop_last()) == initial_state());
    assert(!Map::<Seq<char>, PathChange>::empty().contains_key(p));
}

/// A file created and then renamed is reported added under its new name
/// only.
pub proof fn lemma_create_then_rename_is_added(m: Map<Seq<char>, PathChange>, a: Seq<char>, b: Seq<char>)
    requires
        a != b,
        !m.contains_key(a),
        !m.contains_key(b),
    ensures
        st_rename(st_create(m, a), a, b) == m.insert(b, PathChange::Added),
{
    assert(m.insert(a, PathChange::Added).remove(a) =~= m);
}

/// A file renamed and then removed under its new name is reported deleted
/// under its old name only.
pub proof fn lemma_rename_then_remove_is_delete(m: Map<Seq<char>, PathChange>, a: Seq<char>, b: Seq<char>)
    requires
        a != b,
        !m.contains_key(a),
        !m.contains_key(b),
    ensures
        st_remove(st_rename(m, a, b), b) == m.insert(a, PathChange::Deleted),
{
    assert(m.insert(b, PathChange::MovedFrom(a)).remove(b) =~= m);
}

} // verus!
