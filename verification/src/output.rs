//! Reconciling rendered text with the output tree: whether a target is new,
//! changed or unchanged, and the record of what a run has found.

use vstd::prelude::*;
use vstd::utf8::encode_utf8;

verus! {

/// How freshly rendered text stands to the file at its target.
#[derive(Debug, Clone, Copy, PartialEq, Eq, Structural)]
pub enum Status {
    /// There is no file at the target.
    New,
    /// The file at the target holds something else.
    Changed,
    /// The file at the target holds the text, byte for byte.
    Unchanged,
}

impl Status {
    /// The word that a report shows for the status.
    pub open spec fn label_text(self) -> Seq<char> {
        match self {
            Status::New => "new"@,
            Status::Changed => "changed"@,
            Status::Unchanged => "unchanged"@,
        }
    }

    /// The word that a report shows for the status.
    pub fn label(&self) -> (r: String)
        ensures
            r@ == self.label_text(),
    {
        match self {
            Status::New => "new".to_owned(),
            Status::Changed => "changed".to_owned(),
            Status::Unchanged => "unchanged".to_owned(),
        }
    }
}

/// The status of a target whose file holds `existing` (`None`: there is no
/// file), for the bytes `formatted` that would be written to it.
pub open spec fn classify(existing: Option<Seq<u8>>, formatted: Seq<u8>) -> Status {
    match existing {
        None => Status::New,
        Some(content) => if content == formatted {
            Status::Unchanged
        } else {
            Status::Changed
        },
    }
}

/// The bytes of an optional file content.
pub open spec fn content_view(existing: Option<&[u8]>) -> Option<Seq<u8>> {
    match existing {
        Some(c) => Some(c@),
        None => None,
    }
}

/// Classifies a target: `existing` is what its file holds, `None` where there
/// is no file; `formatted` is the rendered text after formatting. Nothing is
/// written.
pub fn status(existing: Option<&[u8]>, formatted: &str) -> (r: Status)
    ensures
        r == classify(content_view(existing), encode_utf8(formatted@)),
{
    match existing {
        None => Status::New,
        Some(content) => {
            let bytes = formatted.as_bytes();
            if content.len() != bytes.len() {
                return Status::Changed;
            }
            let mut i: usize = 0;
            while i < content.len()
                invariant
                    i <= content.len(),
                    content.len() == bytes.len(),
                    bytes@ == encode_utf8(formatted@),
                    existing == Some(content),
                    forall|j: int| 0 <= j < i ==> content[j] == bytes[j],
                decreases content.len() - i,
            {
                if content[i] != bytes[i] {
                    return Status::Changed;
                }
                i += 1;
            }
            assert(content@ =~= bytes@);
            Status::Unchanged
        },
    }
}

/// Whether a character parts the components of a path.
pub open spec fn is_separator(c: char) -> bool {
    c == '/' || c == '\\'
}

/// Whether `rest` has a component `..`, which leads out of the directory
/// that it is in.
pub open spec fn climbs(rest: Seq<char>) -> bool {
    exists|i: int| #[trigger] climbs_at(rest, i)
}

/// Whether a component `..` of `rest` begins at position `i`.
pub open spec fn climbs_at(rest: Seq<char>, i: int) -> bool {
    &&& 0 <= i
    &&& i + 1 < rest.len()
    &&& rest[i] == '.'
    &&& rest[i + 1] == '.'
    &&& i == 0 || is_separator(rest[i - 1])
    &&& i + 2 == rest.len() || is_separator(rest[i + 2])
}

/// Whether `path`, as it is written, lies within the directory `root`: it
/// begins with `root`, what follows begins a new component and has no
/// component `..`; within the empty root, the directory that a command runs
/// in, lies every path that does not begin with a separator and has no
/// component `..`.
pub open spec fn within(root: Seq<char>, path: Seq<char>) -> bool {
    let rest = path.skip(root.len() as int);
    &&& root.len() <= path.len()
    &&& path.take(root.len() as int) == root
    &&& !climbs(rest)
    &&& if root.len() == 0 {
        rest.len() == 0 || !is_separator(rest[0])
    } else {
        rest.len() == 0 || is_separator(root.last()) || is_separator(rest[0])
    }
}

/// Whether a character parts the components of a path.
fn separates(c: char) -> (b: bool)
    ensures
        b == is_separator(c),
{
    c == '/' || c == '\\'
}

/// Whether `path` lies within the directory `root`, as the two are
/// written. Nothing is looked up on disk.
pub fn lies_within(root: &str, path: &str) -> (b: bool)
    ensures
        b == within(root@, path@),
{
    let n = root.unicode_len();
    let m = path.unicode_len();
    if n > m {
        return false;
    }
    let mut i: usize = 0;
    while i < n
        invariant
            i <= n <= m,
            n == root@.len(),
            m == path@.len(),
            forall|j: int| 0 <= j < i ==> root@[j] == path@[j],
        decreases n - i,
    {
        if root.get_char(i) != path.get_char(i) {
            assert(path@.take(n as int)[i as int] != root@[i as int]);
            return false;
        }
        i += 1;
    }
    assert(path@.take(n as int) =~= root@);
    let ghost rest = path@.skip(n as int);
    if n < m {
        let first = separates(path.get_char(n));
        assert(rest[0] == path@[n as int]);
        if n == 0 {
            if first {
                return false;
            }
        } else if !first && !separates(root.get_char(n - 1)) {
            return false;
        }
    }
    let mut k: usize = n;
    while k < m
        invariant
            n <= k <= m,
            n == root@.len(),
            m == path@.len(),
            rest == path@.skip(n as int),
            forall|j: int| 0 <= j < k - n ==> !climbs_at(rest, j),
        decreases m - k,
    {
        proof {
            assert(rest[k - n] == path@[k as int]);
        }
        if path.get_char(k) == '.' && k + 1 < m && path.get_char(k + 1) == '.' {
            let before = k == n || separates(path.get_char(k - 1));
            let after = k + 2 == m || separates(path.get_char(k + 2));
            proof {
                assert(rest[k - n + 1] == path@[k + 1]);
                if k > n {
                    assert(rest[k - n - 1] == path@[k - 1]);
                }
                if k + 2 < m {
                    assert(rest[k - n + 2] == path@[k + 2]);
                }
            }
            if before && after {
                assert(climbs_at(rest, k - n));
                return false;
            }
        }
        assert(!climbs_at(rest, k - n));
        k += 1;
    }
    assert(!climbs(rest)) by {
        assert forall|j: int| !climbs_at(rest, j) by {
            if 0 <= j < rest.len() {
                assert(j < k - n);
            }
        }
    }
    true
}

/// An output tree: for each path that has a file, what the file holds.
pub type Tree = Map<Seq<char>, Seq<u8>>;

/// A formatter: a function from text to text.
pub type Formatting = spec_fn(Seq<char>) -> Seq<char>;

/// The formatting of a manifest without formatter: the text as it is.
pub open spec fn unformatted() -> Formatting {
    |text: Seq<char>| text
}

/// The output tree after `text`, once formatted, is written to `path`.
pub open spec fn written(tree: Tree, path: Seq<char>, formatter: Formatting, text: Seq<char>) -> Tree {
    tree.insert(path, encode_utf8(formatter(text)))
}

/// The status of `path` in an output tree, for `text` once formatted.
pub open spec fn status_in(tree: Tree, path: Seq<char>, formatter: Formatting, text: Seq<char>) -> Status {
    classify(
        if tree.contains_key(path) {
            Some(tree[path])
        } else {
            None
        },
        encode_utf8(formatter(text)),
    )
}

/// Writing a text and then asking for the status of the same path, with the
/// same formatter and text, gives `Unchanged`, whatever the tree held before
/// and whatever the formatter does.
pub proof fn law_write_then_status(tree: Tree, path: Seq<char>, formatter: Formatting, text: Seq<char>)
    ensures
        status_in(written(tree, path, formatter, text), path, formatter, text) == Status::Unchanged,
{
}

/// A path without file is `New`; a file that holds the formatted text is
/// `Unchanged`; a file that holds anything else is `Changed`.
pub proof fn law_status_classifies(tree: Tree, path: Seq<char>, formatter: Formatting, text: Seq<char>)
    ensures
        !tree.contains_key(path) ==> status_in(tree, path, formatter, text) == Status::New,
        tree.contains_key(path) && tree[path] == encode_utf8(formatter(text)) ==> status_in(
            tree,
            path,
            formatter,
            text,
        ) == Status::Unchanged,
        tree.contains_key(path) && tree[path] != encode_utf8(formatter(text)) ==> status_in(
            tree,
            path,
            formatter,
            text,
        ) == Status::Changed,
{
}

/// Asking for a status changes nothing, and writing to one path leaves the
/// status of every other path as it was.
pub proof fn law_write_is_local(
    tree: Tree,
    path: Seq<char>,
    other: Seq<char>,
    formatter: Formatting,
    text: Seq<char>,
    other_text: Seq<char>,
)
    requires
        path != other,
    ensures
        status_in(written(tree, path, formatter, text), other, formatter, other_text) == status_in(
            tree,
            other,
            formatter,
            other_text,
        ),
{
}

/// The map that a sequence of recordings makes: a later recording of a path
/// replaces an earlier one.
pub open spec fn recorded(entries: Seq<(Seq<char>, Status)>) -> Map<Seq<char>, Status>
    decreases entries.len(),
{
    if entries.len() == 0 {
        Map::empty()
    } else {
        recorded(entries.drop_last()).insert(entries.last().0, entries.last().1)
    }
}

/// Whether every path of `m` is `Unchanged`.
pub open spec fn all_unchanged(m: Map<Seq<char>, Status>) -> bool {
    forall|p: Seq<char>| m.contains_key(p) ==> #[trigger] m[p] == Status::Unchanged
}

/// The paths of `recorded` are those of the recordings, and each has the
/// status of its last recording.
proof fn lemma_recorded(entries: Seq<(Seq<char>, Status)>)
    ensures
        forall|p: Seq<char>|
            #[trigger] recorded(entries).contains_key(p) <==> exists|i: int|
                0 <= i < entries.len() && (#[trigger] entries[i]).0 == p,
        forall|i: int|
            0 <= i < entries.len() && (forall|j: int|
                i < j < entries.len() ==> (#[trigger] entries[j]).0 != entries[i].0)
                ==> recorded(entries)[(#[trigger] entries[i]).0] == entries[i].1,
    decreases entries.len(),
{
    if entries.len() > 0 {
        let front = entries.drop_last();
        let last = entries.last();
        lemma_recorded(front);
        assert forall|p: Seq<char>| #[trigger]
            recorded(entries).contains_key(p) implies exists|i: int|
            0 <= i < entries.len() && (#[trigger] entries[i]).0 == p by {
            if p == last.0 {
                assert(entries[entries.len() - 1].0 == p);
            } else {
                assert(recorded(front).contains_key(p));
                let i = choose|i: int| 0 <= i < front.len() && (#[trigger] front[i]).0 == p;
                assert(entries[i].0 == p);
            }
        }
        assert forall|p: Seq<char>|
            (exists|i: int|
                0 <= i < entries.len() && (#[trigger] entries[i]).0 == p) implies #[trigger] recorded(
            entries,
        ).contains_key(p) by {
            let i = choose|i: int| 0 <= i < entries.len() && (#[trigger] entries[i]).0 == p;
            if i < front.len() {
                assert(front[i].0 == p);
                assert(recorded(front).contains_key(p));
            }
        }
        assert forall|i: int|
            0 <= i < entries.len() && (forall|j: int|
                i < j < entries.len() ==> (#[trigger] entries[j]).0
                    != entries[i].0) implies recorded(entries)[(#[trigger] entries[i]).0]
            == entries[i].1 by {
            if i < front.len() {
                assert(entries[entries.len() - 1].0 != entries[i].0);
                assert(front[i] == entries[i]);
                assert forall|j: int| i < j < front.len() implies (#[trigger] front[j]).0
                    != front[i].0 by {
                    assert(entries[j].0 != entries[i].0);
                }
            }
        }
    }
}

/// What a run has found: for each path that it classified, the status.
#[derive(Debug)]
pub struct StatusMap {
    entries: Vec<(String, Status)>,
}

/// The mathematical values of a sequence of recordings.
pub open spec fn entry_views(entries: Seq<(String, Status)>) -> Seq<(Seq<char>, Status)> {
    Seq::new(entries.len(), |i: int| (entries[i].0@, entries[i].1))
}

impl View for StatusMap {
    type V = Map<Seq<char>, Status>;

    closed spec fn view(&self) -> Map<Seq<char>, Status> {
        recorded(entry_views(self.entries@))
    }
}

impl StatusMap {
    /// Nothing found yet.
    pub fn new() -> (r: Self)
        ensures
            r@ == Map::<Seq<char>, Status>::empty(),
    {
        let entries: Vec<(String, Status)> = Vec::new();
        assert(entry_views(entries@) =~= Seq::<(Seq<char>, Status)>::empty());
        Self { entries }
    }

    /// Records the status of a path. A path that was recorded before has the
    /// new status from now on.
    pub fn insert(&mut self, path: String, status: Status)
        ensures
            final(self)@ == old(self)@.insert(path@, status),
    {
        let ghost before = entry_views(self.entries@);
        self.entries.push((path, status));
        proof {
            let after = entry_views(self.entries@);
            assert(after.drop_last() =~= before);
            assert(after.last() == (path@, status));
        }
    }

    /// Whether the path of recording `i` was recorded again after it.
    fn recorded_again(&self, i: usize) -> (b: bool)
        requires
            i < self.entries.len(),
        ensures
            b == exists|l: int|
                i < l < self.entries.len() && (#[trigger] entry_views(self.entries@)[l]).0
                    == entry_views(self.entries@)[i as int].0,
    {
        let ghost es = entry_views(self.entries@);
        let mut j: usize = i + 1;
        while j < self.entries.len()
            invariant
                i < j <= self.entries.len(),
                es == entry_views(self.entries@),
                forall|l: int| i < l < j ==> (#[trigger] es[l]).0 != es[i as int].0,
            decreases self.entries.len() - j,
        {
            if self.entries[j].0 == self.entries[i].0 {
                assert(es[j as int].0 == es[i as int].0);
                return true;
            }
            assert(es[j as int].0 != es[i as int].0);
            j += 1;
        }
        false
    }

    /// Whether every path that was recorded is `Unchanged`. True where
    /// nothing was recorded.
    pub fn all_unchanged(&self) -> (b: bool)
        ensures
            b == all_unchanged(self@),
    {
        let ghost es = entry_views(self.entries@);
        proof {
            lemma_recorded(es);
        }
        let n = self.entries.len();
        let mut i: usize = 0;
        while i < n
            invariant
                i <= n,
                n == self.entries.len(),
                es == entry_views(self.entries@),
                forall|k: int|
                    0 <= k < i && (forall|j: int|
                        k < j < n ==> (#[trigger] es[j]).0 != es[k].0) ==> (#[trigger] es[k]).1
                        == Status::Unchanged,
            decreases n - i,
        {
            if self.entries[i].1 != Status::Unchanged && !self.recorded_again(i) {
                proof {
                    lemma_recorded(es);
                    let p = es[i as int].0;
                    assert(recorded(es)[es[i as int].0] == es[i as int].1);
                    assert(recorded(es).contains_key(p));
                }
                return false;
            }
            i += 1;
        }
        proof {
            assert forall|p: Seq<char>| recorded(es).contains_key(p) implies #[trigger] recorded(
                es,
            )[p] == Status::Unchanged by {
                lemma_last_recording(es, p);
                let k = choose|k: int|
                    0 <= k < es.len() && (#[trigger] es[k]).0 == p && forall|j: int|
                        k < j < es.len() ==> (#[trigger] es[j]).0 != p;
                assert(recorded(es)[es[k].0] == es[k].1);
            }
        }
        true
    }

    /// The status that was last recorded for `path`.
    pub fn get(&self, path: &str) -> (r: Option<Status>)
        ensures
            match r {
                Some(s) => self@.contains_key(path@) && self@[path@] == s,
                None => !self@.contains_key(path@),
            },
    {
        let ghost es = entry_views(self.entries@);
        proof {
            lemma_recorded(es);
        }
        let wanted = path.to_owned();
        let mut i: usize = self.entries.len();
        while i > 0
            invariant
                i <= self.entries.len(),
                wanted@ == path@,
                es == entry_views(self.entries@),
                forall|j: int| i <= j < es.len() ==> (#[trigger] es[j]).0 != path@,
            decreases i,
        {
            i -= 1;
            if self.entries[i].0 == wanted {
                proof {
                    lemma_recorded(es);
                    assert(es[i as int].0 == path@);
                    assert(recorded(es)[es[i as int].0] == es[i as int].1);
                }
                return Some(self.entries[i].1);
            }
            assert(es[i as int].0 != path@);
        }
        None
    }
}

/// A path that was recorded has a last recording.
proof fn lemma_last_recording(entries: Seq<(Seq<char>, Status)>, p: Seq<char>)
    requires
        exists|i: int| 0 <= i < entries.len() && (#[trigger] entries[i]).0 == p,
    ensures
        exists|k: int|
            0 <= k < entries.len() && (#[trigger] entries[k]).0 == p && forall|j: int|
                k < j < entries.len() ==> (#[trigger] entries[j]).0 != p,
    decreases entries.len(),
{
    let n = entries.len() as int;
    if entries[n - 1].0 == p {
        assert(entries[n - 1].0 == p && forall|j: int|
            n - 1 < j < entries.len() ==> (#[trigger] entries[j]).0 != p);
    } else {
        let front = entries.drop_last();
        let i = choose|i: int| 0 <= i < entries.len() && (#[trigger] entries[i]).0 == p;
        assert(front[i].0 == p);
        lemma_last_recording(front, p);
        let k = choose|k: int|
            0 <= k < front.len() && (#[trigger] front[k]).0 == p && forall|j: int|
                k < j < front.len() ==> (#[trigger] front[j]).0 != p;
        assert forall|j: int| k < j < entries.len() implies (#[trigger] entries[j]).0 != p by {
            if j < front.len() {
                assert(front[j].0 != p);
            }
        }
        assert(entries[k].0 == p);
    }
}

} // verus!
