//! The output ledger: every path one generator run writes, and the rule of
//! the sweep that deletes the generated files it did not.
//!
//! The generator overwrites its outputs in place. When a schema leaves the
//! schema set, or a message renames a common struct, the file from the
//! previous run stays on disk. [`Written`] closes that hole: each write
//! records its path, and the sweep removes every generated file that the run
//! did not write. The file system work stays with the caller.
//!
//! Paths are compared by their components, as `std::path::Path` compares them
//! on Unix: repeated separators, a trailing separator and a `.` anywhere but
//! at the start do not count, so `out//x.rs`, `out/./x.rs` and `out/x.rs` name
//! one file.

use vstd::prelude::*;
use vstd::string::StrSliceExecFns;

use crate::text::str_eq;

verus! {

// ---------------------------------------------------------------------------
// Path components
// ---------------------------------------------------------------------------

/// `parts` with the segment `part` added, unless it is empty or `.`.
pub open spec fn keep_part(parts: Seq<Seq<char>>, part: Seq<char>) -> Seq<Seq<char>> {
    if part.len() == 0 || part == "."@ {
        parts
    } else {
        parts.push(part)
    }
}

/// The kept segments of `s` before its last `/`, and the segment after it.
pub open spec fn split_parts(s: Seq<char>) -> (Seq<Seq<char>>, Seq<char>)
    decreases s.len(),
{
    if s.len() == 0 {
        (Seq::empty(), Seq::empty())
    } else {
        let (ps, cur) = split_parts(s.drop_last());
        if s.last() == '/' {
            (keep_part(ps, cur), Seq::empty())
        } else {
            (ps, cur.push(s.last()))
        }
    }
}

/// The named components of the path `s`: its segments between `/`, without
/// empty segments and without `.`.
pub open spec fn path_parts(s: Seq<char>) -> Seq<Seq<char>> {
    keep_part(split_parts(s).0, split_parts(s).1)
}

/// What the components of the path `s` are made of: whether it opens at the
/// root, whether it opens with a `.` component, and its named components.
pub open spec fn path_key(s: Seq<char>) -> (bool, bool, Seq<Seq<char>>) {
    (
        s.len() > 0 && s[0] == '/',
        s.len() > 0 && s[0] == '.' && (s.len() == 1 || s[1] == '/'),
        path_parts(s),
    )
}

/// `ws` holds a path with the components of `p`.
pub open spec fn holds_path(ws: Seq<Seq<char>>, p: Seq<char>) -> bool {
    exists|i: int| 0 <= i < ws.len() && path_key(#[trigger] ws[i]) == path_key(p)
}

/// No two paths of `ws` have the same components.
pub open spec fn distinct_paths(ws: Seq<Seq<char>>) -> bool {
    forall|i: int, j: int|
        0 <= i < ws.len() && 0 <= j < ws.len() && i != j ==> path_key(#[trigger] ws[i])
            != path_key(#[trigger] ws[j])
}

/// The view of a list of strings.
pub open spec fn texts(v: Seq<String>) -> Seq<Seq<char>> {
    v.map_values(|p: String| p@)
}

fn keep_segment(parts: &mut Vec<String>, part: String)
    ensures
        texts(final(parts)@) == keep_part(texts(old(parts)@), part@),
{
    if part.as_str().is_empty() || str_eq(part.as_str(), ".") {
        return;
    }
    let ghost before = texts(parts@);
    parts.push(part);
    assert(texts(parts@) =~= before.push(part@));
}

/// The root flag, the `.` flag and the named components of the path `s`.
fn path_key_of(s: &str) -> (r: (bool, bool, Vec<String>))
    ensures
        r.0 == path_key(s@).0,
        r.1 == path_key(s@).1,
        texts(r.2@) == path_key(s@).2,
{
    let n = s.unicode_len();
    let rooted = n > 0 && s.get_char(0) == '/';
    let dotted = n > 0 && s.get_char(0) == '.' && (n == 1 || s.get_char(1) == '/');
    let mut parts: Vec<String> = Vec::new();
    let mut cur = String::new();
    let mut i: usize = 0;
    assert(s@.take(0) =~= Seq::<char>::empty());
    assert(texts(parts@) =~= Seq::<Seq<char>>::empty());
    while i < n
        invariant
            i <= n,
            n == s@.len(),
            (texts(parts@), cur@) == split_parts(s@.take(i as int)),
        decreases n - i,
    {
        let c = s.get_char(i);
        assert(s@.take(i + 1).drop_last() =~= s@.take(i as int));
        assert(s@.take(i + 1).last() == c);
        if c == '/' {
            let part = cur;
            cur = String::new();
            keep_segment(&mut parts, part);
            assert(cur@ =~= Seq::<char>::empty());
        } else {
            let one = s.substring_char(i, i + 1);
            assert(one@ =~= seq![c]);
            cur.append(one);
        }
        i = i + 1;
    }
    assert(s@.take(n as int) =~= s@);
    keep_segment(&mut parts, cur);
    (rooted, dotted, parts)
}

fn same_parts(a: &Vec<String>, b: &Vec<String>) -> (r: bool)
    ensures
        r == (texts(a@) == texts(b@)),
{
    if a.len() != b.len() {
        assert(texts(a@).len() != texts(b@).len());
        return false;
    }
    let mut i: usize = 0;
    while i < a.len()
        invariant
            i <= a@.len(),
            a@.len() == b@.len(),
            forall|j: int| 0 <= j < i ==> a@[j]@ == b@[j]@,
        decreases a@.len() - i,
    {
        if !str_eq(a[i].as_str(), b[i].as_str()) {
            assert(texts(a@)[i as int] != texts(b@)[i as int]);
            return false;
        }
        i = i + 1;
    }
    assert(texts(a@) =~= texts(b@));
    true
}

// ---------------------------------------------------------------------------
// The ledger
// ---------------------------------------------------------------------------

/// The paths one generator run wrote, each once by its components, in the
/// order of their first write.
#[derive(Debug)]
pub struct Written(Vec<String>);

impl View for Written {
    type V = Seq<Seq<char>>;

    closed spec fn view(&self) -> Seq<Seq<char>> {
        texts(self.0@)
    }
}

impl Default for Written {
    /// A run that wrote nothing yet.
    fn default() -> (w: Self)
        ensures
            w@ == Seq::<Seq<char>>::empty(),
    {
        let w = Written(Vec::new());
        assert(w@ =~= Seq::<Seq<char>>::empty());
        w
    }
}

impl Written {
    /// No two recorded paths name the same file.
    pub open spec fn well_formed(&self) -> bool {
        distinct_paths(self@)
    }

    #[verifier::type_invariant]
    closed spec fn paths_once(self) -> bool {
        distinct_paths(self@)
    }

    /// Records that the run wrote `path`. A path already recorded, under any
    /// spelling of its components, is recorded once.
    pub fn record(&mut self, path: String)
        ensures
            final(self).well_formed(),
            holds_path(old(self)@, path@) ==> final(self)@ == old(self)@,
            !holds_path(old(self)@, path@) ==> final(self)@ == old(self)@.push(path@),
    {
        proof {
            use_type_invariant(&*self);
        }
        if self.contains(path.as_str()) {
            return;
        }
        let ghost before = self@;
        let mut paths: Vec<String> = Vec::new();
        std::mem::swap(&mut paths, &mut self.0);
        assert(texts(paths@) == before);
        paths.push(path);
        assert(texts(paths@) =~= before.push(path@));
        proof {
            let q = before.push(path@);
            assert forall|i: int, j: int|
                0 <= i < q.len() && 0 <= j < q.len() && i != j implies path_key(#[trigger] q[i])
                != path_key(#[trigger] q[j]) by {
                if i < before.len() && j < before.len() {
                    assert(q[i] == before[i] && q[j] == before[j]);
                } else if i == before.len() {
                    assert(q[j] == before[j]);
                } else {
                    assert(q[i] == before[i]);
                }
            }
        }
        self.0 = paths;
        assert(self@ =~= before.push(path@));
    }

    /// True when this run wrote `path`, under any spelling of its components.
    pub fn contains(&self, path: &str) -> (r: bool)
        ensures
            r == holds_path(self@, path@),
    {
        let (root, dot, parts) = path_key_of(path);
        let mut i: usize = 0;
        while i < self.0.len()
            invariant
                i <= self.0@.len(),
                root == path_key(path@).0,
                dot == path_key(path@).1,
                texts(parts@) == path_key(path@).2,
                forall|j: int| 0 <= j < i ==> path_key(#[trigger] self@[j]) != path_key(path@),
            decreases self.0@.len() - i,
        {
            let (r2, d2, p2) = path_key_of(self.0[i].as_str());
            assert(self@[i as int] == self.0@[i as int]@);
            if r2 == root && d2 == dot && same_parts(&p2, &parts) {
                return true;
            }
            i = i + 1;
        }
        false
    }

    /// Whether the sweep removes the file at `path`: a generated file, one
    /// that opens with the generated-file banner, that this run did not
    /// write. Every other file stays, so a hand-written file in an output
    /// directory does not lose data.
    pub fn should_prune(&self, path: &str, generated: bool) -> (r: bool)
        ensures
            r == (generated && !holds_path(self@, path@)),
    {
        generated && !self.contains(path)
    }
}

/// The ledger after a run that recorded `paths` in order, from an empty one:
/// each step of [`Written::record`].
pub open spec fn ledger_after(paths: Seq<Seq<char>>) -> Seq<Seq<char>>
    decreases paths.len(),
{
    if paths.len() == 0 {
        Seq::empty()
    } else {
        let prev = ledger_after(paths.drop_last());
        if holds_path(prev, paths.last()) {
            prev
        } else {
            prev.push(paths.last())
        }
    }
}

/// A ledger that started empty holds a path exactly when the run recorded it
/// under some spelling of its components, and holds each file once, so
/// `contains` answers whether the run wrote a file.
pub proof fn lemma_ledger_holds_the_recorded_paths(paths: Seq<Seq<char>>)
    ensures
        forall|p: Seq<char>| holds_path(ledger_after(paths), p) <==> holds_path(paths, p),
        distinct_paths(ledger_after(paths)),
    decreases paths.len(),
{
    if paths.len() > 0 {
        let init = paths.drop_last();
        let last = paths.last();
        lemma_ledger_holds_the_recorded_paths(init);
        let prev = ledger_after(init);
        assert forall|p: Seq<char>| holds_path(ledger_after(paths), p) <==> holds_path(paths, p) by {
            if holds_path(paths, p) {
                let i = choose|i: int| 0 <= i < paths.len() && path_key(#[trigger] paths[i]) == path_key(p);
                if i < paths.len() - 1 {
                    assert(path_key(init[i]) == path_key(p));
                    assert(holds_path(init, p));
                    assert(holds_path(prev, p));
                    let k = choose|k: int| 0 <= k < prev.len() && path_key(#[trigger] prev[k]) == path_key(p);
                    if !holds_path(prev, last) {
                        assert(prev.push(last)[k] == prev[k]);
                    }
                } else {
                    if !holds_path(prev, last) {
                        assert(prev.push(last)[prev.len() as int] == last);
                    } else {
                        let k = choose|k: int| 0 <= k < prev.len() && path_key(#[trigger] prev[k]) == path_key(last);
                        assert(path_key(prev[k]) == path_key(p));
                    }
                }
            }
            if holds_path(ledger_after(paths), p) {
                if holds_path(prev, p) {
                    assert(holds_path(init, p));
                    let k = choose|k: int| 0 <= k < init.len() && path_key(#[trigger] init[k]) == path_key(p);
                    assert(paths[k] == init[k]);
                } else {
                    let q = prev.push(last);
                    let k = choose|k: int| 0 <= k < q.len() && path_key(#[trigger] q[k]) == path_key(p);
                    if k < prev.len() {
                        assert(q[k] == prev[k]);
                    }
                    assert(k == prev.len());
                    assert(paths[paths.len() - 1] == last);
                }
            }
        }
        if !holds_path(prev, last) {
            let q = prev.push(last);
            assert forall|i: int, j: int|
                0 <= i < q.len() && 0 <= j < q.len() && i != j implies path_key(#[trigger] q[i])
                != path_key(#[trigger] q[j]) by {
                if i < prev.len() && j < prev.len() {
                    assert(q[i] == prev[i] && q[j] == prev[j]);
                } else if i == prev.len() {
                    assert(q[j] == prev[j]);
                } else {
                    assert(q[i] == prev[i]);
                }
            }
        }
    }
}

} // verus!
