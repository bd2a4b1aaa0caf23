//! The buffers as sources: what is read is what the buffers hold, not what is on
//! disk, and nothing outside of the workspace.

use vstd::prelude::*;
use vstd::string::*;

use crate::native_io::is_before;
use crate::text::{byte_len, concat2, concat3, decimal_string, join_lines, str_eq};
use crate::{native_io, text};

verus! {

/// The parts of a path between the slashes, empty ones as well.
pub open spec fn parts(s: Seq<char>) -> Seq<Seq<char>>
    decreases s.len(),
{
    if s.len() == 0 {
        seq![Seq::<char>::empty()]
    } else {
        let before = parts(s.drop_last());
        if s.last() == '/' {
            before.push(Seq::<char>::empty())
        } else {
            before.drop_last().push(before.last().push(s.last()))
        }
    }
}

/// Whether a part of a path names something: it is not empty and not a dot.
pub open spec fn is_step(part: Seq<char>) -> bool {
    part.len() > 0 && part != "."@
}

/// The parts of a path that name something.
pub open spec fn steps(s: Seq<char>) -> Seq<Seq<char>> {
    named_parts(parts(s))
}

pub open spec fn named_parts(all: Seq<Seq<char>>) -> Seq<Seq<char>>
    decreases all.len(),
{
    if all.len() == 0 {
        seq![]
    } else if is_step(all.last()) {
        named_parts(all.drop_last()).push(all.last())
    } else {
        named_parts(all.drop_last())
    }
}

/// Whether a path starts at the root.
pub open spec fn is_absolute(s: Seq<char>) -> bool {
    s.len() > 0 && s[0] == '/'
}

/// A path behind a directory.
pub open spec fn under(root: Seq<char>, relative: Seq<char>) -> Seq<char> {
    if root.len() == 0 || root.last() == '/' {
        root + relative
    } else {
        root + "/"@ + relative
    }
}

fn split_parts(s: &str) -> (r: Vec<String>)
    ensures
        text::views(r@) == parts(s@),
{
    let chars = text::str_chars(s);
    let mut r: Vec<String> = Vec::new();
    let mut part = String::new();
    let mut i: usize = 0;
    assert(chars@.take(0) =~= seq![]);
    assert(text::views(r@).push(part@) =~= seq![Seq::<char>::empty()]);
    while i < chars.len()
        invariant
            i <= chars@.len(),
            text::views(r@).push(part@) == parts(chars@.take(i as int)),
        decreases chars.len() - i,
    {
        let ghost before = text::views(r@);
        assert(chars@.take(i + 1).drop_last() =~= chars@.take(i as int));
        assert(chars@.take(i + 1).last() == chars@[i as int]);
        assert(before.push(part@).drop_last() =~= before);
        if chars[i] == '/' {
            let ghost done = part@;
            r.push(part);
            part = String::new();
            assert(text::views(r@) =~= before.push(done));
            assert(part@ =~= Seq::<char>::empty());
        } else {
            part.push(chars[i]);
        }
        i = i + 1;
    }
    assert(chars@.take(i as int) =~= chars@);
    let ghost before = text::views(r@);
    let ghost last = part@;
    r.push(part);
    assert(text::views(r@) =~= before.push(last));
    r
}

fn split_steps(s: &str) -> (r: Vec<String>)
    ensures
        text::views(r@) == steps(s@),
{
    let all = split_parts(s);
    let ghost every = parts(s@);
    let mut r: Vec<String> = Vec::new();
    let mut i: usize = 0;
    assert(text::views(r@) =~= seq![]);
    assert(every.take(0) =~= seq![]);
    while i < all.len()
        invariant
            i <= all@.len(),
            every == text::views(all@),
            text::views(r@) == named_parts(every.take(i as int)),
        decreases all.len() - i,
    {
        let ghost before = text::views(r@);
        assert(every.take(i + 1).drop_last() =~= every.take(i as int));
        assert(every.take(i + 1).last() == all@[i as int]@);
        if text::char_count(all[i].as_str()) > 0 && !str_eq(all[i].as_str(), ".") {
            r.push(all[i].clone());
            assert(text::views(r@) =~= before.push(all@[i as int]@));
        }
        i = i + 1;
    }
    assert(every.take(i as int) =~= every);
    r
}

/// The last part of a path that names something, unless it leads up.
pub(crate) fn last_step(path: &str) -> (r: Option<String>)
    ensures
        match r {
            Some(s) => steps(path@).len() > 0 && s@ == steps(path@).last() && s@ != ".."@,
            None => steps(path@).len() == 0 || steps(path@).last() == ".."@,
        },
{
    let all = split_steps(path);
    assert(all@.len() == text::views(all@).len());
    if all.len() == 0 {
        return None;
    }
    let name = all[all.len() - 1].clone();
    assert(text::views(all@).last() == name@);
    if str_eq(name.as_str(), "..") {
        return None;
    }
    Some(name)
}

fn starts_at_root(s: &str) -> (r: bool)
    ensures
        r == is_absolute(s@),
{
    let chars = text::str_chars(s);
    chars.len() > 0 && chars[0] == '/'
}

fn join_path(root: &str, relative: &str) -> (r: String)
    ensures
        r@ == under(root@, relative@),
{
    let chars = text::str_chars(root);
    if chars.len() == 0 || chars[chars.len() - 1] == '/' {
        concat2(root, relative)
    } else {
        concat3(root, "/", relative)
    }
}

fn has_name(names: &Vec<String>, name: &str) -> (r: bool)
    ensures
        r == text::views(names@).contains(name@),
{
    let mut i: usize = 0;
    while i < names.len()
        invariant
            i <= names@.len(),
            forall|k: int| 0 <= k < i ==> #[trigger] names@[k]@ != name@,
        decreases names.len() - i,
    {
        if str_eq(names[i].as_str(), name) {
            assert(text::views(names@)[i as int] == name@);
            return true;
        }
        i = i + 1;
    }
    proof {
        let v = text::views(names@);
        assert forall|k: int| 0 <= k < v.len() implies v[k] != name@ by {
            assert(names@[k]@ != name@);
        }
    }
    false
}

/// The path of a source in the workspace; none where it would lead out of it.
pub open spec fn source_place(root: Seq<char>, relative: Seq<char>) -> Option<Seq<char>> {
    if is_absolute(relative) || parts(relative).contains(".."@) {
        None
    } else {
        Some(under(root, relative))
    }
}

/// The path of a source in the workspace; none where it would lead out of it.
pub fn source_path(root: &str, relative: &str) -> (r: Option<String>)
    ensures
        match r {
            Some(p) => source_place(root@, relative@) == Some(p@),
            None => source_place(root@, relative@) is None,
        },
{
    if starts_at_root(relative) || has_name(&split_parts(relative), "..") {
        None
    } else {
        Some(join_path(root, relative))
    }
}

/// The path that is to be made canonical before it is compared to the root.
pub fn absolute_source_path(root: &str, path: &str) -> (r: String)
    ensures
        r@ == if is_absolute(path@) {
            path@
        } else {
            under(root@, path@)
        },
{
    if starts_at_root(path) {
        path.to_owned()
    } else {
        join_path(root, path)
    }
}

/// What a path is called within the workspace; nothing where it is outside, or
/// is the workspace itself.
pub open spec fn relative_place(root: Seq<char>, absolute: Seq<char>) -> Option<Seq<char>> {
    let r = steps(root);
    let a = steps(absolute);
    if !is_absolute(absolute) || !r.is_prefix_of(a) || a.len() == r.len() || a.skip(
        r.len() as int,
    ).contains(".."@) {
        None
    } else {
        Some(text::joined(a.skip(r.len() as int), "/"@))
    }
}

/// What a path is called within the workspace.
pub fn source_relative_path(root: &str, absolute: &str) -> (r: Option<String>)
    requires
        is_absolute(root@),
    ensures
        match r {
            Some(p) => relative_place(root@, absolute@) == Some(p@),
            None => relative_place(root@, absolute@) is None,
        },
{
    if !starts_at_root(absolute) {
        return None;
    }
    let base = split_steps(root);
    let all = split_steps(absolute);
    match steps_behind(&base, &all) {
        None => None,
        Some(rest) => {
            if rest.len() == 0 || has_name(&rest, "..") {
                assert(rest@.len() == text::views(rest@).len());
                None
            } else {
                assert(rest@.len() == text::views(rest@).len());
                Some(join_lines(&rest, "/"))
            }
        },
    }
}

/// The steps of a path behind those of a directory.
fn steps_behind(base: &Vec<String>, all: &Vec<String>) -> (r: Option<Vec<String>>)
    ensures
        match r {
            Some(rest) => text::views(base@).is_prefix_of(text::views(all@)) && text::views(rest@)
                == text::views(all@).skip(base@.len() as int),
            None => !text::views(base@).is_prefix_of(text::views(all@)),
        },
{
    let ghost b = text::views(base@);
    let ghost a = text::views(all@);
    if base.len() > all.len() {
        return None;
    }
    let mut i: usize = 0;
    while i < base.len()
        invariant
            i <= base@.len() <= all@.len(),
            b == text::views(base@),
            a == text::views(all@),
            forall|k: int| 0 <= k < i ==> #[trigger] b[k] == a[k],
        decreases base.len() - i,
    {
        if !str_eq(base[i].as_str(), all[i].as_str()) {
            assert(b[i as int] != a[i as int]);
            assert(a.subrange(0, b.len() as int)[i as int] == a[i as int]);
            return None;
        }
        i = i + 1;
    }
    assert(b =~= a.subrange(0, b.len() as int));
    let mut rest: Vec<String> = Vec::new();
    let mut j: usize = base.len();
    assert(text::views(rest@) =~= a.subrange(b.len() as int, j as int));
    while j < all.len()
        invariant
            base@.len() <= j <= all@.len(),
            b == text::views(base@),
            a == text::views(all@),
            text::views(rest@) == a.subrange(b.len() as int, j as int),
        decreases all.len() - j,
    {
        let ghost before = text::views(rest@);
        rest.push(all[j].clone());
        assert(text::views(rest@) =~= before.push(a[j as int]));
        assert(a.subrange(b.len() as int, j + 1) =~= a.subrange(b.len() as int, j as int).push(
            a[j as int],
        ));
        j = j + 1;
    }
    assert(text::views(rest@) =~= a.skip(b.len() as int));
    Some(rest)
}

// --- Reading ---

/// A buffer that visits a file of the workspace.
#[derive(Debug)]
pub struct SourceBuffer {
    pub path: String,
    pub text: String,
    pub revision: u64,
}

/// The buffers that visit files of the workspace.
#[derive(Debug)]
pub struct RoeBufferSourceProvider {
    pub root: String,
    pub buffers: Vec<SourceBuffer>,
}

/// What comes of a request for a source.
#[derive(Debug)]
pub enum ReadOutcome {
    Absent,
    Failed(String),
    Found { text: String, version: String },
}

/// What a directory holds.
#[derive(Debug)]
pub struct SourceEntry {
    pub relative_path: String,
    pub is_directory: bool,
    pub name: String,
}

/// What comes of a request for the entries of a directory.
#[derive(Debug)]
pub enum ListOutcome {
    Absent,
    Found(Vec<SourceEntry>),
}

/// Whether two paths name the same place.
pub open spec fn same_place(a: Seq<char>, b: Seq<char>) -> bool {
    is_absolute(a) == is_absolute(b) && steps(a) == steps(b)
}

/// The last buffer with a path.
pub open spec fn last_at(buffers: Seq<SourceBuffer>, path: Seq<char>) -> Option<SourceBuffer>
    decreases buffers.len(),
{
    if buffers.len() == 0 {
        None
    } else if same_place(buffers.last().path@, path) {
        Some(buffers.last())
    } else {
        last_at(buffers.drop_last(), path)
    }
}

fn is_same_place(a: &str, b: &str) -> (r: bool)
    ensures
        r == same_place(a@, b@),
{
    if starts_at_root(a) != starts_at_root(b) {
        return false;
    }
    let x = split_steps(a);
    let y = split_steps(b);
    assert(x@.len() == text::views(x@).len());
    assert(y@.len() == text::views(y@).len());
    if x.len() != y.len() {
        return false;
    }
    let mut i: usize = 0;
    while i < x.len()
        invariant
            i <= x@.len() == y@.len(),
            text::views(x@) == steps(a@),
            text::views(y@) == steps(b@),
            forall|k: int| 0 <= k < i ==> #[trigger] x@[k]@ == y@[k]@,
        decreases x.len() - i,
    {
        if !str_eq(x[i].as_str(), y[i].as_str()) {
            assert(text::views(x@)[i as int] != text::views(y@)[i as int]);
            return false;
        }
        i = i + 1;
    }
    assert(text::views(x@) =~= text::views(y@));
    true
}

impl RoeBufferSourceProvider {
    /// Which buffer a request is for.
    pub open spec fn asked_for(
        &self,
        revision_kind: Seq<char>,
        root: Seq<char>,
        relative: Seq<char>,
    ) -> Option<SourceBuffer> {
        if revision_kind != "worktree"@ || root != self.root@ {
            None
        } else {
            match source_place(self.root@, relative) {
                Some(path) => last_at(self.buffers@, path),
                None => None,
            }
        }
    }

    /// Whether a kind of revisions is known here: only what is being worked on.
    pub fn supports_revision_kind(&self, kind: &str) -> (r: bool)
        ensures
            r == (kind@ == "worktree"@),
    {
        str_eq(kind, "worktree")
    }

    /// What a buffer holds of a source.
    pub fn read(&self, revision_kind: &str, root: &str, relative: &str, max_bytes: usize) -> (r:
        ReadOutcome)
        ensures
            match self.asked_for(revision_kind@, root@, relative@) {
                None => r is Absent,
                Some(b) => if text::utf8_len(b.text@) > max_bytes {
                    r matches ReadOutcome::Failed(m) && m@ == "live Roe buffer exceeds the "@
                        + text::decimal(max_bytes as nat) + " byte source bound"@
                } else {
                    r matches ReadOutcome::Found { text: t, version } && t@ == b.text@ && version@
                        == "roe-buffer:"@ + text::decimal(b.revision as nat)
                },
            },
    {
        if !str_eq(revision_kind, "worktree") || !str_eq(root, self.root.as_str()) {
            return ReadOutcome::Absent;
        }
        let path = match source_path(self.root.as_str(), relative) {
            Some(path) => path,
            None => return ReadOutcome::Absent,
        };
        let mut i: usize = self.buffers.len();
        assert(self.buffers@.take(i as int) =~= self.buffers@);
        while i > 0
            invariant
                i <= self.buffers@.len(),
                self.asked_for(revision_kind@, root@, relative@) == last_at(
                    self.buffers@.take(i as int),
                    path@,
                ),
            decreases i,
        {
            assert(self.buffers@.take(i as int).drop_last() =~= self.buffers@.take(i - 1));
            assert(self.buffers@.take(i as int).last() == self.buffers@[i - 1]);
            i = i - 1;
            let b = &self.buffers[i];
            if is_same_place(b.path.as_str(), path.as_str()) {
                if byte_len(b.text.as_str()) > max_bytes {
                    return ReadOutcome::Failed(
                        concat3(
                            "live Roe buffer exceeds the ",
                            decimal_string(max_bytes as u64).as_str(),
                            " byte source bound",
                        ),
                    );
                }
                return ReadOutcome::Found {
                    text: b.text.clone(),
                    version: concat2("roe-buffer:", decimal_string(b.revision).as_str()),
                };
            }
        }
        ReadOutcome::Absent
    }

    /// Whether an entry is one of a directory: a buffer is there, or below it.
    pub open spec fn is_entry(
        &self,
        directory: Seq<char>,
        relative_path: Seq<char>,
        is_directory: bool,
        name: Seq<char>,
        k: int,
    ) -> bool {
        let d = steps(directory);
        let p = steps(self.buffers@[k].path@);
        let r = steps(self.root@);
        &&& 0 <= k < self.buffers@.len()
        &&& is_absolute(self.buffers@[k].path@) == is_absolute(directory)
        &&& d.is_prefix_of(p)
        &&& p.len() > d.len()
        &&& p[d.len() as int] != ".."@
        &&& name == p[d.len() as int]
        &&& is_directory == (p.len() > d.len() + 1)
        &&& r.is_prefix_of(d.push(name))
        &&& relative_path == text::joined(d.push(name).skip(r.len() as int), "/"@)
    }

    fn entry_of(&self, directory: &str, k: usize) -> (r: Option<SourceEntry>)
        requires
            k < self.buffers@.len(),
        ensures
            match r {
                Some(e) => self.is_entry(
                    directory@,
                    e.relative_path@,
                    e.is_directory,
                    e.name@,
                    k as int,
                ),
                None => forall|relative_path: Seq<char>, is_directory: bool, name: Seq<char>|
                    !self.is_entry(directory@, relative_path, is_directory, name, k as int),
            },
    {
        let path = &self.buffers[k].path;
        if starts_at_root(path.as_str()) != starts_at_root(directory) {
            return None;
        }
        let mut d = split_steps(directory);
        let p = split_steps(path.as_str());
        let r = split_steps(self.root.as_str());
        let ghost dv = steps(directory@);
        let ghost pv = steps(path@);
        assert(d@.len() == dv.len());
        assert(p@.len() == pv.len());
        match steps_behind(&d, &p) {
            None => None,
            Some(rest) => {
                assert(rest@.len() == text::views(rest@).len());
                if rest.len() == 0 {
                    return None;
                }
                assert(text::views(rest@)[0] == pv[dv.len() as int]);
                if str_eq(rest[0].as_str(), "..") {
                    return None;
                }
                let name = rest[0].clone();
                let is_directory = rest.len() > 1;
                d.push(rest[0].clone());
                assert(text::views(d@) =~= dv.push(name@));
                match steps_behind(&r, &d) {
                    None => None,
                    Some(child) => {
                        let relative_path = join_lines(&child, "/");
                        Some(SourceEntry { relative_path, is_directory, name })
                    },
                }
            },
        }
    }

    /// Whether `e` is an entry of a directory.
    pub open spec fn belongs(&self, directory: Seq<char>, e: SourceEntry) -> bool {
        exists|k: int| #[trigger]
            self.is_entry(directory, e.relative_path@, e.is_directory, e.name@, k)
    }

    /// The entries of a directory, in the order of their paths, each path once.
    /// Which ones are left out where there are more than `limit` is open.
    pub fn list(&self, revision_kind: &str, root: &str, relative: &str, limit: usize) -> (r:
        ListOutcome)
        ensures
            if limit == 0 {
                r matches ListOutcome::Found(entries) && entries@.len() == 0
            } else if revision_kind@ != "worktree"@ || root@ != self.root@ || source_place(
                self.root@,
                relative@,
            ) is None {
                r is Absent
            } else {
                let directory = source_place(self.root@, relative@)->0;
                match r {
                    ListOutcome::Absent => forall|
                        k: int,
                        relative_path: Seq<char>,
                        is_directory: bool,
                        name: Seq<char>,
                    |
                        !#[trigger] self.is_entry(directory, relative_path, is_directory, name, k),
                    ListOutcome::Found(entries) => {
                        &&& 0 < entries@.len() <= limit
                        &&& native_io::is_ordered(entry_paths(entries@))
                        &&& forall|i: int|
                            0 <= i < entries@.len() ==> self.belongs(
                                directory,
                                #[trigger] entries@[i],
                            )
                        &&& entries@.len() < limit ==> forall|
                            k: int,
                            relative_path: Seq<char>,
                            is_directory: bool,
                            name: Seq<char>,
                        |
                            #[trigger] self.is_entry(
                                directory,
                                relative_path,
                                is_directory,
                                name,
                                k,
                            ) ==> entry_paths(entries@).contains(relative_path)
                    },
                }
            },
    {
        if limit == 0 {
            return ListOutcome::Found(Vec::new());
        }
        if !str_eq(revision_kind, "worktree") || !str_eq(root, self.root.as_str()) {
            return ListOutcome::Absent;
        }
        let directory = match source_path(self.root.as_str(), relative) {
            Some(directory) => directory,
            None => return ListOutcome::Absent,
        };
        let mut entries: Vec<SourceEntry> = Vec::new();
        let mut k: usize = 0;
        while k < self.buffers.len() && entries.len() < limit
            invariant
                k <= self.buffers@.len(),
                entries@.len() <= limit,
                native_io::is_ordered(entry_paths(entries@)),
                forall|i: int|
                    0 <= i < entries@.len() ==> self.belongs(directory@, #[trigger] entries@[i]),
                forall|
                    j: int,
                    relative_path: Seq<char>,
                    is_directory: bool,
                    name: Seq<char>,
                |
                    0 <= j < k && #[trigger] self.is_entry(
                        directory@,
                        relative_path,
                        is_directory,
                        name,
                        j,
                    ) ==> entry_paths(entries@).contains(relative_path),
            decreases self.buffers.len() - k,
        {
            let ghost before = entries@;
            match self.entry_of(directory.as_str(), k) {
                Some(e) => {
                    let ghost path = e.relative_path@;
                    assert(self.belongs(directory@, e));
                    insert_entry(&mut entries, e);
                    proof {
                        native_io::with_name_is_ordered(entry_paths(before), path);
                        assert forall|i: int| 0 <= i < entries@.len() implies self.belongs(
                            directory@,
                            #[trigger] entries@[i],
                        ) by {
                            if before.contains(entries@[i]) {
                                let x = before.index_of(entries@[i]);
                                assert(self.belongs(directory@, before[x]));
                            }
                        }
                    }
                },
                None => (),
            }
            k = k + 1;
        }
        if entries.len() == 0 {
            proof {
                assert forall|
                    j: int,
                    relative_path: Seq<char>,
                    is_directory: bool,
                    name: Seq<char>,
                |
                    !#[trigger] self.is_entry(
                        directory@,
                        relative_path,
                        is_directory,
                        name,
                        j,
                    ) by {
                    if self.is_entry(directory@, relative_path, is_directory, name, j) {
                        assert(entry_paths(entries@).contains(relative_path));
                    }
                }
            }
            ListOutcome::Absent
        } else {
            ListOutcome::Found(entries)
        }
    }
}

/// The paths of entries.
pub open spec fn entry_paths(entries: Seq<SourceEntry>) -> Seq<Seq<char>> {
    entries.map_values(|e: SourceEntry| e.relative_path@)
}

fn insert_entry(entries: &mut Vec<SourceEntry>, entry: SourceEntry)
    ensures
        entry_paths(final(entries)@) == native_io::with_name(
            entry_paths(old(entries)@),
            entry.relative_path@,
        ),
        forall|i: int|
            0 <= i < final(entries)@.len() ==> (#[trigger] final(entries)@[i]) == entry
                || old(entries)@.contains(final(entries)@[i]),
        final(entries)@.len() <= old(entries)@.len() + 1,
{
    let ghost path = entry.relative_path@;
    let ghost all = entry_paths(entries@);
    let ghost before = entries@;
    let mut i: usize = entries.len();
    assert(all.take(i as int) =~= all);
    assert(all.skip(i as int) =~= seq![]);
    assert(native_io::with_name(all, path) =~= native_io::with_name(all.take(i as int), path)
        + all.skip(i as int));
    while i > 0
        invariant
            i <= entries@.len(),
            entries@ == before,
            before == old(entries)@,
            path == entry.relative_path@,
            all == entry_paths(before),
            native_io::with_name(all, path) == native_io::with_name(all.take(i as int), path)
                + all.skip(i as int),
        decreases i,
    {
        assert(all.take(i as int).last() == entries@[i - 1].relative_path@);
        assert(all.take(i as int).drop_last() =~= all.take(i - 1));
        if str_eq(entries[i - 1].relative_path.as_str(), entry.relative_path.as_str()) {
            assert(all.take(i as int) + all.skip(i as int) =~= all);
            assert forall|x: int| 0 <= x < entries@.len() implies old(entries)@.contains(
                #[trigger] entries@[x],
            ) by {
                assert(before[x] == entries@[x]);
            }
            return;
        }
        if is_before(entries[i - 1].relative_path.as_str(), entry.relative_path.as_str()) {
            entries.insert(i, entry);
            assert(entry_paths(entries@) =~= all.take(i as int).push(path) + all.skip(i as int));
            proof {
                inserted_holds(before, entries@, entry, i as int);
            }
            return;
        }
        assert(native_io::with_name(all.take(i - 1), path).push(all[i - 1]) + all.skip(i as int)
            =~= native_io::with_name(all.take(i - 1), path) + all.skip(i - 1));
        i = i - 1;
    }
    entries.insert(0, entry);
    assert(all.take(0) =~= seq![]);
    assert(entry_paths(entries@) =~= seq![path] + all.skip(0));
    proof {
        inserted_holds(before, entries@, entry, 0);
    }
}

proof fn inserted_holds(
    before: Seq<SourceEntry>,
    after: Seq<SourceEntry>,
    entry: SourceEntry,
    i: int,
)
    requires
        0 <= i <= before.len(),
        after == before.insert(i, entry),
    ensures
        forall|x: int|
            0 <= x < after.len() ==> (#[trigger] after[x]) == entry || before.contains(after[x]),
{
    assert forall|x: int| 0 <= x < after.len() implies (#[trigger] after[x]) == entry
        || before.contains(after[x]) by {
        if x < i {
            assert(before[x] == after[x]);
        } else if x > i {
            assert(before[x - 1] == after[x]);
        }
    }
}

// --- Laws ---

pub(crate) proof fn named_parts_sum(a: Seq<Seq<char>>, b: Seq<Seq<char>>)
    ensures
        named_parts(a + b) == named_parts(a) + named_parts(b),
    decreases b.len(),
{
    if b.len() == 0 {
        assert(a + b =~= a);
        assert(named_parts(a) + named_parts(b) =~= named_parts(a));
    } else {
        assert((a + b).drop_last() =~= a + b.drop_last());
        named_parts_sum(a, b.drop_last());
        assert(named_parts(a) + named_parts(b.drop_last()).push(b.last()) =~= (named_parts(a)
            + named_parts(b.drop_last())).push(b.last()));
    }
}

proof fn parts_not_empty(s: Seq<char>)
    ensures
        parts(s).len() > 0,
    decreases s.len(),
{
    if s.len() > 0 {
        parts_not_empty(s.drop_last());
    }
}

/// The parts of a path that has a slash at `a.len()`.
pub(crate) proof fn parts_sum(a: Seq<char>, b: Seq<char>)
    ensures
        parts(a + seq!['/'] + b) == parts(a) + parts(b),
    decreases b.len(),
{
    let s = a + seq!['/'] + b;
    if b.len() == 0 {
        assert(s.drop_last() =~= a);
        assert(parts(a) + parts(b) =~= parts(a).push(Seq::<char>::empty()));
    } else {
        assert(s.drop_last() =~= a + seq!['/'] + b.drop_last());
        parts_sum(a, b.drop_last());
        parts_not_empty(b.drop_last());
        let p = parts(b.drop_last());
        assert((parts(a) + p).drop_last() =~= parts(a) + p.drop_last());
        if b.last() == '/' {
            assert(parts(a) + p.push(Seq::<char>::empty()) =~= (parts(a) + p).push(
                Seq::<char>::empty(),
            ));
        } else {
            assert(parts(a) + p.drop_last().push(p.last().push(b.last())) =~= (parts(a)
                + p.drop_last()).push(p.last().push(b.last())));
        }
    }
}

/// A source in the workspace is reached by the steps of the root and then by
/// steps that lead down only.
pub proof fn sources_stay_in_the_workspace(root: Seq<char>, relative: Seq<char>)
    requires
        root.len() > 0,
        source_place(root, relative) is Some,
    ensures
        steps(source_place(root, relative)->0) == steps(root) + steps(relative),
        !steps(relative).contains(".."@),
        is_absolute(source_place(root, relative)->0) == is_absolute(root),
{
    reveal_strlit("/");
    assert("/"@ =~= seq!['/']);
    if root.last() == '/' {
        let base = root.drop_last();
        assert(root + relative =~= base + seq!['/'] + relative);
        parts_sum(base, relative);
        named_parts_sum(parts(base), parts(relative));
        parts_sum(base, Seq::<char>::empty());
        assert(base + seq!['/'] + Seq::<char>::empty() =~= root);
        named_parts_sum(parts(base), parts(Seq::<char>::empty()));
        let nothing = parts(Seq::<char>::empty());
        assert(nothing.len() == 1);
        assert(named_parts(nothing.drop_last()) =~= seq![]);
        assert(!is_step(nothing.last()));
        assert(named_parts(nothing) =~= seq![]);
        assert(steps(root) =~= steps(base));
    } else {
        parts_sum(root, relative);
        named_parts_sum(parts(root), parts(relative));
    }
    if steps(relative).contains(".."@) {
        named_parts_are_parts(parts(relative), ".."@);
    }
}

proof fn named_parts_are_parts(all: Seq<Seq<char>>, part: Seq<char>)
    requires
        named_parts(all).contains(part),
    ensures
        all.contains(part),
    decreases all.len(),
{
    if all.len() > 0 {
        let before = named_parts(all.drop_last());
        let i = named_parts(all).index_of(part);
        if is_step(all.last()) && i == before.len() {
            assert(all[all.len() - 1] == part);
        } else {
            assert(before[i] == part);
            named_parts_are_parts(all.drop_last(), part);
            let k = all.drop_last().index_of(part);
            assert(all[k] == part);
        }
    }
}

pub(crate) proof fn parts_without_slash(s: Seq<char>)
    requires
        !s.contains('/'),
    ensures
        parts(s) == seq![s],
    decreases s.len(),
{
    if s.len() > 0 {
        assert(s[s.len() - 1] == s.last());
        assert forall|i: int| 0 <= i < s.drop_last().len() implies s.drop_last()[i] != '/' by {
            assert(s[i] == s.drop_last()[i]);
        }
        parts_without_slash(s.drop_last());
        assert(s.drop_last().push(s.last()) =~= s);
        assert(parts(s) =~= seq![s]);
    } else {
        assert(s =~= Seq::<char>::empty());
    }
}

proof fn parts_have_no_slash(s: Seq<char>)
    ensures
        forall|i: int| 0 <= i < parts(s).len() ==> !(#[trigger] parts(s)[i]).contains('/'),
    decreases s.len(),
{
    if s.len() > 0 {
        parts_have_no_slash(s.drop_last());
        parts_not_empty(s.drop_last());
        let before = parts(s.drop_last());
        assert forall|i: int| 0 <= i < parts(s).len() implies !(#[trigger] parts(s)[i]).contains(
            '/',
        ) by {
            if s.last() != '/' && i == before.len() - 1 {
                let p = before.last();
                assert(!before[i].contains('/'));
                assert forall|j: int| 0 <= j < p.push(s.last()).len() implies p.push(s.last())[j]
                    != '/' by {
                    if j < p.len() {
                        assert(p.contains(p[j]));
                    }
                }
            } else if i < before.len() {
                assert(!before[i].contains('/'));
            }
        }
    }
}

proof fn named_parts_are_steps(all: Seq<Seq<char>>)
    ensures
        forall|i: int|
            0 <= i < named_parts(all).len() ==> is_step(#[trigger] named_parts(all)[i])
                && all.contains(named_parts(all)[i]),
    decreases all.len(),
{
    if all.len() > 0 {
        named_parts_are_steps(all.drop_last());
        assert forall|i: int| 0 <= i < named_parts(all).len() implies is_step(
            #[trigger] named_parts(all)[i],
        ) && all.contains(named_parts(all)[i]) by {
            let before = named_parts(all.drop_last());
            if i < before.len() {
                assert(is_step(before[i]));
                let k = all.drop_last().index_of(before[i]);
                assert(all[k] == before[i]);
            } else {
                assert(all[all.len() - 1] == all.last());
            }
        }
    }
}

proof fn parts_of_joined(names: Seq<Seq<char>>)
    requires
        names.len() > 0,
        forall|i: int|
            0 <= i < names.len() ==> is_step(#[trigger] names[i]) && !names[i].contains('/'),
    ensures
        parts(text::joined(names, "/"@)) == names,
        named_parts(names) == names,
        !is_absolute(text::joined(names, "/"@)),
    decreases names.len(),
{
    reveal_strlit("/");
    assert("/"@ =~= seq!['/']);
    let s = text::joined(names, "/"@);
    let rest = names.drop_last();
    assert(is_step(names[names.len() - 1]));
    assert forall|i: int| 0 <= i < rest.len() implies is_step(#[trigger] rest[i])
        && !rest[i].contains('/') by {
        assert(is_step(names[i]));
    }
    if names.len() == 1 {
        parts_without_slash(names[0]);
        assert(names =~= seq![names[0]]);
        assert(named_parts(rest) =~= seq![]);
    } else {
        parts_of_joined(rest);
        parts_without_slash(names.last());
        parts_sum(text::joined(rest, "/"@), names.last());
        assert(rest + seq![names.last()] =~= names);
    }
    assert(named_parts(names) =~= names);
    if is_absolute(s) {
        let nothing = Seq::<char>::empty();
        assert(s =~= nothing + seq!['/'] + s.skip(1));
        parts_sum(nothing, s.skip(1));
        assert(parts(nothing)[0] == nothing);
        assert(parts(s)[0] == nothing);
        assert(is_step(names[0]));
    }
}

/// What a path in the workspace is called leads back to it.
pub proof fn relative_path_leads_back(root: Seq<char>, absolute: Seq<char>)
    requires
        is_absolute(root),
        relative_place(root, absolute) is Some,
    ensures
        source_place(root, relative_place(root, absolute)->0) is Some,
        same_place(source_place(root, relative_place(root, absolute)->0)->0, absolute),
{
    let r = steps(root);
    let a = steps(absolute);
    let names = a.skip(r.len() as int);
    let relative = relative_place(root, absolute)->0;
    named_parts_are_steps(parts(absolute));
    parts_have_no_slash(absolute);
    assert forall|i: int| 0 <= i < names.len() implies is_step(#[trigger] names[i])
        && !names[i].contains('/') by {
        assert(names[i] == a[r.len() + i]);
        let k = parts(absolute).index_of(a[r.len() + i]);
        assert(parts(absolute)[k] == names[i]);
    }
    parts_of_joined(names);
    sources_stay_in_the_workspace(root, relative);
    assert(r + names =~= a);
}

} // verus!
