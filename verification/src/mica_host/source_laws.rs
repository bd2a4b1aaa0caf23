//! Which text a path leads to, and what the name of a file tells.

use vstd::prelude::*;
use vstd::string::*;

use crate::mica_host::facts;
use crate::mica_host::source_provider;
use crate::mica_host::source_provider::{RoeBufferSourceProvider, SourceBuffer};

verus! {

proof fn last_is_found(buffers: Seq<SourceBuffer>, path: Seq<char>, k: int)
    requires
        0 <= k < buffers.len(),
        source_provider::same_place(buffers[k].path@, path),
        forall|i: int|
            k < i < buffers.len() ==> !source_provider::same_place(
                (#[trigger] buffers[i]).path@,
                path,
            ),
    ensures
        source_provider::last_at(buffers, path) == Some(buffers[k]),
    decreases buffers.len(),
{
    let init = buffers.drop_last();
    if k < init.len() {
        assert(!source_provider::same_place(buffers[buffers.len() - 1].path@, path));
        assert(init[k] == buffers[k]);
        assert forall|i: int| k < i < init.len() implies !source_provider::same_place(
            (#[trigger] init[i]).path@,
            path,
        ) by {
            assert(init[i] == buffers[i]);
        }
        last_is_found(init, path, k);
    }
}

/// A buffer is read by what its path is called within the workspace: the latest
/// one of that path counts.
pub proof fn buffers_are_read_by_their_relative_path(p: RoeBufferSourceProvider, k: int)
    requires
        source_provider::is_absolute(p.root@),
        0 <= k < p.buffers@.len(),
        source_provider::relative_place(p.root@, p.buffers@[k].path@) is Some,
        forall|i: int|
            k < i < p.buffers@.len() ==> !source_provider::same_place(
                (#[trigger] p.buffers@[i]).path@,
                p.buffers@[k].path@,
            ),
    ensures
        p.asked_for(
            "worktree"@,
            p.root@,
            source_provider::relative_place(p.root@, p.buffers@[k].path@)->0,
        ) == Some(p.buffers@[k]),
{
    let absolute = p.buffers@[k].path@;
    let relative = source_provider::relative_place(p.root@, absolute)->0;
    source_provider::relative_path_leads_back(p.root@, absolute);
    let path = source_provider::source_place(p.root@, relative)->0;
    assert(source_provider::same_place(absolute, path));
    assert forall|i: int| k < i < p.buffers@.len() implies !source_provider::same_place(
        (#[trigger] p.buffers@[i]).path@,
        path,
    ) by {
        assert(!source_provider::same_place(p.buffers@[i].path@, absolute));
    }
    last_is_found(p.buffers@, path, k);
}

/// No buffer is read for another workspace, for what is not being worked on, or
/// by a path that leads up.
pub proof fn nothing_is_read_from_elsewhere(
    p: RoeBufferSourceProvider,
    kind: Seq<char>,
    root: Seq<char>,
    relative: Seq<char>,
)
    requires
        p.asked_for(kind, root, relative) is Some,
    ensures
        root == p.root@,
        kind == "worktree"@,
        !(relative.len() > 0 && relative[0] == '/'),
        !source_provider::parts(relative).contains(".."@),
{
}

proof fn dot_is_last(stem: Seq<char>, ext: Seq<char>)
    requires
        stem.len() > 0,
        !ext.contains('.'),
    ensures
        facts::last_dot(stem + seq!['.'] + ext) == Some(stem.len() as int),
    decreases ext.len(),
{
    let name = stem + seq!['.'] + ext;
    if ext.len() > 0 {
        assert(ext.contains(ext[ext.len() - 1]));
        assert(name.last() == ext[ext.len() - 1]);
        assert(name.drop_last() =~= stem + seq!['.'] + ext.drop_last());
        assert forall|i: int| 0 <= i < ext.drop_last().len() implies ext.drop_last()[i] != '.' by {
            assert(ext.contains(ext[i]));
        }
        dot_is_last(stem, ext.drop_last());
    } else {
        assert(name.last() == '.');
    }
}

/// What stands behind the last dot of the name of a file is told in small
/// letters, whatever directory the file is in.
pub proof fn extension_stands_behind_the_last_dot(
    directory: Seq<char>,
    stem: Seq<char>,
    ext: Seq<char>,
    i: int,
)
    requires
        stem.len() > 0,
        ext.len() > 0,
        !stem.contains('/'),
        !ext.contains('/'),
        !ext.contains('.'),
        0 <= i < ext.len(),
    ensures
        facts::extension(directory + seq!['/'] + (stem + seq!['.'] + ext)) matches Some(e)
            && e.len() == ext.len() && (if 'A' as u32 <= ext[i] as u32 <= 'Z' as u32 {
            e[i] as u32 == ext[i] as u32 + 32
        } else {
            e[i] == ext[i]
        }),
{
    let name = stem + seq!['.'] + ext;
    let path = directory + seq!['/'] + name;
    let front = source_provider::parts(directory);
    reveal_strlit(".");
    reveal_strlit("..");
    assert forall|k: int| 0 <= k < name.len() implies name[k] != '/' by {
        if k < stem.len() {
            assert(stem.contains(stem[k]));
            assert(name[k] == stem[k]);
        } else if k > stem.len() {
            assert(ext.contains(ext[k - stem.len() - 1]));
            assert(name[k] == ext[k - stem.len() - 1]);
        }
    }
    assert(!name.contains('/'));
    source_provider::parts_without_slash(name);
    source_provider::parts_sum(directory, name);
    source_provider::named_parts_sum(front, seq![name]);
    assert(name.len() >= 3);
    assert(name != "."@ && name != ".."@);
    assert(source_provider::is_step(name));
    let none = Seq::<Seq<char>>::empty();
    assert(seq![name].drop_last() =~= none);
    reveal_with_fuel(source_provider::named_parts, 2);
    assert(source_provider::named_parts(seq![name]) =~= seq![name]);
    let steps = source_provider::steps(path);
    assert(steps.last() == name);
    dot_is_last(stem, ext);
    let behind = steps.last().skip(stem.len() as int + 1);
    assert(behind =~= ext);
    assert(facts::extension(path) is Some);
    let e = facts::extension(path)->0;
    assert(e.len() == behind.len());
    assert(e[i] == facts::small(behind[i]));
}

} // verus!
