//! Work outside of the kernel: what is admitted, and how much of it.

use vstd::prelude::*;
use vstd::string::*;
use vstd::utf8;

use crate::native_kernel::{
    Capability, IoErrorKind, KernelError, NativeDirectoryEntry, NativeOperation, NativeResult,
    MAX_DIRECTORY_ENTRIES,
};
use crate::text::{byte_len, str_chars, str_eq};
use crate::text;

verus! {

/// How much work goes on at once.
pub const MAX_IO_REQUESTS: usize = 16;

/// The most bytes that are read or written at once.
pub const MAX_IO_BYTES: usize = 1_048_576;

/// The most arguments of a process.
pub const MAX_ARGUMENTS: usize = 256;

/// The most bytes of a path, or of the arguments of a process.
pub const MAX_IO_NAME_BYTES: usize = 65_536;

/// The most entries of a directory that are looked at.
pub const MAX_DIRECTORY_SCAN: usize = 65_536;

/// How much of a file is read at a time.
pub const CHUNK_BYTES: usize = 8192;

/// What must have been granted for work outside of the kernel.
pub open spec fn io_capability(op: NativeOperation) -> Option<Capability> {
    match op {
        NativeOperation::ReadFile { .. } => Some(Capability::FileRead),
        NativeOperation::ListDirectory { .. } => Some(Capability::FileRead),
        NativeOperation::WriteFile { .. } => Some(Capability::FileWrite),
        NativeOperation::SpawnProcess { .. } => Some(Capability::ProcessSpawn),
        _ => None,
    }
}

/// What must have been granted for work outside of the kernel; nothing where an
/// operation is no such work.
pub fn capability(operation: &NativeOperation) -> (r: Option<Capability>)
    ensures
        r == io_capability(*operation),
{
    match operation {
        NativeOperation::ReadFile { .. } => Some(Capability::FileRead),
        NativeOperation::ListDirectory { .. } => Some(Capability::FileRead),
        NativeOperation::WriteFile { .. } => Some(Capability::FileWrite),
        NativeOperation::SpawnProcess { .. } => Some(Capability::ProcessSpawn),
        _ => None,
    }
}

/// Work that goes on.
#[derive(Debug, Clone, Copy, PartialEq, Eq, Structural)]
pub struct Lease {
    pub id: u64,
    pub cancelled: bool,
}

/// The work that goes on.
#[derive(Debug)]
pub struct IoOwner {
    /// Whether nothing is admitted any more.
    pub closed: bool,
    pub next_id: u64,
    pub active: Vec<Lease>,
}

/// The error for work that was cancelled.
pub open spec fn is_cancelled<T>(r: Result<T, KernelError>) -> bool {
    r matches Err(KernelError::Io { kind, message }) && kind == IoErrorKind::Interrupted
        && message@ == "native I/O was cancelled or exceeded its 30-second deadline"@
}

/// The error for work that was cancelled.
pub fn cancelled() -> (r: KernelError)
    ensures
        is_cancelled(Err::<(), KernelError>(r)),
{
    KernelError::Io {
        kind: IoErrorKind::Interrupted,
        message: "native I/O was cancelled or exceeded its 30-second deadline".to_owned(),
    }
}

/// Whether an error says that a bound was passed.
pub open spec fn is_limit<T>(r: Result<T, KernelError>, what: Seq<char>) -> bool {
    r matches Err(KernelError::IoLimit(m)) && m@ == what
}

/// The leases without that of some work.
pub open spec fn without_lease(leases: Seq<Lease>, id: u64) -> Seq<Lease>
    decreases leases.len(),
{
    if leases.len() == 0 {
        seq![]
    } else if leases.last().id == id {
        without_lease(leases.drop_last(), id)
    } else {
        without_lease(leases.drop_last(), id).push(leases.last())
    }
}

impl IoOwner {
    /// Each piece of work has its own number, and there is not too much of it.
    pub open spec fn wf(&self) -> bool {
        &&& self.active@.len() <= MAX_IO_REQUESTS
        &&& forall|i: int|
            0 <= i < self.active@.len() ==> (#[trigger] self.active@[i]).id < self.next_id
        &&& forall|i: int, j: int|
            0 <= i < j < self.active@.len() ==> (#[trigger] self.active@[i]).id != (
            #[trigger] self.active@[j]).id
    }

    pub open spec fn is_idle(&self) -> bool {
        !self.closed && self.next_id == 0 && self.active@.len() == 0
    }

    pub fn new() -> (r: Self)
        ensures
            r.wf(),
            r.is_idle(),
    {
        IoOwner { closed: false, next_id: 0, active: Vec::new() }
    }

    /// Whether a piece of work was admitted, or why not.
    pub open spec fn admitted(&self, after: &Self, r: Result<u64, KernelError>) -> bool {
        if self.closed {
            is_cancelled(r) && *after == *self
        } else if self.active@.len() >= MAX_IO_REQUESTS {
            is_limit(r, "concurrent I/O request limit reached"@) && *after == *self
        } else if self.next_id == u64::MAX {
            is_limit(r, "I/O request identity exhausted"@) && *after == *self
        } else {
            &&& r == Ok::<u64, KernelError>(self.next_id)
            &&& !after.closed
            &&& after.next_id == self.next_id + 1
            &&& after.active@ == self.active@.push(Lease { id: self.next_id, cancelled: false })
        }
    }

    /// Admits a piece of work, and gives its number.
    pub fn accept(&mut self) -> (r: Result<u64, KernelError>)
        requires
            old(self).wf(),
        ensures
            final(self).wf(),
            old(self).admitted(final(self), r),
    {
        if self.closed {
            return Err(cancelled());
        }
        if self.active.len() >= MAX_IO_REQUESTS {
            return Err(KernelError::IoLimit("concurrent I/O request limit reached".to_owned()));
        }
        if self.next_id == u64::MAX {
            return Err(KernelError::IoLimit("I/O request identity exhausted".to_owned()));
        }
        let id = self.next_id;
        self.next_id = id + 1;
        self.active.push(Lease { id, cancelled: false });
        Ok(id)
    }

    /// Notes that a piece of work has ended. Says whether none goes on.
    pub fn release(&mut self, id: u64) -> (idle: bool)
        requires
            old(self).wf(),
        ensures
            final(self).wf(),
            *final(self) == (IoOwner { active: final(self).active, ..*old(self) }),
            final(self).active@ == without_lease(old(self).active@, id),
            idle == (final(self).active@.len() == 0),
    {
        let mut kept: Vec<Lease> = Vec::new();
        let mut i: usize = 0;
        let ghost all = self.active@;
        assert(all.take(0) =~= seq![]);
        while i < self.active.len()
            invariant
                i <= self.active@.len(),
                self.active@ == all,
                *self == *old(self),
                kept@ == without_lease(all.take(i as int), id),
            decreases self.active.len() - i,
        {
            assert(all.take(i + 1).drop_last() =~= all.take(i as int));
            assert(all.take(i + 1).last() == all[i as int]);
            if self.active[i].id != id {
                kept.push(self.active[i]);
            }
            i = i + 1;
        }
        assert(all.take(i as int) =~= all);
        self.active = kept;
        proof {
            without_lease_keeps(all, id);
            assert forall|x: int| 0 <= x < self.active@.len() implies (
            #[trigger] self.active@[x]).id < self.next_id by {
                let k = choose|k: int| 0 <= k < all.len() && all[k] == without_lease(all, id)[x];
                assert(all[k].id < self.next_id);
            }
        }
        self.active.len() == 0
    }

    /// Admits nothing any more, and cancels what goes on.
    pub fn cancel_all(&mut self)
        requires
            old(self).wf(),
        ensures
            final(self).wf(),
            final(self).closed,
            final(self).next_id == old(self).next_id,
            final(self).active@ == old(self).active@.map_values(
                |l: Lease| Lease { id: l.id, cancelled: true },
            ),
    {
        self.closed = true;
        let mut i: usize = 0;
        let ghost all = self.active@;
        while i < self.active.len()
            invariant
                i <= self.active@.len(),
                self.closed,
                self.next_id == old(self).next_id,
                all == old(self).active@,
                self.active@.len() == all.len(),
                forall|k: int|
                    0 <= k < all.len() ==> (#[trigger] self.active@[k]).id == all[k].id,
                forall|k: int| 0 <= k < i ==> (#[trigger] self.active@[k]).cancelled,
            decreases self.active.len() - i,
        {
            let id = self.active[i].id;
            self.active.set(i, Lease { id, cancelled: true });
            i = i + 1;
        }
        proof {
            assert forall|x: int| 0 <= x < self.active@.len() implies (
            #[trigger] self.active@[x]).id < self.next_id by {
                assert(all[x].id < self.next_id);
            }
            assert forall|x: int, y: int| 0 <= x < y < self.active@.len() implies (
            #[trigger] self.active@[x]).id != (#[trigger] self.active@[y]).id by {
                assert(all[x].id != all[y].id);
            }
            assert(self.active@ =~= all.map_values(
                |l: Lease| Lease { id: l.id, cancelled: true },
            ));
        }
    }

    /// Whether a piece of work was cancelled, or is none that goes on.
    pub open spec fn stopped(&self, id: u64) -> bool {
        !exists|i: int|
            0 <= i < self.active@.len() && (#[trigger] self.active@[i]) == (Lease {
                id,
                cancelled: false,
            })
    }

    pub fn is_stopped(&self, id: u64) -> (r: bool)
        ensures
            r == self.stopped(id),
    {
        let mut i: usize = 0;
        while i < self.active.len()
            invariant
                i <= self.active@.len(),
                forall|k: int|
                    0 <= k < i ==> (#[trigger] self.active@[k]) != (Lease { id, cancelled: false }),
            decreases self.active.len() - i,
        {
            if self.active[i].id == id && !self.active[i].cancelled {
                assert(self.active@[i as int] == (Lease { id, cancelled: false }));
                return false;
            }
            i = i + 1;
        }
        true
    }
}

proof fn without_lease_keeps(leases: Seq<Lease>, id: u64)
    requires
        forall|i: int, j: int|
            0 <= i < j < leases.len() ==> (#[trigger] leases[i]).id != (#[trigger] leases[j]).id,
    ensures
        without_lease(leases, id).len() <= leases.len(),
        forall|x: int|
            0 <= x < without_lease(leases, id).len() ==> exists|k: int|
                0 <= k < leases.len() && leases[k] == #[trigger] without_lease(leases, id)[x],
        forall|x: int, y: int|
            0 <= x < y < without_lease(leases, id).len() ==> (#[trigger] without_lease(
                leases,
                id,
            )[x]).id != (#[trigger] without_lease(leases, id)[y]).id,
        forall|k: int|
            0 <= k < leases.len() && leases[k].id != id ==> without_lease(leases, id).contains(
                #[trigger] leases[k],
            ),
        forall|x: int|
            0 <= x < without_lease(leases, id).len() ==> (#[trigger] without_lease(
                leases,
                id,
            )[x]).id != id,
    decreases leases.len(),
{
    if leases.len() > 0 {
        let rest = leases.drop_last();
        let kept = without_lease(rest, id);
        without_lease_keeps(rest, id);
        let r = without_lease(leases, id);
        assert forall|x: int| 0 <= x < r.len() implies exists|k: int|
            0 <= k < leases.len() && leases[k] == #[trigger] r[x] by {
            if x < kept.len() {
                let k = choose|k: int| 0 <= k < rest.len() && rest[k] == kept[x];
                assert(leases[k] == r[x]);
            } else {
                assert(leases[leases.len() - 1] == r[x]);
            }
        }
        assert forall|x: int, y: int| 0 <= x < y < r.len() implies (#[trigger] r[x]).id != (
        #[trigger] r[y]).id by {
            if y == kept.len() {
                let k = choose|k: int| 0 <= k < rest.len() && rest[k] == kept[x];
                assert(leases[k].id != leases[leases.len() - 1].id);
            }
        }
        assert forall|k: int| 0 <= k < leases.len() && leases[k].id != id implies r.contains(
            #[trigger] leases[k],
        ) by {
            if k < rest.len() {
                assert(rest[k] == leases[k]);
                let x = kept.index_of(leases[k]);
                assert(r[x] == leases[k]);
            } else {
                assert(r[r.len() - 1] == leases[k]);
            }
        }
    }
}

/// Where no work is admitted any more, none is admitted later on, and all that
/// goes on is stopped.
pub proof fn closing_ends_all_work(
    before: IoOwner,
    closed: IoOwner,
    after: IoOwner,
    r: Result<u64, KernelError>,
    id: u64,
)
    requires
        closed.closed,
        closed.active@ == before.active@.map_values(
            |l: Lease| Lease { id: l.id, cancelled: true },
        ),
        closed.admitted(&after, r),
    ensures
        is_cancelled(r),
        after == closed,
        closed.stopped(id),
{
}

/// Ended work makes room: what is released no longer counts, and all other work
/// goes on.
pub proof fn release_makes_room(before: IoOwner, after: IoOwner, id: u64)
    requires
        before.wf(),
        after.active@ == without_lease(before.active@, id),
    ensures
        after.active@.len() <= before.active@.len(),
        forall|x: int| 0 <= x < after.active@.len() ==> (#[trigger] after.active@[x]).id != id,
        forall|k: int|
            0 <= k < before.active@.len() && before.active@[k].id != id ==> after.active@.contains(
                #[trigger] before.active@[k],
            ),
{
    without_lease_keeps(before.active@, id);
}

/// Work that was admitted.
#[derive(Debug)]
pub struct IoRequest {
    pub operation: NativeOperation,
    pub lease: u64,
}

/// The bytes of texts together, as far as they can be counted.
pub open spec fn bytes_in(parts: Seq<String>) -> nat
    decreases parts.len(),
{
    if parts.len() == 0 {
        0
    } else {
        bytes_in(parts.drop_last()) + text::utf8_len(parts.last()@)
    }
}

/// Which bound an operation passes.
pub open spec fn passed_bound(op: NativeOperation) -> Option<Seq<char>> {
    match op {
        NativeOperation::ReadFile { path } if text::utf8_len(path@) > MAX_IO_NAME_BYTES => Some(
            "I/O path exceeds 65,536 bytes"@,
        ),
        NativeOperation::ListDirectory { path } if text::utf8_len(path@)
            > MAX_IO_NAME_BYTES => Some("I/O path exceeds 65,536 bytes"@),
        NativeOperation::WriteFile { path, .. } if text::utf8_len(path@)
            > MAX_IO_NAME_BYTES => Some("I/O path exceeds 65,536 bytes"@),
        NativeOperation::WriteFile { contents, .. } if text::utf8_len(contents@)
            > MAX_IO_BYTES => Some("file write exceeds the byte limit"@),
        NativeOperation::SpawnProcess { program, args } if args@.len() > MAX_ARGUMENTS
            || text::utf8_len(program@) + bytes_in(args@) > MAX_IO_NAME_BYTES => Some(
            "process arguments exceed their count or byte limit"@,
        ),
        _ => None,
    }
}

/// Whether work was admitted, or why not.
pub open spec fn prepared(
    before: IoOwner,
    after: IoOwner,
    op: NativeOperation,
    r: Result<IoRequest, KernelError>,
) -> bool {
    match passed_bound(op) {
        Some(what) => is_limit(r, what) && after == before,
        None => match r {
            Ok(request) => request.operation == op && before.admitted(
                &after,
                Ok::<u64, KernelError>(request.lease),
            ),
            Err(e) => before.admitted(&after, Err::<u64, KernelError>(e)),
        },
    }
}

fn too_long(s: &str, limit: usize) -> (r: bool)
    ensures
        r == (text::utf8_len(s@) > limit),
{
    byte_len(s) > limit
}

fn arguments_too_long(program: &str, args: &Vec<String>) -> (r: bool)
    ensures
        r == (args@.len() > MAX_ARGUMENTS || text::utf8_len(program@) + bytes_in(args@)
            > MAX_IO_NAME_BYTES),
{
    if args.len() > MAX_ARGUMENTS {
        return true;
    }
    let mut total = byte_len(program);
    let mut i: usize = 0;
    assert(args@.take(0) =~= seq![]);
    while i < args.len()
        invariant
            i <= args@.len(),
            total == text::utf8_len(program@) + bytes_in(args@.take(i as int)) || (total
                == usize::MAX && text::utf8_len(program@) + bytes_in(args@.take(i as int))
                > usize::MAX),
        decreases args.len() - i,
    {
        assert(args@.take(i + 1).drop_last() =~= args@.take(i as int));
        assert(args@.take(i + 1).last() == args@[i as int]);
        total = total.saturating_add(byte_len(args[i].as_str()));
        i = i + 1;
    }
    assert(args@.take(i as int) =~= args@);
    total > MAX_IO_NAME_BYTES
}

impl IoRequest {
    /// Admits work that is within bounds.
    pub fn prepare(owner: &mut IoOwner, operation: NativeOperation) -> (r: Result<
        Self,
        KernelError,
    >)
        requires
            old(owner).wf(),
        ensures
            final(owner).wf(),
            prepared(*old(owner), *final(owner), operation, r),
    {
        let long_path = match &operation {
            NativeOperation::ReadFile { path } => too_long(path.as_str(), MAX_IO_NAME_BYTES),
            NativeOperation::ListDirectory { path } => too_long(path.as_str(), MAX_IO_NAME_BYTES),
            NativeOperation::WriteFile { path, contents: _ } => too_long(
                path.as_str(),
                MAX_IO_NAME_BYTES,
            ),
            _ => false,
        };
        if long_path {
            return Err(KernelError::IoLimit("I/O path exceeds 65,536 bytes".to_owned()));
        }
        let long_contents = match &operation {
            NativeOperation::WriteFile { path: _, contents } => too_long(
                contents.as_str(),
                MAX_IO_BYTES,
            ),
            _ => false,
        };
        if long_contents {
            return Err(KernelError::IoLimit("file write exceeds the byte limit".to_owned()));
        }
        let long_arguments = match &operation {
            NativeOperation::SpawnProcess { program, args } => arguments_too_long(
                program.as_str(),
                args,
            ),
            _ => false,
        };
        if long_arguments {
            return Err(
                KernelError::IoLimit(
                    "process arguments exceed their count or byte limit".to_owned(),
                ),
            );
        }
        match owner.accept() {
            Ok(lease) => Ok(IoRequest { operation, lease }),
            Err(e) => Err(e),
        }
    }
}

// --- Files ---

/// How many bytes of a file are asked for next: one more than may come, so that
/// a file that is too long is noticed.
pub fn next_chunk_len(read: usize, limit: usize) -> (r: usize)
    ensures
        r == {
            let remaining = if read <= limit {
                limit - read
            } else {
                0
            };
            if remaining < CHUNK_BYTES {
                remaining + 1
            } else {
                CHUNK_BYTES as int
            }
        },
{
    let remaining = limit.saturating_sub(read);
    let wanted = remaining.saturating_add(1);
    if CHUNK_BYTES < wanted {
        CHUNK_BYTES
    } else {
        wanted
    }
}

/// Takes over the bytes that were read of a file. Says whether there may be
/// more.
pub fn take_chunk(contents: &mut Vec<u8>, chunk: &Vec<u8>, count: usize, limit: usize) -> (r:
    Result<bool, KernelError>)
    requires
        count <= chunk@.len(),
    ensures
        if count == 0 {
            r == Ok::<bool, KernelError>(false) && final(contents)@ == old(contents)@
        } else if old(contents)@.len() + count > limit {
            is_limit(r, "file read exceeds the byte limit"@) && final(contents)@
                == old(contents)@
        } else {
            &&& r == Ok::<bool, KernelError>(true)
            &&& final(contents)@ == old(contents)@ + chunk@.take(count as int)
        },
{
    if count == 0 {
        return Ok(false);
    }
    if count > limit.saturating_sub(contents.len()) {
        return Err(KernelError::IoLimit("file read exceeds the byte limit".to_owned()));
    }
    append_part(contents, chunk, count);
    Ok(true)
}

fn append_part(contents: &mut Vec<u8>, chunk: &Vec<u8>, count: usize)
    requires
        count <= chunk@.len(),
    ensures
        final(contents)@ == old(contents)@ + chunk@.take(count as int),
{
    let mut i: usize = 0;
    assert(contents@ =~= old(contents)@ + chunk@.take(0));
    while i < count
        invariant
            i <= count <= chunk@.len(),
            contents@ == old(contents)@ + chunk@.take(i as int),
        decreases count - i,
    {
        contents.push(chunk[i]);
        i = i + 1;
        assert(contents@ =~= old(contents)@ + chunk@.take(i as int));
    }
}

/// What `String::from_utf8` says of bytes that encode no text.
pub uninterp spec fn utf8_fault(bytes: Seq<u8>) -> Seq<char>;

/// `String::from_utf8` gives the text that bytes encode, and an error where they
/// encode none. What the error says depends on the bytes alone.
#[verifier::external_body]
fn text_from_utf8(bytes: Vec<u8>) -> (r: Result<String, String>)
    ensures
        r is Ok <==> utf8::valid_utf8(bytes@),
        r matches Ok(s) ==> s@ == utf8::decode_utf8(bytes@),
        r matches Err(m) ==> m@ == utf8_fault(bytes@),
{
    String::from_utf8(bytes).map_err(|error| error.to_string())
}

/// The text that a file holds.
pub fn finish_read(contents: Vec<u8>) -> (r: Result<String, KernelError>)
    ensures
        if utf8::valid_utf8(contents@) {
            r matches Ok(s) && s@ == utf8::decode_utf8(contents@)
        } else {
            r matches Err(KernelError::Io { kind, message }) && kind == IoErrorKind::InvalidData
                && message@ == utf8_fault(contents@)
        },
{
    match text_from_utf8(contents) {
        Ok(s) => Ok(s),
        Err(message) => Err(KernelError::Io { kind: IoErrorKind::InvalidData, message }),
    }
}

/// Whether a text is too long to be written.
pub fn check_write(contents: &str, limit: usize) -> (r: Result<(), KernelError>)
    ensures
        if text::utf8_len(contents@) > limit {
            is_limit(r, "file write exceeds the byte limit"@)
        } else {
            r is Ok
        },
{
    if too_long(contents, limit) {
        Err(KernelError::IoLimit("file write exceeds the byte limit".to_owned()))
    } else {
        Ok(())
    }
}

// --- Directories ---

/// Whether a text stands in front of another: at the first place where they
/// differ it has the lesser character, or it ends there.
pub open spec fn precedes(a: Seq<char>, b: Seq<char>) -> bool
    decreases a.len(),
{
    if b.len() == 0 {
        false
    } else if a.len() == 0 {
        true
    } else if a[0] != b[0] {
        (a[0] as u32) < (b[0] as u32)
    } else {
        precedes(a.skip(1), b.skip(1))
    }
}

pub(crate) fn is_before(a: &str, b: &str) -> (r: bool)
    ensures
        r == precedes(a@, b@),
{
    let x = str_chars(a);
    let y = str_chars(b);
    let mut i: usize = 0;
    assert(x@.skip(0) =~= x@);
    assert(y@.skip(0) =~= y@);
    while i < x.len() && i < y.len()
        invariant
            i <= x@.len(),
            i <= y@.len(),
            x@ == a@,
            y@ == b@,
            precedes(a@, b@) == precedes(x@.skip(i as int), y@.skip(i as int)),
        decreases x.len() - i,
    {
        assert(x@.skip(i as int)[0] == x@[i as int]);
        assert(y@.skip(i as int)[0] == y@[i as int]);
        assert(x@.skip(i as int).skip(1) =~= x@.skip(i + 1));
        assert(y@.skip(i as int).skip(1) =~= y@.skip(i + 1));
        if x[i] != y[i] {
            return (x[i] as u32) < (y[i] as u32);
        }
        i = i + 1;
    }
    i < y.len()
}

/// The texts with one more, put in front of the first that it does not follow;
/// the same where it is there already.
pub open spec fn with_name(names: Seq<Seq<char>>, name: Seq<char>) -> Seq<Seq<char>>
    decreases names.len(),
{
    if names.len() == 0 {
        seq![name]
    } else if names.last() == name {
        names
    } else if precedes(names.last(), name) {
        names.push(name)
    } else {
        with_name(names.drop_last(), name).push(names.last())
    }
}

/// The paths of a directory that are kept while it is looked through.
#[derive(Debug)]
pub struct DirectoryScan {
    pub directory: String,
    /// The kept paths, in order.
    pub paths: Vec<String>,
    /// The bytes of the directory and of the kept paths.
    pub bytes: usize,
    /// How many entries have been looked at.
    pub seen: usize,
}

/// The bytes of texts together, counted from a number on.
pub open spec fn bytes_of(from: nat, names: Seq<Seq<char>>) -> nat
    decreases names.len(),
{
    if names.len() == 0 {
        from
    } else {
        bytes_of(from, names.drop_last()) + text::utf8_len(names.last())
    }
}

/// The first paths of a directory, as many as are listed.
pub open spec fn kept_names(names: Seq<Seq<char>>, name: Seq<char>) -> Seq<Seq<char>> {
    let more = with_name(names, name);
    if more.len() > MAX_DIRECTORY_ENTRIES {
        more.drop_last()
    } else {
        more
    }
}

impl DirectoryScan {
    /// Whether the count of the bytes is right, and there are not too many.
    pub open spec fn wf(&self) -> bool {
        &&& self.paths@.len() <= MAX_DIRECTORY_ENTRIES
        &&& self.bytes == bytes_of(text::utf8_len(self.directory@), text::views(self.paths@))
        &&& self.bytes <= MAX_IO_BYTES || self.paths@.len() == 0
    }

    pub fn new(directory: String) -> (r: Self)
        ensures
            r.wf(),
            r.directory == directory,
            r.paths@.len() == 0,
            r.seen == 0,
    {
        let bytes = byte_len(directory.as_str());
        DirectoryScan { directory, paths: Vec::new(), bytes, seen: 0 }
    }

    /// Takes one more path of the directory into account; only the first ones
    /// are kept.
    pub fn offer(&mut self, path: String, stopped: bool) -> (r: Result<(), KernelError>)
        requires
            old(self).wf(),
        ensures
            if stopped {
                is_cancelled(r)
            } else if old(self).seen >= MAX_DIRECTORY_SCAN {
                is_limit(r, "directory scan exceeds 65,536 entries"@)
            } else {
                let kept = kept_names(text::views(old(self).paths@), path@);
                if bytes_of(text::utf8_len(old(self).directory@), kept) > MAX_IO_BYTES {
                    is_limit(r, "directory paths exceed the byte limit"@)
                } else {
                    &&& r is Ok
                    &&& final(self).wf()
                    &&& final(self).directory == old(self).directory
                    &&& final(self).seen == old(self).seen + 1
                    &&& text::views(final(self).paths@) == kept
                }
            },
    {
        if stopped {
            return Err(cancelled());
        }
        if self.seen >= MAX_DIRECTORY_SCAN {
            return Err(KernelError::IoLimit("directory scan exceeds 65,536 entries".to_owned()));
        }
        self.seen = self.seen + 1;
        proof {
            with_name_len(text::views(self.paths@), path@);
        }
        insert_name(&mut self.paths, path);
        assert(self.paths@.len() == text::views(self.paths@).len());
        if self.paths.len() > MAX_DIRECTORY_ENTRIES {
            let ghost more = self.paths@;
            self.paths.pop();
            assert(text::views(self.paths@) =~= text::views(more).drop_last());
        }
        match count_bytes(&self.directory, &self.paths) {
            Some(bytes) => {
                self.bytes = bytes;
                Ok(())
            },
            None => Err(KernelError::IoLimit("directory paths exceed the byte limit".to_owned())),
        }
    }

    /// The entries of the directory, where `names` and `directories` say of each
    /// kept path what it is called and whether it is a directory.
    pub fn finish(self, names: Vec<String>, directories: Vec<bool>) -> (r: Result<
        NativeResult,
        KernelError,
    >)
        requires
            self.wf(),
            names@.len() == self.paths@.len(),
            directories@.len() == self.paths@.len(),
        ensures
            if bytes_of(
                bytes_of(text::utf8_len(self.directory@), text::views(self.paths@)),
                text::views(names@),
            ) > MAX_IO_BYTES && self.paths@.len() > 0 {
                is_limit(r, "directory result exceeds the byte limit"@)
            } else {
                &&& r matches Ok(NativeResult::DirectoryEntries { directory, entries })
                &&& directory == self.directory
                &&& entries@.len() == self.paths@.len()
                &&& forall|i: int|
                    0 <= i < entries@.len() ==> {
                        &&& (#[trigger] entries@[i]).path@ == self.paths@[i]@
                        &&& entries@[i].name@ == names@[i]@
                        &&& entries@[i].is_directory == directories@[i]
                    }
            },
    {
        let mut entries: Vec<NativeDirectoryEntry> = Vec::new();
        let mut bytes = self.bytes;
        let ghost all = text::views(names@);
        let ghost base = self.bytes as nat;
        let mut i: usize = 0;
        assert(all.take(0) =~= seq![]);
        while i < names.len()
            invariant
                i <= names@.len(),
                self.wf(),
                self.bytes == base,
                base <= MAX_IO_BYTES || self.paths@.len() == 0,
                names@.len() == self.paths@.len(),
                directories@.len() == self.paths@.len(),
                all == text::views(names@),
                entries@.len() == i,
                bytes == bytes_of(base, all.take(i as int)),
                bytes <= MAX_IO_BYTES || i == 0,
                forall|k: int|
                    0 <= k < i ==> {
                        &&& (#[trigger] entries@[k]).path@ == self.paths@[k]@
                        &&& entries@[k].name@ == names@[k]@
                        &&& entries@[k].is_directory == directories@[k]
                    },
            decreases names.len() - i,
        {
            proof {
                assert(all.take(i + 1).drop_last() =~= all.take(i as int));
                assert(all.take(i + 1).last() == names@[i as int]@);
                bytes_grow(base, all, i + 1);
            }
            let more = byte_len(names[i].as_str());
            if more > MAX_IO_BYTES || bytes + more > MAX_IO_BYTES {
                return Err(
                    KernelError::IoLimit("directory result exceeds the byte limit".to_owned()),
                );
            }
            bytes = bytes + more;
            entries.push(
                NativeDirectoryEntry {
                    name: names[i].clone(),
                    path: self.paths[i].clone(),
                    is_directory: directories[i],
                },
            );
            i = i + 1;
        }
        assert(all.take(i as int) =~= all);
        Ok(NativeResult::DirectoryEntries { directory: self.directory, entries })
    }
}

proof fn with_name_len(names: Seq<Seq<char>>, name: Seq<char>)
    ensures
        with_name(names, name).len() <= names.len() + 1,
    decreases names.len(),
{
    if names.len() > 0 {
        with_name_len(names.drop_last(), name);
    }
}

proof fn bytes_grow(from: nat, names: Seq<Seq<char>>, k: int)
    requires
        0 <= k <= names.len(),
    ensures
        from <= bytes_of(from, names.take(k)) <= bytes_of(from, names),
    decreases names.len(),
{
    if names.len() == 0 {
        assert(names.take(k) =~= names);
    } else if k == names.len() {
        assert(names.take(k) =~= names);
        bytes_grow(from, names.drop_last(), 0);
        assert(names.drop_last().take(0) =~= seq![]);
    } else {
        bytes_grow(from, names.drop_last(), k);
        assert(names.drop_last().take(k) =~= names.take(k));
    }
}

fn count_bytes(directory: &String, paths: &Vec<String>) -> (r: Option<usize>)
    ensures
        match r {
            Some(n) => n == bytes_of(text::utf8_len(directory@), text::views(paths@)) && n
                <= MAX_IO_BYTES,
            None => bytes_of(text::utf8_len(directory@), text::views(paths@)) > MAX_IO_BYTES,
        },
{
    let mut bytes = byte_len(directory.as_str());
    let ghost all = text::views(paths@);
    let ghost base = text::utf8_len(directory@);
    let mut i: usize = 0;
    assert(all.take(0) =~= seq![]);
    if bytes > MAX_IO_BYTES {
        proof {
            bytes_grow(base, all, 0);
        }
        return None;
    }
    while i < paths.len()
        invariant
            i <= paths@.len(),
            all == text::views(paths@),
            base == text::utf8_len(directory@),
            bytes == bytes_of(base, all.take(i as int)),
            bytes <= MAX_IO_BYTES,
        decreases paths.len() - i,
    {
        proof {
            assert(all.take(i + 1).drop_last() =~= all.take(i as int));
            assert(all.take(i + 1).last() == paths@[i as int]@);
            bytes_grow(base, all, i + 1);
        }
        let more = byte_len(paths[i].as_str());
        if more > MAX_IO_BYTES || bytes + more > MAX_IO_BYTES {
            return None;
        }
        bytes = bytes + more;
        i = i + 1;
    }
    assert(all.take(i as int) =~= all);
    Some(bytes)
}

fn insert_name(paths: &mut Vec<String>, path: String)
    ensures
        text::views(final(paths)@) == with_name(text::views(old(paths)@), path@),
{
    let ghost all = text::views(paths@);
    let ghost before = paths@;
    let mut i: usize = paths.len();
    assert(all.take(i as int) =~= all);
    assert(all.skip(i as int) =~= seq![]);
    assert(with_name(all, path@) =~= with_name(all.take(i as int), path@) + all.skip(i as int));
    while i > 0
        invariant
            i <= paths@.len(),
            paths@ == before,
            before == old(paths)@,
            all == text::views(before),
            with_name(all, path@) == with_name(all.take(i as int), path@) + all.skip(i as int),
        decreases i,
    {
        assert(all.take(i as int).last() == paths@[i - 1]@);
        assert(all.take(i as int).drop_last() =~= all.take(i - 1));
        if str_eq(paths[i - 1].as_str(), path.as_str()) {
            assert(all.take(i as int) + all.skip(i as int) =~= all);
            return;
        }
        if is_before(paths[i - 1].as_str(), path.as_str()) {
            paths.insert(i, path);
            assert(text::views(paths@) =~= all.take(i as int).push(path@) + all.skip(i as int));
            return;
        }
        assert(with_name(all.take(i - 1), path@).push(all[i - 1]) + all.skip(i as int)
            =~= with_name(all.take(i - 1), path@) + all.skip(i - 1));
        i = i - 1;
    }
    paths.insert(0, path);
    assert(all.take(0) =~= seq![]);
    assert(text::views(paths@) =~= seq![path@] + all.skip(0));
}

/// Whether texts are in order, without one that is there twice.
pub open spec fn is_ordered(names: Seq<Seq<char>>) -> bool {
    forall|i: int, j: int|
        0 <= i < j < names.len() ==> precedes(#[trigger] names[i], #[trigger] names[j])
}

proof fn chars_differ(a: char, b: char)
    requires
        a != b,
    ensures
        a as u32 != b as u32,
{
}

pub proof fn precedes_is_total(a: Seq<char>, b: Seq<char>)
    ensures
        a == b || precedes(a, b) || precedes(b, a),
    decreases a.len(),
{
    if a.len() > 0 && b.len() > 0 && a[0] == b[0] {
        precedes_is_total(a.skip(1), b.skip(1));
        if a.skip(1) == b.skip(1) {
            assert(a =~= seq![a[0]] + a.skip(1));
            assert(b =~= seq![b[0]] + b.skip(1));
            assert(a == b);
        }
        assert(precedes(a, b) == precedes(a.skip(1), b.skip(1)));
        assert(precedes(b, a) == precedes(b.skip(1), a.skip(1)));
    } else if a.len() > 0 && b.len() > 0 {
        chars_differ(a[0], b[0]);
        assert(precedes(b, a) == ((b[0] as u32) < (a[0] as u32)));
    } else if a.len() == 0 && b.len() == 0 {
        assert(a =~= b);
    }
}

pub proof fn precedes_is_transitive(a: Seq<char>, b: Seq<char>, c: Seq<char>)
    requires
        precedes(a, b),
        precedes(b, c),
    ensures
        precedes(a, c),
    decreases a.len(),
{
    if a.len() > 0 && a[0] == b[0] && b[0] == c[0] {
        precedes_is_transitive(a.skip(1), b.skip(1), c.skip(1));
    }
}

/// No text stands in front of itself.
pub proof fn precedes_is_no_loop(a: Seq<char>)
    ensures
        !precedes(a, a),
    decreases a.len(),
{
    if a.len() > 0 {
        precedes_is_no_loop(a.skip(1));
    }
}

pub proof fn with_name_is_ordered(names: Seq<Seq<char>>, name: Seq<char>)
    requires
        is_ordered(names),
    ensures
        is_ordered(with_name(names, name)),
        forall|x: Seq<char>| #[trigger]
            with_name(names, name).contains(x) <==> names.contains(x) || x == name,
    decreases names.len(),
{
    let r = with_name(names, name);
    if names.len() == 0 {
        assert(r[0] == name);
    } else if names.last() == name {
        assert(names[names.len() - 1] == name);
    } else if precedes(names.last(), name) {
        assert forall|i: int, j: int| 0 <= i < j < r.len() implies precedes(
            #[trigger] r[i],
            #[trigger] r[j],
        ) by {
            if j == names.len() && i < names.len() - 1 {
                assert(precedes(names[i], names[names.len() - 1]));
                precedes_is_transitive(names[i], names.last(), name);
            }
        }
        assert forall|x: Seq<char>| #[trigger] r.contains(x) <==> names.contains(x) || x == name by {
            if names.contains(x) {
                assert(r[names.index_of(x)] == x);
            }
            assert(r[names.len() as int] == name);
        }
    } else {
        let rest = names.drop_last();
        assert forall|i: int, j: int| 0 <= i < j < rest.len() implies precedes(
            #[trigger] rest[i],
            #[trigger] rest[j],
        ) by {
            assert(precedes(names[i], names[j]));
        }
        with_name_is_ordered(rest, name);
        precedes_is_total(names.last(), name);
        let inner = with_name(rest, name);
        assert forall|i: int, j: int| 0 <= i < j < r.len() implies precedes(
            #[trigger] r[i],
            #[trigger] r[j],
        ) by {
            if j == inner.len() {
                assert(inner.contains(inner[i]));
                assert(r[j] == names.last());
                if inner[i] != name {
                    assert(rest.contains(inner[i]));
                    let k = rest.index_of(inner[i]);
                    assert(precedes(names[k], names[names.len() - 1]));
                }
            }
        }
        assert forall|x: Seq<char>| #[trigger] r.contains(x) <==> names.contains(x) || x == name by {
            if r.contains(x) {
                let k = r.index_of(x);
                if k < inner.len() {
                    assert(inner[k] == x);
                    assert(inner.contains(x));
                    if x != name {
                        assert(rest.contains(x));
                        assert(names[rest.index_of(x)] == x);
                    }
                } else {
                    assert(names[names.len() - 1] == x);
                }
            }
            if names.contains(x) {
                let k = names.index_of(x);
                if k < rest.len() {
                    assert(rest[k] == x);
                    assert(inner.contains(x));
                    assert(r[inner.index_of(x)] == x);
                } else {
                    assert(r[inner.len() as int] == x);
                }
            }
            if x == name {
                assert(inner.contains(x));
                assert(r[inner.index_of(x)] == x);
            }
        }
    }
}

/// The kept paths of a directory stay in order, each once, whatever path comes
/// next; and what is left out stands behind all that are kept.
pub proof fn scan_keeps_the_first_in_order(names: Seq<Seq<char>>, name: Seq<char>)
    requires
        is_ordered(names),
        names.len() <= MAX_DIRECTORY_ENTRIES,
    ensures
        is_ordered(kept_names(names, name)),
        forall|x: Seq<char>|
            kept_names(names, name).contains(x) ==> names.contains(x) || x == name,
        forall|x: Seq<char>, y: Seq<char>|
            (names.contains(x) || x == name) && !kept_names(names, name).contains(x)
                && #[trigger] kept_names(names, name).contains(y) ==> #[trigger] precedes(y, x),
{
    with_name_is_ordered(names, name);
    let more = with_name(names, name);
    let kept = kept_names(names, name);
    assert forall|i: int, j: int| 0 <= i < j < kept.len() implies precedes(
        #[trigger] kept[i],
        #[trigger] kept[j],
    ) by {
        assert(precedes(more[i], more[j]));
    }
    assert forall|x: Seq<char>| kept.contains(x) implies names.contains(x) || x == name by {
        assert(more[kept.index_of(x)] == x);
        assert(more.contains(x));
    }
    assert forall|x: Seq<char>, y: Seq<char>|
        (names.contains(x) || x == name) && !kept.contains(x)
            && #[trigger] kept.contains(y) implies #[trigger] precedes(y, x) by {
        assert(more.contains(x));
        let i = more.index_of(x);
        let j = kept.index_of(y);
        if i < kept.len() {
            assert(kept[i] == x);
        }
        assert(more[j] == y);
        assert(precedes(more[j], more[i]));
    }
}

// --- Processes ---

/// Takes the output of a process over, as long as all of it is within bounds.
/// Its streams share one count.
pub fn take_output(contents: &mut Vec<u8>, chunk: &Vec<u8>, count: usize, total: usize) -> (r:
    Result<usize, KernelError>)
    requires
        count <= chunk@.len(),
    ensures
        if total + count > MAX_IO_BYTES {
            is_limit(r, "process output exceeds the combined byte limit"@) && final(contents)@
                == old(contents)@
        } else {
            &&& r == Ok::<usize, KernelError>((total + count) as usize)
            &&& final(contents)@ == old(contents)@ + chunk@.take(count as int)
        },
{
    if total.saturating_add(count) > MAX_IO_BYTES {
        return Err(
            KernelError::IoLimit("process output exceeds the combined byte limit".to_owned()),
        );
    }
    append_part(contents, chunk, count);
    Ok(total + count)
}

/// What a process came to, once it is gone: where it could not be cleared away
/// that is the error, but an error of its own comes first.
pub fn settle_process(
    status: Result<Option<i32>, KernelError>,
    stdout: Vec<u8>,
    stderr: Vec<u8>,
    cleanup: Result<(), KernelError>,
) -> (r: Result<NativeResult, KernelError>)
    ensures
        match (status, cleanup) {
            (Err(e), _) => r == Err::<NativeResult, KernelError>(e),
            (Ok(_), Err(e)) => r == Err::<NativeResult, KernelError>(e),
            (Ok(status), Ok(_)) => r == Ok::<NativeResult, KernelError>(
                NativeResult::ProcessOutput { status, stdout, stderr },
            ),
        },
{
    match status {
        Err(e) => Err(e),
        Ok(status) => match cleanup {
            Err(e) => Err(e),
            Ok(_) => Ok(NativeResult::ProcessOutput { status, stdout, stderr }),
        },
    }
}

} // verus!
