//! What the policy code may have the kernel do, and what it is answered.

use vstd::prelude::*;
use vstd::string::*;

use crate::kernel_laws;
use crate::mica_host::bridge;
use crate::mica_host::context;
use crate::mica_host::context::MicaHost;
use crate::mica_host::facts::BufferRecord;
use crate::mica_host::value::{Identity, Value};
use crate::native_kernel;
use crate::native_kernel::{
    Capability, KernelError, NativeAnswers, NativeKernel, NativeOperation, NativeResult,
    ResourceId,
};
use crate::text;

verus! {

proof fn services_differ()
    ensures
        "clock_millis"@ != "text_insert"@,
        "clock_millis"@ != "text_search"@,
        "clock_millis"@ != "list_directory"@,
        "text_insert"@ != "text_search"@,
        "text_insert"@ != "list_directory"@,
        "text_search"@ != "list_directory"@,
{
    reveal_strlit("clock_millis");
    reveal_strlit("text_insert");
    reveal_strlit("text_search");
    reveal_strlit("list_directory");
    assert("clock_millis"@.len() == 12);
    assert("text_insert"@.len() == 11 && "text_insert"@[5] == 'i');
    assert("text_search"@.len() == 11 && "text_search"@[5] == 's');
    assert("list_directory"@.len() == 14);
}

proof fn record_is_listed(records: Seq<BufferRecord>, logical: Identity) -> (k: int)
    requires
        context::record_named(records, logical) is Some,
    ensures
        0 <= k < records.len(),
        records[k] == context::record_named(records, logical)->0,
        records[k].logical == logical,
    decreases records.len(),
{
    if records[0].logical == logical {
        0
    } else {
        let rest = records.skip(1);
        let k = record_is_listed(rest, logical);
        assert(rest[k] == records[k + 1]);
        k + 1
    }
}

/// Only the actor of a session gets anything done, and nothing once the request
/// is cancelled.
pub proof fn only_the_actor_is_served(
    host: MicaHost,
    caller: Option<Identity>,
    service: Seq<char>,
    payload: Value,
    cancelled: bool,
    r: Result<NativeOperation, String>,
)
    requires
        host.planned(caller, service, payload, cancelled, r),
        r is Ok,
    ensures
        caller == Some(host.names.actor),
        !cancelled,
{
}

/// What is done for the policy code was granted to it: whoever reads the clock
/// has the right to, and so it is with texts and directories.
pub proof fn planned_work_is_granted(
    host: MicaHost,
    caller: Option<Identity>,
    service: Seq<char>,
    payload: Value,
    cancelled: bool,
    op: NativeOperation,
)
    requires
        host.planned(caller, service, payload, cancelled, Ok(op)),
    ensures
        match native_kernel::needed(op) {
            Capability::ClockRead => text::views(host.services@).contains("clock_read"@),
            Capability::TextRead => text::views(host.services@).contains("text_read"@),
            Capability::TextWrite => text::views(host.services@).contains("text_write"@),
            Capability::FileRead => text::views(host.services@).contains("file_read"@),
            _ => false,
        },
{
    services_differ();
}

/// A service does what it is called, and to a text only where that is one of the
/// session.
pub proof fn services_do_what_they_are_called(
    host: MicaHost,
    caller: Option<Identity>,
    service: Seq<char>,
    payload: Value,
    cancelled: bool,
    op: NativeOperation,
)
    requires
        host.planned(caller, service, payload, cancelled, Ok(op)),
    ensures
        op is ReadClockMillis <==> service == "clock_millis"@,
        op is ListDirectory <==> service == "list_directory"@,
        op is Snapshot <==> service == "text_search"@,
        op is Insert <==> service == "text_insert"@,
        op is ReadClockMillis || op is ListDirectory || op is Snapshot || op is Insert,
        native_kernel::subject(op) matches Some(resource) ==> exists|k: int|
            0 <= k < host.buffers@.len() && (#[trigger] host.buffers@[k]).resource == resource
                && payload.field("buffer"@) == Some(Value::Identity(host.buffers@[k].logical)),
{
    services_differ();
    if service == "text_search"@ || service == "text_insert"@ {
        let buffer = payload.field("buffer"@)->0->Identity_0;
        let k = record_is_listed(host.buffers@, buffer);
        assert(host.buffers@[k].logical == buffer);
    }
}

/// What the policy code inserts stands in the text of the buffer that it names,
/// at the place that it names.
pub proof fn inserted_text_is_in_the_named_buffer(
    host: MicaHost,
    caller: Option<Identity>,
    payload: Value,
    op: NativeOperation,
    k0: NativeKernel,
    k1: NativeKernel,
    answers: NativeAnswers,
    r: Result<NativeResult, KernelError>,
    resource: ResourceId,
    at: usize,
    s: String,
)
    requires
        host.planned(caller, "text_insert"@, payload, false, Ok(op)),
        native_kernel::subject(op) == Some(resource),
        payload.field("at"@) == Some(Value::Int(at as i64)),
        at <= i64::MAX,
        payload.field("text"@) == Some(Value::Text(s)),
        kernel_laws::is_writable(k0, resource),
        at <= kernel_laws::text_of(k0, resource).len(),
        native_kernel::executed(k0, k1, op, answers, r),
    ensures
        r is Ok,
        kernel_laws::exchanged(
            kernel_laws::text_of(k0, resource),
            kernel_laws::text_of(k1, resource),
            at as int,
            0,
            s@,
        ),
{
    services_differ();
}

/// A request that was granted and is well formed is not refused.
pub proof fn sound_requests_are_planned(
    host: MicaHost,
    service: Seq<char>,
    payload: Value,
    r: Result<NativeOperation, String>,
    k: int,
)
    requires
        host.planned(Some(host.names.actor), service, payload, false, r),
        text::views(host.services@).contains("clock_read"@),
        text::views(host.services@).contains("text_read"@),
        text::views(host.services@).contains("text_write"@),
        text::views(host.services@).contains("file_read"@),
        0 <= k < host.buffers@.len(),
        payload.field("buffer"@) == Some(Value::Identity(host.buffers@[k].logical)),
        payload.field("at"@) matches Some(Value::Int(n)) && 0 <= n <= usize::MAX,
        payload.field("text"@) is Some && payload.field("text"@)->0 is Text,
    ensures
        r is Ok <==> service == "clock_millis"@ || service == "list_directory"@ || service
            == "text_search"@ || service == "text_insert"@,
{
    services_differ();
    listed_is_found(host.buffers@, k);
}

proof fn listed_is_found(records: Seq<BufferRecord>, k: int)
    requires
        0 <= k < records.len(),
    ensures
        context::record_named(records, records[k].logical) is Some,
    decreases records.len(),
{
    if k > 0 {
        let rest = records.skip(1);
        assert(rest[k - 1] == records[k]);
        listed_is_found(rest, k - 1);
    }
}

/// A request that fails in the kernel is answered with the error, and is no
/// success.
pub proof fn errors_are_answered_as_errors(
    service: Seq<char>,
    payload: Value,
    e: KernelError,
    r: Value,
)
    requires
        bridge::replied(service, payload, Err(e), r),
    ensures
        r.field("status"@) matches Some(Value::Symbol(s)) && s@ == "error"@ && s@ != "ok"@,
        r.field("error"@) matches Some(Value::Text(m)) && m@ == e.told(),
{
    reveal_strlit("error");
    reveal_strlit("ok");
    assert("error"@.len() == 5);
    assert("ok"@.len() == 2);
}

/// What a search is answered is where the text holds what was asked for: each
/// pair of numbers tells from where to where, and the pairs are in order.
pub proof fn search_is_answered_with_places(
    payload: Value,
    snapshot: native_kernel::TextSnapshot,
    query: String,
    r: Value,
)
    requires
        bridge::replied("text_search"@, payload, Ok(NativeResult::Snapshot(snapshot)), r),
        payload.field("query"@) == Some(Value::Text(query)),
        query@.len() > 0,
        snapshot.text@.len() <= i64::MAX,
    ensures
        r.field("status"@) matches Some(Value::Symbol(s)) && s@ == "ok"@,
        r.field("value"@) matches Some(Value::List(rows)) && forall|i: int|
            0 <= i < rows@.len() ==> tells_place(#[trigger] rows@[i], snapshot.text@, query@),
{
    let t = snapshot.text@;
    let rows = r.field("value"@)->0->List_0;
    let found = bridge::places(t, query@, t.len() as int);
    bridge::search_finds_what_is_there(t, query@, t.len() as int);
    assert forall|i: int| 0 <= i < rows@.len() implies tells_place(
        #[trigger] rows@[i],
        t,
        query@,
    ) by {
        assert(bridge::is_place(rows@[i], found[i], query@.len() as int));
        assert(text::found_at(t, query@, found[i]));
    }
}

/// Whether a value tells of a place where a text holds another.
pub open spec fn tells_place(v: Value, t: Seq<char>, part: Seq<char>) -> bool {
    v matches Value::List(pair) && pair@.len() == 2 && (pair@[0] matches Value::Int(from) && (
    pair@[1] matches Value::Int(to) && 0 <= from <= to <= t.len() && t.subrange(
        from as int,
        to as int,
    ) == part))
}

/// What the clock says is told as it is, as far as it can be.
pub proof fn clock_is_told_as_it_is(service: Seq<char>, payload: Value, millis: u64, r: Value)
    requires
        bridge::replied(service, payload, Ok(NativeResult::ClockMillis(millis)), r),
        millis <= i64::MAX,
    ensures
        r.field("value"@) matches Some(Value::Int(n)) && n == millis,
{
}

} // verus!
