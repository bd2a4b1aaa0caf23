//! Requests of the policy code to the kernel, and the replies.

use vstd::prelude::*;
use vstd::string::*;

use crate::mica_host::{context, value};
use crate::mica_host::context::{find_named_buffer, MicaHost};
use crate::mica_host::decode::{has_service, MAX_PROMPT_CANDIDATES, MAX_SEARCH_MATCHES};
use crate::mica_host::value::{Identity, Value, ValueEntry};
use crate::native_kernel::{
    tell_id, KernelError, NativeDirectoryEntry, NativeOperation, NativeResult, TextSelection,
    TextSnapshot,
};
use crate::text::{
    concat3, decimal_string, is_found_at, join_lines, quote, signed_string, str_chars, str_eq,
};
use crate::{native_kernel, scripted_mode, text};

verus! {

/// Who answers a request.
#[derive(Debug, Clone, Copy, PartialEq, Eq, Structural)]
pub enum Route {
    /// The network.
    Http,
    /// No one, until it is cancelled.
    Pending,
    /// The kernel.
    Kernel,
}

/// Who answers a request for a service.
pub fn route(service: &str) -> (r: Route)
    ensures
        r == if service@ == "http"@ || service@ == "openai"@ || service@ == "openai_responses"@
            || service@ == "embedding"@ {
            Route::Http
        } else if service@ == "test_pending"@ {
            Route::Pending
        } else {
            Route::Kernel
        },
{
    if str_eq(service, "http") || str_eq(service, "openai") || str_eq(service, "openai_responses")
        || str_eq(service, "embedding") {
        Route::Http
    } else if str_eq(service, "test_pending") {
        Route::Pending
    } else {
        Route::Kernel
    }
}

// --- Requests ---

/// What must have been granted for a service of the kernel.
pub open spec fn service_needs(service: Seq<char>) -> Option<Seq<char>> {
    if service == "clock_millis"@ {
        Some("clock_read"@)
    } else if service == "text_insert"@ {
        Some("text_write"@)
    } else if service == "text_search"@ {
        Some("text_read"@)
    } else if service == "list_directory"@ {
        Some("file_read"@)
    } else {
        None
    }
}

fn service_need(service: &str) -> (r: Option<&'static str>)
    ensures
        match r {
            Some(s) => service_needs(service@) == Some(s@),
            None => service_needs(service@) is None,
        },
{
    if str_eq(service, "clock_millis") {
        Some("clock_read")
    } else if str_eq(service, "text_insert") {
        Some("text_write")
    } else if str_eq(service, "text_search") {
        Some("text_read")
    } else if str_eq(service, "list_directory") {
        Some("file_read")
    } else {
        None
    }
}

/// Whether a request is refused, and why.
pub open spec fn refused(r: Result<NativeOperation, String>, why: Seq<char>) -> bool {
    r matches Err(m) && m@ == why
}

/// The text of a field.
pub open spec fn text_field(value: Value, name: Seq<char>) -> Option<Seq<char>> {
    match value.field(name) {
        Some(v) => v.text(),
        None => None,
    }
}

fn get_text(value: &Value, name: &str) -> (r: Option<String>)
    ensures
        match r {
            Some(s) => text_field(*value, name@) == Some(s@),
            None => text_field(*value, name@) is None,
        },
{
    match value.get(name) {
        Some(v) => match v.as_text() {
            Some(s) => Some(s.clone()),
            None => None,
        },
        None => None,
    }
}

/// What is executed of a planned request: the operation, unless the request was
/// cancelled since it was planned, or refused already.
pub open spec fn released(
    planned: Result<NativeOperation, String>,
    cancelled: bool,
    r: Result<NativeOperation, String>,
) -> bool {
    if planned is Ok && cancelled {
        refused(r, "request cancelled before native execution"@)
    } else {
        r == planned
    }
}

/// The operation that is executed of a planned request, or why none is.
pub fn release(
    planned: Result<NativeOperation, String>,
    cancelled: bool,
) -> (r: Result<NativeOperation, String>)
    ensures
        released(planned, cancelled, r),
{
    match planned {
        Ok(operation) => {
            if cancelled {
                Err("request cancelled before native execution".to_owned())
            } else {
                Ok(operation)
            }
        },
        Err(why) => Err(why),
    }
}

impl MicaHost {
    /// Whether a request leads to an operation of the kernel, or is refused: the
    /// one who asks must own the session, the service must be there and granted,
    /// and the buffer must be one of the session.
    pub open spec fn planned(
        &self,
        caller: Option<Identity>,
        service: Seq<char>,
        payload: Value,
        cancelled: bool,
        r: Result<NativeOperation, String>,
    ) -> bool {
        if cancelled {
            refused(r, "request cancelled before native admission"@)
        } else if caller != Some(self.names.actor) {
            refused(r, "request actor does not own this Roe endpoint"@)
        } else if service_needs(service) is None {
            refused(r, "unknown Roe native service"@)
        } else if !text::views(self.services@).contains(service_needs(service)->0) {
            refused(r, "request actor lacks the required native service grant"@)
        } else if service == "clock_millis"@ {
            r == Ok::<NativeOperation, String>(NativeOperation::ReadClockMillis)
        } else if service == "list_directory"@ {
            r matches Ok(NativeOperation::ListDirectory { path }) && path@ == match text_field(
                payload,
                "path"@,
            ) {
                Some(s) => s,
                None => "."@,
            }
        } else if service == "text_search"@ {
            match payload.field("buffer"@) {
                Some(Value::Identity(buffer)) => match context::record_named(
                    self.buffers@,
                    buffer,
                ) {
                    Some(b) => r == Ok::<NativeOperation, String>(
                        NativeOperation::Snapshot { resource: b.resource },
                    ),
                    None => refused(
                        r,
                        "text_search buffer is not authorized for this endpoint"@,
                    ),
                },
                _ => refused(r, "text_search requires an identity buffer"@),
            }
        } else {
            match payload.field("buffer"@) {
                Some(Value::Identity(buffer)) => match context::record_named(
                    self.buffers@,
                    buffer,
                ) {
                    Some(b) => {
                        let at = match payload.field("at"@) {
                            Some(v) => v.position(),
                            None => None,
                        };
                        if at is None {
                            refused(r, "text_insert requires a non-negative character offset"@)
                        } else {
                            match text_field(payload, "text"@) {
                                None => refused(r, "text_insert requires string text"@),
                                Some(s) => r matches Ok(
                                    NativeOperation::Insert { resource, at: a, text: t },
                                ) && resource == b.resource && Some(a) == at && t@ == s,
                            }
                        }
                    },
                    None => refused(
                        r,
                        "text_insert buffer is not authorized for this endpoint"@,
                    ),
                },
                _ => refused(r, "text_insert requires an identity buffer"@),
            }
        }
    }

    /// The operation of the kernel that a request leads to, or why it is
    /// refused.
    pub fn plan_request(
        &self,
        caller: Option<Identity>,
        service: &str,
        payload: &Value,
        cancelled: bool,
    ) -> (r: Result<NativeOperation, String>)
        ensures
            self.planned(caller, service@, *payload, cancelled, r),
    {
        if cancelled {
            return Err("request cancelled before native admission".to_owned());
        }
        let owns = match caller {
            Some(actor) => actor == self.names.actor,
            None => false,
        };
        if !owns {
            return Err("request actor does not own this Roe endpoint".to_owned());
        }
        let need = match service_need(service) {
            Some(need) => need,
            None => return Err("unknown Roe native service".to_owned()),
        };
        if !has_service(&self.services, need) {
            return Err("request actor lacks the required native service grant".to_owned());
        }
        if str_eq(service, "clock_millis") {
            return Ok(NativeOperation::ReadClockMillis);
        }
        if str_eq(service, "list_directory") {
            let path = match get_text(payload, "path") {
                Some(path) => path,
                None => ".".to_owned(),
            };
            return Ok(NativeOperation::ListDirectory { path });
        }
        let buffer = match payload.get("buffer") {
            Some(v) => v.as_identity(),
            None => None,
        };
        if str_eq(service, "text_search") {
            return match buffer {
                Some(buffer) => match find_named_buffer(&self.buffers, buffer) {
                    Some(i) => Ok(
                        NativeOperation::Snapshot { resource: self.buffers[i].resource },
                    ),
                    None => Err(
                        "text_search buffer is not authorized for this endpoint".to_owned(),
                    ),
                },
                None => Err("text_search requires an identity buffer".to_owned()),
            };
        }
        let buffer = match buffer {
            Some(buffer) => buffer,
            None => return Err("text_insert requires an identity buffer".to_owned()),
        };
        let i = match find_named_buffer(&self.buffers, buffer) {
            Some(i) => i,
            None => return Err(
                "text_insert buffer is not authorized for this endpoint".to_owned(),
            ),
        };
        let at = match payload.get("at") {
            Some(v) => v.as_position(),
            None => None,
        };
        let at = match at {
            Some(at) => at,
            None => return Err(
                "text_insert requires a non-negative character offset".to_owned(),
            ),
        };
        match get_text(payload, "text") {
            Some(text) => Ok(
                NativeOperation::Insert { resource: self.buffers[i].resource, at, text },
            ),
            None => Err("text_insert requires string text".to_owned()),
        }
    }

    /// Takes a service away from the policy code.
    pub fn revoke_service(&mut self, service: &str)
        ensures
            *final(self) == (MicaHost { services: final(self).services, ..*old(self) }),
            forall|s: Seq<char>| #[trigger]
                text::views(final(self).services@).contains(s) <==> text::views(
                    old(self).services@,
                ).contains(s) && s != service@,
    {
        let mut kept: Vec<String> = Vec::new();
        let ghost all = text::views(self.services@);
        let mut i: usize = 0;
        while i < self.services.len()
            invariant
                i <= self.services@.len(),
                all == text::views(self.services@),
                *self == *old(self),
                forall|s: Seq<char>| #[trigger]
                    text::views(kept@).contains(s) <==> all.take(i as int).contains(s) && s
                        != service@,
            decreases self.services.len() - i,
        {
            let ghost before = text::views(kept@);
            let ghost seen = all.take(i as int);
            let ghost next = all[i as int];
            assert(all.take(i + 1) =~= seen.push(next));
            if !str_eq(self.services[i].as_str(), service) {
                kept.push(self.services[i].clone());
                assert(text::views(kept@) =~= before.push(next));
            }
            proof {
                assert forall|s: Seq<char>| #[trigger]
                    text::views(kept@).contains(s) <==> all.take(i + 1).contains(s) && s
                        != service@ by {
                    pushed_holds(before, next, s);
                    pushed_holds(seen, next, s);
                    assert(before.contains(s) <==> seen.contains(s) && s != service@);
                }
            }
            i = i + 1;
        }
        assert(all.take(i as int) =~= all);
        self.services = kept;
    }
}

pub proof fn pushed_holds(all: Seq<Seq<char>>, last: Seq<char>, s: Seq<char>)
    ensures
        all.push(last).contains(s) <==> all.contains(s) || s == last,
{
    if all.contains(s) {
        assert(all.push(last)[all.index_of(s)] == s);
    }
    assert(all.push(last)[all.len() as int] == last);
}

// --- Replies ---

/// Whether a value is the reply to a request that failed.
pub open spec fn is_error_reply(r: Value, why: Seq<char>) -> bool {
    &&& r.field("status"@) matches Some(Value::Symbol(s)) && s@ == "error"@
    &&& r.field("error"@) matches Some(Value::Text(m)) && m@ == why
}

/// Whether a value is the reply to a request that succeeded, with a value.
pub open spec fn is_ok_reply(r: Value, value: Value) -> bool {
    &&& r.field("status"@) matches Some(Value::Symbol(s)) && s@ == "ok"@
    &&& r.field("value"@) == Some(value)
}

fn entry(name: &str, value: Value) -> (r: ValueEntry)
    ensures
        r.key matches Value::Symbol(s) && s@ == name@,
        r.value == value,
{
    ValueEntry { key: Value::Symbol(name.to_owned()), value }
}

/// The reply to a request that failed.
pub fn native_error(message: &str) -> (r: Value)
    ensures
        is_error_reply(r, message@),
{
    let entries = vec![
        entry("status", Value::Symbol("error".to_owned())),
        entry("error", Value::Text(message.to_owned())),
    ];
    proof {
        reveal_strlit("status");
        reveal_strlit("error");
        assert("status"@.len() == 6);
        assert("error"@.len() == 5);
        let all = entries@;
        assert(all.skip(1)[0] == all[1]);
        reveal_with_fuel(value::entry_named, 3);
    }
    Value::Table(entries)
}

/// The reply to a request that succeeded.
pub fn native_ok(value: Value) -> (r: Value)
    ensures
        is_ok_reply(r, value),
{
    let entries = vec![
        entry("status", Value::Symbol("ok".to_owned())),
        entry("value", value),
    ];
    proof {
        reveal_strlit("status");
        reveal_strlit("value");
        assert("status"@.len() == 6);
        assert("value"@.len() == 5);
        let all = entries@;
        assert(all.skip(1)[0] == all[1]);
        reveal_with_fuel(value::entry_named, 3);
    }
    Value::Table(entries)
}

/// The places where a text holds another, the first of those below `upto`, at
/// most as many as are shown.
pub open spec fn places(hay: Seq<char>, needle: Seq<char>, upto: int) -> Seq<int>
    decreases upto,
{
    if upto <= 0 {
        seq![]
    } else {
        let before = places(hay, needle, upto - 1);
        if before.len() < MAX_SEARCH_MATCHES && text::found_at(hay, needle, upto - 1) {
            before.push(upto - 1)
        } else {
            before
        }
    }
}

/// Whether a value is the pair of numbers from a place to its end.
pub open spec fn is_place(v: Value, start: int, len: int) -> bool {
    &&& v matches Value::List(pair)
    &&& pair@.len() == 2
    &&& pair@[0] == Value::Int(bounded(start))
    &&& pair@[1] == Value::Int(bounded(start + len))
}

/// A number as far as it can be told.
pub open spec fn bounded(n: int) -> i64 {
    if n <= i64::MAX {
        n as i64
    } else {
        i64::MAX
    }
}

fn bound(n: usize) -> (r: i64)
    ensures
        r == bounded(n as int),
{
    if n as u64 <= i64::MAX as u64 {
        n as i64
    } else {
        i64::MAX
    }
}

/// Where a text holds another, in order.
pub fn search_text(hay: &str, query: &str) -> (r: Vec<Value>)
    requires
        query@.len() > 0,
    ensures
        ({
            let found = places(hay@, query@, hay@.len() as int);
            &&& r@.len() == found.len()
            &&& forall|i: int|
                0 <= i < r@.len() ==> is_place(
                    #[trigger] r@[i],
                    found[i],
                    query@.len() as int,
                )
        }),
{
    let haystack = str_chars(hay);
    let needle = str_chars(query);
    let mut r: Vec<Value> = Vec::new();
    let mut i: usize = 0;
    while i < haystack.len()
        invariant
            i <= haystack@.len(),
            haystack@ == hay@,
            needle@ == query@,
            r@.len() == places(hay@, query@, i as int).len(),
            forall|k: int|
                0 <= k < r@.len() ==> is_place(
                    #[trigger] r@[k],
                    places(hay@, query@, i as int)[k],
                    query@.len() as int,
                ),
        decreases haystack.len() - i,
    {
        if r.len() < MAX_SEARCH_MATCHES && is_found_at(&haystack, &needle, i) {
            assert(i + needle@.len() <= hay@.len());
            let pair = vec![Value::Int(bound(i)), Value::Int(bound(i + needle.len()))];
            assert(pair@[0] == Value::Int(bounded(i as int)));
            r.push(Value::List(pair));
        }
        i = i + 1;
    }
    r
}

/// Whether a value describes an entry of a directory.
pub open spec fn is_entry_value(v: Value, e: NativeDirectoryEntry) -> bool {
    &&& v.field("name"@) matches Some(Value::Text(s)) && s@ == e.name@
    &&& v.field("path"@) matches Some(Value::Text(s)) && s@ == e.path@
    &&& v.field("is_directory"@) == Some(Value::Bool(e.is_directory))
}

fn entry_value(e: &NativeDirectoryEntry) -> (r: Value)
    ensures
        is_entry_value(r, *e),
{
    let entries = vec![
        entry("name", Value::Text(e.name.clone())),
        entry("path", Value::Text(e.path.clone())),
        entry("is_directory", Value::Bool(e.is_directory)),
    ];
    proof {
        reveal_strlit("name");
        reveal_strlit("path");
        reveal_strlit("is_directory");
        assert("name"@.len() == 4 && "name"@[0] == 'n');
        assert("path"@.len() == 4 && "path"@[0] == 'p');
        assert("is_directory"@.len() == 12);
        let all = entries@;
        assert(all.skip(1)[0] == all[1]);
        assert(all.skip(1).skip(1)[0] == all[2]);
        reveal_with_fuel(value::entry_named, 4);
    }
    Value::Table(entries)
}

/// Whether a value tells of the entries of a directory, as many as a prompt can
/// show besides one more.
pub open spec fn is_listing(v: Value, directory: Seq<char>, entries: Seq<NativeDirectoryEntry>) -> bool {
    &&& v.field("directory"@) matches Some(Value::Text(s)) && s@ == directory
    &&& v.field("entries"@) matches Some(Value::List(rows)) && {
        &&& rows@.len() == if entries.len() < MAX_PROMPT_CANDIDATES {
            entries.len() as int
        } else {
            MAX_PROMPT_CANDIDATES - 1
        }
        &&& forall|i: int|
            0 <= i < rows@.len() ==> is_entry_value(#[trigger] rows@[i], entries[i])
    }
}

fn listing(directory: String, entries: &Vec<NativeDirectoryEntry>) -> (r: Value)
    ensures
        is_listing(r, directory@, entries@),
{
    let mut rows: Vec<Value> = Vec::new();
    let mut i: usize = 0;
    while i < entries.len() && i < MAX_PROMPT_CANDIDATES - 1
        invariant
            i <= entries@.len(),
            i <= MAX_PROMPT_CANDIDATES - 1,
            rows@.len() == i,
            forall|k: int| 0 <= k < i ==> is_entry_value(#[trigger] rows@[k], entries@[k]),
        decreases entries.len() - i,
    {
        rows.push(entry_value(&entries[i]));
        i = i + 1;
    }
    let table = vec![
        entry("directory", Value::Text(directory)),
        entry("entries", Value::List(rows)),
    ];
    proof {
        reveal_strlit("directory");
        reveal_strlit("entries");
        assert("directory"@.len() == 9);
        assert("entries"@.len() == 7);
        let all = table@;
        assert(all.skip(1)[0] == all[1]);
        reveal_with_fuel(value::entry_named, 3);
    }
    Value::Table(table)
}

/// Bytes as a list of numbers.
pub open spec fn bytes_told(bytes: Seq<u8>) -> Seq<char> {
    "["@ + text::joined(bytes.map_values(|b: u8| text::decimal(b as nat)), ", "@) + "]"@
}

fn tell_bytes(bytes: &Vec<u8>) -> (r: String)
    ensures
        r@ == bytes_told(bytes@),
{
    let ghost all = bytes@.map_values(|b: u8| text::decimal(b as nat));
    let mut parts: Vec<String> = Vec::new();
    let mut i: usize = 0;
    assert(text::views(parts@) =~= all.take(0));
    while i < bytes.len()
        invariant
            i <= bytes@.len(),
            all == bytes@.map_values(|b: u8| text::decimal(b as nat)),
            text::views(parts@) == all.take(i as int),
        decreases bytes.len() - i,
    {
        let ghost before = parts@;
        parts.push(decimal_string(bytes[i] as u64));
        i = i + 1;
        assert(text::views(parts@) =~= text::views(before).push(parts@.last()@));
        assert(all.take(i as int) =~= all.take(i - 1).push(all[i - 1]));
    }
    assert(all.take(i as int) =~= all);
    concat3("[", join_lines(&parts, ", ").as_str(), "]")
}

/// A selection in words.
pub open spec fn selection_told(selection: Option<TextSelection>) -> Seq<char> {
    match selection {
        None => "None"@,
        Some(s) => "Some(TextSelection { anchor: "@ + text::decimal(s.anchor as nat)
            + ", active: "@ + text::decimal(s.active as nat) + " })"@,
    }
}

fn tell_selection(selection: Option<TextSelection>) -> (r: String)
    ensures
        r@ == selection_told(selection),
{
    match selection {
        None => "None".to_owned(),
        Some(s) => {
            let mut r = "Some(TextSelection { anchor: ".to_owned();
            r.append(decimal_string(s.anchor as u64).as_str());
            r.append(", active: ");
            r.append(decimal_string(s.active as u64).as_str());
            r.append(" })");
            r
        },
    }
}

/// A text that may be missing, in words.
pub open spec fn maybe_told(s: Option<Seq<char>>) -> Seq<char> {
    match s {
        None => "None"@,
        Some(s) => "Some("@ + text::quoted(s) + ")"@,
    }
}

/// A snapshot in words.
pub open spec fn snapshot_told(s: TextSnapshot) -> Seq<char> {
    "TextSnapshot { resource: "@ + native_kernel::id_told(s.resource) + ", name: "@ + text::quoted(
        s.name@,
    ) + ", visited_file: "@ + maybe_told(
        match s.visited_file {
            Some(path) => Some(path@),
            None => None,
        },
    ) + ", text_revision: "@ + text::decimal(s.text_revision as nat)
        + ", last_saved_revision: "@ + text::decimal(s.last_saved_revision as nat)
        + ", modified: "@ + scripted_mode::truth(s.modified) + ", read_only: "@
        + scripted_mode::truth(s.read_only) + ", text: "@ + text::quoted(s.text@)
        + ", character_len: "@ + text::decimal(s.character_len as nat) + ", line_count: "@
        + text::decimal(s.line_count as nat) + ", selection: "@ + selection_told(s.selection)
        + " }"@
}

fn say_truth(b: bool) -> (r: &'static str)
    ensures
        r@ == scripted_mode::truth(b),
{
    if b {
        "true"
    } else {
        "false"
    }
}

fn tell_snapshot(s: &TextSnapshot) -> (r: String)
    ensures
        r@ == snapshot_told(*s),
{
    let mut r = "TextSnapshot { resource: ".to_owned();
    r.append(tell_id(s.resource).as_str());
    r.append(", name: ");
    r.append(quote(s.name.as_str()).as_str());
    r.append(", visited_file: ");
    let file = match &s.visited_file {
        None => "None".to_owned(),
        Some(path) => concat3("Some(", quote(path.as_str()).as_str(), ")"),
    };
    r.append(file.as_str());
    r.append(", text_revision: ");
    r.append(decimal_string(s.text_revision).as_str());
    r.append(", last_saved_revision: ");
    r.append(decimal_string(s.last_saved_revision).as_str());
    r.append(", modified: ");
    r.append(say_truth(s.modified));
    r.append(", read_only: ");
    r.append(say_truth(s.read_only));
    r.append(", text: ");
    r.append(quote(s.text.as_str()).as_str());
    r.append(", character_len: ");
    r.append(decimal_string(s.character_len as u64).as_str());
    r.append(", line_count: ");
    r.append(decimal_string(s.line_count as u64).as_str());
    r.append(", selection: ");
    r.append(tell_selection(s.selection).as_str());
    r.append(" }");
    r
}

/// What the kernel came to, in words, where it is nothing that a service gives.
pub open spec fn result_told(result: NativeResult) -> Seq<char> {
    match result {
        NativeResult::ResourceCreated(id) => "ResourceCreated("@ + native_kernel::id_told(id)
            + ")"@,
        NativeResult::ResourceClosed => "ResourceClosed"@,
        NativeResult::Snapshot(s) => "Snapshot("@ + snapshot_told(s) + ")"@,
        NativeResult::LayoutValidated => "LayoutValidated"@,
        NativeResult::FileContents(s) => "FileContents("@ + text::quoted(s@) + ")"@,
        NativeResult::FileWritten => "FileWritten"@,
        NativeResult::ProcessOutput { status, stdout, stderr } => "ProcessOutput { status: "@
            + match status {
            None => "None"@,
            Some(n) => "Some("@ + text::signed(n as i64) + ")"@,
        } + ", stdout: "@ + bytes_told(stdout@) + ", stderr: "@ + bytes_told(stderr@) + " }"@,
        NativeResult::WatchRegistered => "WatchRegistered"@,
        NativeResult::WatchUnregistered => "WatchUnregistered"@,
        _ => ""@,
    }
}

fn tell_result(result: &NativeResult) -> (r: String)
    ensures
        r@ == result_told(*result),
{
    match result {
        NativeResult::ResourceCreated(id) => concat3(
            "ResourceCreated(",
            tell_id(*id).as_str(),
            ")",
        ),
        NativeResult::ResourceClosed => "ResourceClosed".to_owned(),
        NativeResult::Snapshot(s) => concat3("Snapshot(", tell_snapshot(s).as_str(), ")"),
        NativeResult::LayoutValidated => "LayoutValidated".to_owned(),
        NativeResult::FileContents(s) => concat3(
            "FileContents(",
            quote(s.as_str()).as_str(),
            ")",
        ),
        NativeResult::FileWritten => "FileWritten".to_owned(),
        NativeResult::ProcessOutput { status, stdout, stderr } => {
            let mut r = "ProcessOutput { status: ".to_owned();
            let code = match status {
                None => "None".to_owned(),
                Some(n) => concat3("Some(", signed_string(*n as i64).as_str(), ")"),
            };
            r.append(code.as_str());
            r.append(", stdout: ");
            r.append(tell_bytes(stdout).as_str());
            r.append(", stderr: ");
            r.append(tell_bytes(stderr).as_str());
            r.append(" }");
            r
        },
        NativeResult::WatchRegistered => "WatchRegistered".to_owned(),
        NativeResult::WatchUnregistered => "WatchUnregistered".to_owned(),
        _ => "".to_owned(),
    }
}

/// Whether a value is the reply to a request for a service, where the kernel
/// came to a result.
pub open spec fn replied(
    service: Seq<char>,
    payload: Value,
    outcome: Result<NativeResult, KernelError>,
    r: Value,
) -> bool {
    match outcome {
        Err(e) => is_error_reply(r, e.told()),
        Ok(NativeResult::ClockMillis(millis)) => is_ok_reply(
            r,
            Value::Int(bounded(millis as int)),
        ),
        Ok(NativeResult::DirectoryEntries { directory, entries }) => {
            &&& r.field("value"@) matches Some(v)
            &&& is_ok_reply(r, v)
            &&& is_listing(v, directory@, entries@)
        },
        Ok(NativeResult::Snapshot(snapshot)) if service == "text_search"@ => {
            let query = match text_field(payload, "query"@) {
                Some(s) => s,
                None => Seq::<char>::empty(),
            };
            let found = places(snapshot.text@, query, snapshot.text@.len() as int);
            &&& r.field("value"@) matches Some(Value::List(rows))
            &&& is_ok_reply(r, Value::List(rows))
            &&& if query.len() == 0 {
                rows@.len() == 0
            } else {
                &&& rows@.len() == found.len()
                &&& forall|i: int|
                    0 <= i < rows@.len() ==> is_place(
                        #[trigger] rows@[i],
                        found[i],
                        query.len() as int,
                    )
            }
        },
        Ok(NativeResult::TextChanged { .. }) => r.field("value"@) matches Some(Value::Symbol(s))
            && s@ == "inserted"@ && is_ok_reply(r, Value::Symbol(s)),
        Ok(other) => is_error_reply(r, "unexpected native result: "@ + result_told(other)),
    }
}

/// The reply to a request for a service, once the kernel came to a result.
pub fn reply(
    service: &str,
    payload: &Value,
    outcome: Result<NativeResult, KernelError>,
) -> (r: Value)
    ensures
        replied(service@, *payload, outcome, r),
{
    match outcome {
        Err(e) => native_error(e.message().as_str()),
        Ok(result) => match result {
            NativeResult::ClockMillis(millis) => native_ok(
                Value::Int(
                    if millis <= i64::MAX as u64 {
                        millis as i64
                    } else {
                        i64::MAX
                    },
                ),
            ),
            NativeResult::DirectoryEntries { directory, entries } => native_ok(
                listing(directory, &entries),
            ),
            NativeResult::Snapshot(snapshot) => {
                if str_eq(service, "text_search") {
                    let query = match get_text(payload, "query") {
                        Some(query) => query,
                        None => String::new(),
                    };
                    if text::char_count(query.as_str()) == 0 {
                        native_ok(Value::List(Vec::new()))
                    } else {
                        native_ok(
                            Value::List(search_text(snapshot.text.as_str(), query.as_str())),
                        )
                    }
                } else {
                    let other = NativeResult::Snapshot(snapshot);
                    native_error(
                        text::concat2(
                            "unexpected native result: ",
                            tell_result(&other).as_str(),
                        ).as_str(),
                    )
                }
            },
            NativeResult::TextChanged { .. } => native_ok(Value::Symbol("inserted".to_owned())),
            other => native_error(
                text::concat2("unexpected native result: ", tell_result(&other).as_str()).as_str(),
            ),
        },
    }
}

/// The places that a search finds are in order, and each holds the text that was
/// searched for; below the bound none is left out.
pub proof fn search_finds_what_is_there(hay: Seq<char>, needle: Seq<char>, upto: int)
    requires
        0 <= upto <= hay.len(),
    ensures
        places(hay, needle, upto).len() <= MAX_SEARCH_MATCHES,
        forall|i: int|
            0 <= i < places(hay, needle, upto).len() ==> 0 <= #[trigger] places(
                hay,
                needle,
                upto,
            )[i] < upto && text::found_at(hay, needle, places(hay, needle, upto)[i]),
        forall|i: int, j: int|
            0 <= i < j < places(hay, needle, upto).len() ==> #[trigger] places(
                hay,
                needle,
                upto,
            )[i] < #[trigger] places(hay, needle, upto)[j],
        places(hay, needle, upto).len() < MAX_SEARCH_MATCHES ==> forall|p: int|
            0 <= p < upto && #[trigger] text::found_at(hay, needle, p) ==> places(
                hay,
                needle,
                upto,
            ).contains(p),
    decreases upto,
{
    if upto > 0 {
        search_finds_what_is_there(hay, needle, upto - 1);
        let before = places(hay, needle, upto - 1);
        let after = places(hay, needle, upto);
        if after.len() < MAX_SEARCH_MATCHES {
            assert forall|p: int|
                0 <= p < upto && #[trigger] text::found_at(
                    hay,
                    needle,
                    p,
                ) implies after.contains(p) by {
                if p < upto - 1 {
                    assert(before.contains(p));
                    assert(after[before.index_of(p)] == p);
                } else {
                    assert(after[before.len() as int] == p);
                }
            }
        }
    }
}

} // verus!
