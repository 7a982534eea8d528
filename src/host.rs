//! The host imports of the sandboxed-binary convention: each reads its arguments
//! out of guest memory, makes one bridge call, and stages the encoded result.

use vstd::prelude::*;
use crate::backend::BackendError;
use crate::bridge::{Bridge, BridgeError};
use crate::sandbox::{CallBuffer, SandboxError};

verus! {

/// The wire form (JSON) of a result without a value.
pub uninterp spec fn json_unit_result(r: Result<(), Seq<char>>) -> Seq<u8>;

/// The wire form (JSON) of a result holding optional bytes.
pub uninterp spec fn json_bytes_result(r: Result<Option<Seq<u8>>, Seq<char>>) -> Seq<u8>;

/// The wire form (JSON) of a result holding optional text.
pub uninterp spec fn json_opt_text_result(r: Result<Option<Seq<char>>, Seq<char>>) -> Seq<u8>;

/// The wire form (JSON) of a result holding text.
pub uninterp spec fn json_text_result(r: Result<Seq<char>, Seq<char>>) -> Seq<u8>;

pub open spec fn unit_view(r: Result<(), String>) -> Result<(), Seq<char>> {
    match r {
        Ok(()) => Ok(()),
        Err(m) => Err(m@),
    }
}

pub open spec fn bytes_view(r: Result<Option<Vec<u8>>, String>) -> Result<Option<Seq<u8>>, Seq<char>> {
    match r {
        Ok(Some(b)) => Ok(Some(b@)),
        Ok(None) => Ok(None),
        Err(m) => Err(m@),
    }
}

pub open spec fn opt_text_view(r: Result<Option<String>, String>) -> Result<Option<Seq<char>>, Seq<char>> {
    match r {
        Ok(Some(t)) => Ok(Some(t@)),
        Ok(None) => Ok(None),
        Err(m) => Err(m@),
    }
}

pub open spec fn text_view(r: Result<String, String>) -> Result<Seq<char>, Seq<char>> {
    match r {
        Ok(t) => Ok(t@),
        Err(m) => Err(m@),
    }
}

/// Relies on serde_json's `to_vec` for `Result<(), String>`, which cannot fail
/// for this type.
#[verifier::external_body]
fn encode_unit_result(r: &Result<(), String>) -> (b: Vec<u8>)
    ensures
        b@ == json_unit_result(unit_view(*r)),
{
    serde_json::to_vec(r).unwrap_or_default()
}

/// Relies on serde_json's `to_vec` for `Result<Option<Vec<u8>>, String>`, which
/// cannot fail for this type.
#[verifier::external_body]
fn encode_bytes_result(r: &Result<Option<Vec<u8>>, String>) -> (b: Vec<u8>)
    ensures
        b@ == json_bytes_result(bytes_view(*r)),
{
    serde_json::to_vec(r).unwrap_or_default()
}

/// Relies on serde_json's `to_vec` for `Result<Option<String>, String>`, which
/// cannot fail for this type.
#[verifier::external_body]
fn encode_opt_text_result(r: &Result<Option<String>, String>) -> (b: Vec<u8>)
    ensures
        b@ == json_opt_text_result(opt_text_view(*r)),
{
    serde_json::to_vec(r).unwrap_or_default()
}

/// Relies on serde_json's `to_vec` for `Result<String, String>`, which cannot
/// fail for this type.
#[verifier::external_body]
fn encode_text_result(r: &Result<String, String>) -> (b: Vec<u8>)
    ensures
        b@ == json_text_result(text_view(*r)),
{
    serde_json::to_vec(r).unwrap_or_default()
}

/// Relies on `String::from_utf8`: the text that valid UTF-8 bytes encode, and
/// nothing for invalid bytes.
#[verifier::external_body]
fn utf8_text(b: Vec<u8>) -> (r: Option<String>)
    ensures
        r is Some <==> vstd::utf8::valid_utf8(b@),
        r matches Some(s) ==> s@ == vstd::utf8::decode_utf8(b@),
{
    String::from_utf8(b).ok()
}

/// Whether `[ptr, ptr + len)` lies inside a guest memory of `size` bytes.
pub open spec fn in_bounds(size: int, ptr: i32, len: i32) -> bool {
    0 <= ptr && 0 <= len && ptr + len <= size
}

/// The guest bytes at `[ptr, ptr + len)`.
pub fn guest_bytes(memory: &[u8], ptr: i32, len: i32) -> (r: Result<Vec<u8>, SandboxError>)
    ensures
        in_bounds(memory@.len() as int, ptr, len) ==> r is Ok && r->Ok_0@ == memory@.subrange(ptr as int, ptr + len),
        !in_bounds(memory@.len() as int, ptr, len) ==> r == Err::<Vec<u8>, SandboxError>(SandboxError::OutOfBounds),
{
    if ptr < 0 || len < 0 {
        return Err(SandboxError::OutOfBounds);
    }
    let start = ptr as usize;
    let n = len as usize;
    if start > memory.len() || n > memory.len() - start {
        return Err(SandboxError::OutOfBounds);
    }
    let mut out: Vec<u8> = Vec::new();
    let mut i: usize = 0;
    while i < n
        invariant
            0 <= i <= n,
            start + n <= memory@.len(),
            memory@.len() <= usize::MAX,
            start == ptr,
            out@ == memory@.subrange(start as int, start + i),
        decreases n - i,
    {
        out.push(memory[start + i]);
        i = i + 1;
        assert(out@ =~= memory@.subrange(start as int, start + i));
    }
    Ok(out)
}

/// What guest text at `[ptr, ptr + len)` stands for, when it is in bounds and UTF-8.
pub open spec fn guest_text_spec(memory: Seq<u8>, ptr: i32, len: i32) -> Result<Seq<char>, SandboxError> {
    if !in_bounds(memory.len() as int, ptr, len) {
        Err(SandboxError::OutOfBounds)
    } else if !vstd::utf8::valid_utf8(memory.subrange(ptr as int, ptr + len)) {
        Err(SandboxError::NotText)
    } else {
        Ok(vstd::utf8::decode_utf8(memory.subrange(ptr as int, ptr + len)))
    }
}

/// The guest text at `[ptr, ptr + len)`.
pub fn guest_text(memory: &[u8], ptr: i32, len: i32) -> (r: Result<String, SandboxError>)
    ensures
        match r {
            Ok(s) => guest_text_spec(memory@, ptr, len) == Ok::<Seq<char>, SandboxError>(s@),
            Err(e) => guest_text_spec(memory@, ptr, len) == Err::<Seq<char>, SandboxError>(e),
        },
{
    let b = match guest_bytes(memory, ptr, len) {
        Ok(b) => b,
        Err(e) => return Err(e),
    };
    match utf8_text(b) {
        Some(s) => Ok(s),
        None => Err(SandboxError::NotText),
    }
}

/// The message a failed bridge call hands the guest.
pub fn bridge_error_message(e: &BridgeError) -> (r: String)
    ensures
        e matches BridgeError::Query(m) ==> r@ == m@,
        e matches BridgeError::Backend(BackendError::Io(m)) ==> r@ == m@,
        e matches BridgeError::Backend(BackendError::InvalidPath) ==> r@ == "invalid path"@,
{
    match e {
        BridgeError::Query(m) => m.clone(),
        BridgeError::Backend(BackendError::Io(m)) => m.clone(),
        BridgeError::Backend(BackendError::InvalidPath) => "invalid path".to_string(),
    }
}

/// Whether `b` is a fresh staging of the wire form `data`, with the error flag `is_err`.
pub open spec fn staged_as(old_buffer: CallBuffer, b: CallBuffer, handle: u64, is_err: bool, data: Seq<u8>) -> bool {
    &&& handle == old_buffer.next_handle
    &&& b.next_handle == old_buffer.next_handle + 1
    &&& b.call_buffer matches Some(s) && s.handle == handle && s.read_pos == 0 && s.is_err == is_err && s.data@ == data
}

/// Whether a call may start: no descriptor is open and a fresh handle is left.
pub open spec fn may_start(b: CallBuffer) -> bool {
    b.call_buffer is None && b.next_handle < u64::MAX
}

fn check_start(buffer: &CallBuffer) -> (r: Result<(), SandboxError>)
    ensures
        r is Ok <==> may_start(*buffer),
        buffer.call_buffer is Some ==> r == Err::<(), SandboxError>(SandboxError::DescriptorStillOpen),
        buffer.call_buffer is None && buffer.next_handle == u64::MAX ==> r == Err::<(), SandboxError>(SandboxError::HandlesExhausted),
{
    if buffer.call_buffer.is_some() {
        return Err(SandboxError::DescriptorStillOpen);
    }
    if buffer.next_handle == u64::MAX {
        return Err(SandboxError::HandlesExhausted);
    }
    Ok(())
}

/// `write_file(path, content)`: writes through the bridge and stages the result.
pub fn host_write_file<B: Bridge>(
    bridge: &mut B,
    buffer: &mut CallBuffer,
    memory: &[u8],
    path_ptr: i32,
    path_len: i32,
    content_ptr: i32,
    content_len: i32,
) -> (r: Result<u64, SandboxError>)
    requires
        old(bridge).valid(),
        old(buffer).wf(),
    ensures
        final(bridge).valid(),
        final(buffer).wf(),
        r is Err ==> final(bridge).recorded() == old(bridge).recorded() && *final(buffer) == *old(buffer),
        r is Ok <==> (may_start(*old(buffer)) && guest_text_spec(memory@, path_ptr, path_len) is Ok
            && in_bounds(memory@.len() as int, content_ptr, content_len)),
        r matches Ok(d) ==> exists|res: Result<(), String>| {
            &&& staged_as(*old(buffer), *final(buffer), d, res is Err, json_unit_result(unit_view(res)))
            &&& old(bridge).accepts(guest_text_spec(memory@, path_ptr, path_len)->Ok_0) ==> res is Ok
            &&& res is Err ==> final(bridge).recorded() == old(bridge).recorded()
            &&& res is Ok ==> final(bridge).recorded() == old(bridge).recorded().push(final(bridge).recorded().last())
                && crate::bridge::records_write(final(bridge).recorded().last(), guest_text_spec(memory@, path_ptr, path_len)->Ok_0, old(bridge).files(),
                    memory@.subrange(content_ptr as int, content_ptr + content_len))
                && final(bridge).files() == old(bridge).files().insert(guest_text_spec(memory@, path_ptr, path_len)->Ok_0,
                    memory@.subrange(content_ptr as int, content_ptr + content_len))
        },
{
    match check_start(buffer) {
        Ok(()) => {},
        Err(e) => return Err(e),
    }
    let path = match guest_text(memory, path_ptr, path_len) {
        Ok(p) => p,
        Err(e) => return Err(e),
    };
    let content = match guest_bytes(memory, content_ptr, content_len) {
        Ok(c) => c,
        Err(e) => return Err(e),
    };
    let result: Result<(), String> = match bridge.write_file(path.as_str(), content.as_slice()) {
        Ok(()) => Ok(()),
        Err(e) => Err(bridge_error_message(&e)),
    };
    let is_err = result.is_err();
    let data = encode_unit_result(&result);
    let staged = if is_err { buffer.stage(Err(data)) } else { buffer.stage(Ok(data)) };
    staged
}

/// `read_file(path)`: reads through the bridge and stages the content, if any.
pub fn host_read_file<B: Bridge>(
    bridge: &mut B,
    buffer: &mut CallBuffer,
    memory: &[u8],
    path_ptr: i32,
    path_len: i32,
) -> (r: Result<u64, SandboxError>)
    requires
        old(bridge).valid(),
        old(buffer).wf(),
    ensures
        final(bridge).valid(),
        final(buffer).wf(),
        r is Err ==> final(bridge).recorded() == old(bridge).recorded() && *final(buffer) == *old(buffer),
        r is Ok <==> (may_start(*old(buffer)) && guest_text_spec(memory@, path_ptr, path_len) is Ok),
        r matches Ok(d) ==> exists|res: Result<Option<Vec<u8>>, String>| {
            &&& staged_as(*old(buffer), *final(buffer), d, res is Err, json_bytes_result(bytes_view(res)))
            &&& old(bridge).accepts(guest_text_spec(memory@, path_ptr, path_len)->Ok_0) ==> res is Ok
            &&& res is Err ==> final(bridge).recorded() == old(bridge).recorded()
            &&& res is Ok ==> final(bridge).recorded() == old(bridge).recorded().push(final(bridge).recorded().last())
                && crate::bridge::records_read(final(bridge).recorded().last(), guest_text_spec(memory@, path_ptr, path_len)->Ok_0, old(bridge).files())
            &&& res matches Ok(Some(c)) ==> old(bridge).files().contains_key(guest_text_spec(memory@, path_ptr, path_len)->Ok_0) && old(bridge).files()[guest_text_spec(memory@, path_ptr, path_len)->Ok_0] == c@
            &&& res matches Ok(None) ==> !old(bridge).files().contains_key(guest_text_spec(memory@, path_ptr, path_len)->Ok_0)
        },
{
    match check_start(buffer) {
        Ok(()) => {},
        Err(e) => return Err(e),
    }
    let path = match guest_text(memory, path_ptr, path_len) {
        Ok(p) => p,
        Err(e) => return Err(e),
    };
    let result: Result<Option<Vec<u8>>, String> = match bridge.read_file(path.as_str()) {
        Ok(c) => Ok(c),
        Err(e) => Err(bridge_error_message(&e)),
    };
    let is_err = result.is_err();
    let data = encode_bytes_result(&result);
    let staged = if is_err { buffer.stage(Err(data)) } else { buffer.stage(Ok(data)) };
    staged
}

/// `get_metadata(path, key)`: looks the value up through the bridge and stages it.
pub fn host_get_metadata<B: Bridge>(
    bridge: &mut B,
    buffer: &mut CallBuffer,
    memory: &[u8],
    path_ptr: i32,
    path_len: i32,
    key_ptr: i32,
    key_len: i32,
) -> (r: Result<u64, SandboxError>)
    requires
        old(bridge).valid(),
        old(buffer).wf(),
    ensures
        final(bridge).valid(),
        final(buffer).wf(),
        r is Err ==> final(bridge).recorded() == old(bridge).recorded() && *final(buffer) == *old(buffer),
        r is Ok <==> (may_start(*old(buffer)) && guest_text_spec(memory@, path_ptr, path_len) is Ok
            && guest_text_spec(memory@, key_ptr, key_len) is Ok),
        r matches Ok(d) ==> exists|res: Result<Option<String>, String>| {
            &&& staged_as(*old(buffer), *final(buffer), d, res is Err, json_opt_text_result(opt_text_view(res)))
            &&& old(bridge).accepts(guest_text_spec(memory@, path_ptr, path_len)->Ok_0) ==> res is Ok
            &&& res is Err ==> final(bridge).recorded() == old(bridge).recorded()
            &&& res is Ok ==> final(bridge).recorded() == old(bridge).recorded().push(final(bridge).recorded().last())
                && crate::bridge::records_get_metadata(final(bridge).recorded().last(), guest_text_spec(memory@, path_ptr, path_len)->Ok_0, guest_text_spec(memory@, key_ptr, key_len)->Ok_0, old(bridge).metadata())
            &&& res matches Ok(Some(v)) ==> crate::metadata::md_lookup(old(bridge).metadata(), guest_text_spec(memory@, path_ptr, path_len)->Ok_0, guest_text_spec(memory@, key_ptr, key_len)->Ok_0) == Some(v@)
            &&& res matches Ok(None) ==> crate::metadata::md_lookup(old(bridge).metadata(), guest_text_spec(memory@, path_ptr, path_len)->Ok_0, guest_text_spec(memory@, key_ptr, key_len)->Ok_0) is None
        },
{
    match check_start(buffer) {
        Ok(()) => {},
        Err(e) => return Err(e),
    }
    let path = match guest_text(memory, path_ptr, path_len) {
        Ok(p) => p,
        Err(e) => return Err(e),
    };
    let key = match guest_text(memory, key_ptr, key_len) {
        Ok(k) => k,
        Err(e) => return Err(e),
    };
    let result: Result<Option<String>, String> = match bridge.get_metadata(path.as_str(), key.as_str()) {
        Ok(v) => Ok(v),
        Err(e) => Err(bridge_error_message(&e)),
    };
    let is_err = result.is_err();
    let data = encode_opt_text_result(&result);
    let staged = if is_err { buffer.stage(Err(data)) } else { buffer.stage(Ok(data)) };
    staged
}

/// `set_metadata(path, key, value)`: sets the value through the bridge and stages the result.
pub fn host_set_metadata<B: Bridge>(
    bridge: &mut B,
    buffer: &mut CallBuffer,
    memory: &[u8],
    path_ptr: i32,
    path_len: i32,
    key_ptr: i32,
    key_len: i32,
    value_ptr: i32,
    value_len: i32,
) -> (r: Result<u64, SandboxError>)
    requires
        old(bridge).valid(),
        old(buffer).wf(),
    ensures
        final(bridge).valid(),
        final(buffer).wf(),
        r is Err ==> final(bridge).recorded() == old(bridge).recorded() && *final(buffer) == *old(buffer),
        r is Ok <==> (may_start(*old(buffer)) && guest_text_spec(memory@, path_ptr, path_len) is Ok
            && guest_text_spec(memory@, key_ptr, key_len) is Ok && guest_text_spec(memory@, value_ptr, value_len) is Ok),
        r matches Ok(d) ==> exists|res: Result<(), String>| {
            &&& staged_as(*old(buffer), *final(buffer), d, res is Err, json_unit_result(unit_view(res)))
            &&& old(bridge).accepts(guest_text_spec(memory@, path_ptr, path_len)->Ok_0) ==> res is Ok
            &&& res is Err ==> final(bridge).recorded() == old(bridge).recorded()
            &&& res is Ok ==> final(bridge).recorded() == old(bridge).recorded().push(final(bridge).recorded().last())
                && crate::bridge::records_set_metadata(final(bridge).recorded().last(), guest_text_spec(memory@, path_ptr, path_len)->Ok_0, guest_text_spec(memory@, key_ptr, key_len)->Ok_0, guest_text_spec(memory@, value_ptr, value_len)->Ok_0, old(bridge).metadata())
                && final(bridge).metadata() == old(bridge).metadata().insert((guest_text_spec(memory@, path_ptr, path_len)->Ok_0, guest_text_spec(memory@, key_ptr, key_len)->Ok_0), guest_text_spec(memory@, value_ptr, value_len)->Ok_0)
        },
{
    match check_start(buffer) {
        Ok(()) => {},
        Err(e) => return Err(e),
    }
    let path = match guest_text(memory, path_ptr, path_len) {
        Ok(p) => p,
        Err(e) => return Err(e),
    };
    let key = match guest_text(memory, key_ptr, key_len) {
        Ok(k) => k,
        Err(e) => return Err(e),
    };
    let value = match guest_text(memory, value_ptr, value_len) {
        Ok(v) => v,
        Err(e) => return Err(e),
    };
    let result: Result<(), String> = match bridge.set_metadata(path.as_str(), key.as_str(), value.as_str()) {
        Ok(()) => Ok(()),
        Err(e) => Err(bridge_error_message(&e)),
    };
    let is_err = result.is_err();
    let data = encode_unit_result(&result);
    let staged = if is_err { buffer.stage(Err(data)) } else { buffer.stage(Ok(data)) };
    staged
}

/// `ai_query(query)`: asks the text-completion service and stages its answer;
/// nothing is recorded.
pub fn host_ai_query<B: Bridge>(
    bridge: &mut B,
    buffer: &mut CallBuffer,
    memory: &[u8],
    query_ptr: i32,
    query_len: i32,
) -> (r: Result<u64, SandboxError>)
    requires
        old(bridge).valid(),
        old(buffer).wf(),
    ensures
        final(bridge).valid(),
        final(buffer).wf(),
        final(bridge).recorded() == old(bridge).recorded(),
        r is Err ==> *final(buffer) == *old(buffer),
        r is Ok <==> (may_start(*old(buffer)) && guest_text_spec(memory@, query_ptr, query_len) is Ok),
        r matches Ok(d) ==> exists|res: Result<String, String>| {
            &&& staged_as(*old(buffer), *final(buffer), d, res is Err, json_text_result(text_view(res)))
            &&& old(bridge).may_answer(guest_text_spec(memory@, query_ptr, query_len)->Ok_0, text_view(res))
        },
{
    match check_start(buffer) {
        Ok(()) => {},
        Err(e) => return Err(e),
    }
    let query = match guest_text(memory, query_ptr, query_len) {
        Ok(q) => q,
        Err(e) => return Err(e),
    };
    let result: Result<String, String> = match bridge.ai_query(query.as_str()) {
        Ok(t) => Ok(t),
        Err(e) => Err(bridge_error_message(&e)),
    };
    let is_err = result.is_err();
    let data = encode_text_result(&result);
    let staged = if is_err { buffer.stage(Err(data)) } else { buffer.stage(Ok(data)) };
    staged
}

} // verus!
