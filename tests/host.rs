use wrought::backend::MemoryBackend;
use wrought::bridge::{Bridge, SimpleBridge};
use wrought::host::{
    guest_bytes, guest_text, host_ai_query, host_get_metadata, host_read_file, host_set_metadata,
    host_write_file,
};
use wrought::llm::InvalidLLM;
use wrought::sandbox::{
    classify_report, run_outcome, CallBuffer, GuestExit, SandboxError, WasmError, ERROR_TYPE_NORMAL,
};

fn bridge() -> SimpleBridge<MemoryBackend, InvalidLLM> {
    SimpleBridge::new(
        MemoryBackend::new(),
        InvalidLLM::create_with_error_message("no key"),
        "root".to_string(),
    )
}

fn drain(cb: &mut CallBuffer, d: u64) -> Vec<u8> {
    let mut out = vec![];
    loop {
        let chunk = cb.descriptor_read(d, 4).unwrap();
        if chunk.is_empty() {
            break;
        }
        out.extend(chunk);
    }
    cb.descriptor_close(d).unwrap();
    out
}

#[test]
fn guest_memory_is_bounds_checked() {
    let memory = b"hello".to_vec();
    assert_eq!(guest_bytes(&memory, 1, 3), Ok(b"ell".to_vec()));
    assert_eq!(guest_bytes(&memory, 3, 3), Err(SandboxError::OutOfBounds));
    assert_eq!(guest_bytes(&memory, -1, 1), Err(SandboxError::OutOfBounds));
    assert_eq!(guest_text(&memory, 0, 5), Ok("hello".to_string()));
    assert_eq!(guest_text(&[0xff, 0xfe], 0, 2), Err(SandboxError::NotText));
}

#[test]
fn write_then_read_through_host() {
    let mut b = bridge();
    let mut cb = CallBuffer::new();
    let memory = b"a.txtx".to_vec();
    let d = host_write_file(&mut b, &mut cb, &memory, 0, 5, 5, 1).unwrap();
    assert_eq!(cb.descriptor_is_err(d), Ok(false));
    assert_eq!(drain(&mut cb, d), br#"{"Ok":null}"#.to_vec());
    let d = host_read_file(&mut b, &mut cb, &memory, 0, 5).unwrap();
    assert_eq!(drain(&mut cb, d), br#"{"Ok":[120]}"#.to_vec());
    assert_eq!(b.get_event_group().unwrap().events.len(), 2);
}

#[test]
fn metadata_and_query_through_host() {
    let mut b = bridge();
    let mut cb = CallBuffer::new();
    let memory = b"p.mdkeyval".to_vec();
    let d = host_set_metadata(&mut b, &mut cb, &memory, 0, 4, 4, 3, 7, 3).unwrap();
    assert_eq!(drain(&mut cb, d), br#"{"Ok":null}"#.to_vec());
    let d = host_get_metadata(&mut b, &mut cb, &memory, 0, 4, 4, 3).unwrap();
    assert_eq!(drain(&mut cb, d), br#"{"Ok":"val"}"#.to_vec());
    let d = host_ai_query(&mut b, &mut cb, &memory, 0, 4).unwrap();
    assert_eq!(cb.descriptor_is_err(d), Ok(true));
    assert_eq!(drain(&mut cb, d), br#"{"Err":"Unable to access LLM: no key"}"#.to_vec());
    assert_eq!(b.get_event_group().unwrap().events.len(), 2);
}

#[test]
fn failed_write_is_staged_as_error() {
    let mut b = bridge();
    let mut cb = CallBuffer::new();
    let memory = b"x".to_vec();
    let d = host_write_file(&mut b, &mut cb, &memory, 0, 0, 0, 1).unwrap();
    assert_eq!(cb.descriptor_is_err(d), Ok(true));
    assert_eq!(drain(&mut cb, d), br#"{"Err":"invalid path"}"#.to_vec());
    assert!(b.get_event_group().is_none());
}

#[test]
fn host_refuses_a_call_while_a_descriptor_is_open() {
    let mut b = bridge();
    let mut cb = CallBuffer::new();
    let memory = b"a.txtx".to_vec();
    let d = host_write_file(&mut b, &mut cb, &memory, 0, 5, 5, 1).unwrap();
    assert_eq!(
        host_read_file(&mut b, &mut cb, &memory, 0, 5),
        Err(SandboxError::DescriptorStillOpen)
    );
    assert_eq!(b.get_event_group().unwrap().events.len(), 1);
    cb.descriptor_close(d).unwrap();
}

#[test]
fn guest_reports_failed_write_as_normal_error() {
    let mut b = bridge();
    let mut cb = CallBuffer::new();
    let memory = b"a.txt".to_vec();
    // The content pointer lies outside guest memory, so the host fails the write.
    let failed = host_write_file(&mut b, &mut cb, &memory, 0, 5, 5, 1);
    assert_eq!(failed, Err(SandboxError::OutOfBounds));
    let mut errors = vec![];
    errors.push(classify_report(ERROR_TYPE_NORMAL, "Write Failure"));
    let outcome = run_outcome(&GuestExit::Returned(-1), &errors);
    assert!(outcome.is_err());
    assert!(matches!(errors[0], WasmError::Normal(_)));
    assert_eq!(outcome, Err("WASM execution failed:\nError: Write Failure".to_string()));
}
