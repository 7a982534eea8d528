use wrought::sandbox::{
    classify_report, run_outcome, CallBuffer, GuestExit, SandboxError, WasmError,
    ERROR_TYPE_NORMAL, ERROR_TYPE_PANIC,
};

#[test]
fn descriptor_is_drained_in_chunks_then_closed() {
    let mut cb = CallBuffer::new();
    let d = cb.stage(Ok(vec![1, 2, 3, 4, 5])).unwrap();
    assert_eq!(cb.descriptor_is_err(d), Ok(false));
    assert_eq!(cb.descriptor_read(d, 2), Ok(vec![1, 2]));
    assert_eq!(cb.descriptor_read(d, 2), Ok(vec![3, 4]));
    assert_eq!(cb.descriptor_read(d, 2), Ok(vec![5]));
    assert_eq!(cb.descriptor_read(d, 2), Ok(vec![]));
    assert_eq!(cb.descriptor_close(d), Ok(()));
    assert_eq!(cb.descriptor_read(d, 2), Err(SandboxError::UnknownDescriptor));
}

#[test]
fn one_descriptor_in_flight() {
    let mut cb = CallBuffer::new();
    let d = cb.stage(Err(b"boom".to_vec())).unwrap();
    assert_eq!(cb.descriptor_is_err(d), Ok(true));
    assert_eq!(cb.stage(Ok(vec![])), Err(SandboxError::DescriptorStillOpen));
    cb.descriptor_close(d).unwrap();
    let d2 = cb.stage(Ok(vec![])).unwrap();
    assert_ne!(d, d2);
    assert_eq!(cb.descriptor_close(d), Err(SandboxError::UnknownDescriptor));
    assert_eq!(cb.len(), Some(0));
}

#[test]
fn take_needs_room() {
    let mut cb = CallBuffer::new();
    assert_eq!(cb.take(10), Err(SandboxError::UnknownDescriptor));
    cb.stage(Ok(vec![9; 8])).unwrap();
    assert_eq!(cb.take(4), Err(SandboxError::BufferTooSmall));
    assert_eq!(cb.take(8), Ok(vec![9; 8]));
    assert_eq!(cb.len(), None);
}

#[test]
fn reports_are_classified_by_kind() {
    assert_eq!(classify_report(ERROR_TYPE_NORMAL, "bad"), WasmError::Normal("bad".to_string()));
    assert_eq!(classify_report(ERROR_TYPE_PANIC, "oops"), WasmError::Panic("oops".to_string()));
    assert_eq!(
        classify_report(7, "odd"),
        WasmError::Normal("Unknown error type: odd".to_string())
    );
}

#[test]
fn failed_write_reported_as_normal_error() {
    let report = classify_report(ERROR_TYPE_NORMAL, "Write Failure");
    assert!(matches!(report, WasmError::Normal(_)));
    let outcome = run_outcome(&GuestExit::Returned(-1), &vec![report]);
    assert_eq!(outcome, Err("WASM execution failed:\nError: Write Failure".to_string()));
}

#[test]
fn outcomes() {
    assert_eq!(run_outcome(&GuestExit::Returned(0), &vec![]), Ok(()));
    assert_eq!(
        run_outcome(&GuestExit::Returned(2), &vec![]),
        Err("WASM execution failed with unknown error".to_string())
    );
    assert_eq!(
        run_outcome(&GuestExit::Trapped("unreachable".to_string()), &vec![]),
        Err("WASM execution trapped: unreachable".to_string())
    );
    assert_eq!(
        run_outcome(
            &GuestExit::Trapped("unreachable".to_string()),
            &vec![WasmError::Panic("p".to_string()), WasmError::Normal("n".to_string())]
        ),
        Err("WASM execution trapped:\nPanic: p\nError: n".to_string())
    );
}
