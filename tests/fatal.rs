use rust_os::fatal::{alloc_error_handler, FatalError};

#[test]
fn allocation_failure_names_the_layout() {
    assert_eq!(alloc_error_handler(64, 8), FatalError::AllocationFailed { size: 64, align: 8 });
}
