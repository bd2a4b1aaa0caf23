use roe_core::native_io::MAX_IO_REQUESTS;
use roe_core::native_kernel::{
    Capability, CapabilityGrants, KernelError, NativeKernel, NativeOperation,
};

fn kernel(capabilities: Vec<Capability>) -> NativeKernel {
    NativeKernel::new(CapabilityGrants::new(capabilities))
}

#[test]
fn admission_is_authorized_bounded_and_released() {
    let mut denied = kernel(vec![]);
    assert!(matches!(
        denied.prepare_io(NativeOperation::ReadFile {
            path: "nonexistent".into(),
        }),
        Err(KernelError::CapabilityDenied(Capability::FileRead))
    ));
    let mut granted = kernel(vec![Capability::FileRead]);
    let mut requests = Vec::new();
    for _ in 0..MAX_IO_REQUESTS {
        requests.push(
            granted
                .prepare_io(NativeOperation::ReadFile {
                    path: "nonexistent".into(),
                })
                .unwrap(),
        );
    }
    assert!(matches!(
        granted.prepare_io(NativeOperation::ReadFile {
            path: "nonexistent".into(),
        }),
        Err(KernelError::IoLimit(_))
    ));
    for request in requests {
        granted.io.release(request.lease);
    }
    assert!(granted
        .prepare_io(NativeOperation::ReadFile {
            path: "nonexistent".into(),
        })
        .is_ok());
}
