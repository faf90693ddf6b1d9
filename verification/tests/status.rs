use overwatch::services::status::{resolve_wait, ServiceStatus, ServiceStatusError};

#[test]
fn already_in_wanted_status() {
    assert_eq!(
        resolve_wait(ServiceStatus::Running, ServiceStatus::Running, None),
        Ok(ServiceStatus::Running)
    );
    assert_eq!(
        resolve_wait(
            ServiceStatus::Uninitialized,
            ServiceStatus::Uninitialized,
            Some(ServiceStatus::Stopped)
        ),
        Ok(ServiceStatus::Uninitialized)
    );
}

#[test]
fn waited_status_is_reached() {
    assert_eq!(
        resolve_wait(
            ServiceStatus::Uninitialized,
            ServiceStatus::Running,
            Some(ServiceStatus::Running)
        ),
        Ok(ServiceStatus::Running)
    );
}

#[test]
fn wait_gave_up() {
    assert_eq!(
        resolve_wait(ServiceStatus::Uninitialized, ServiceStatus::Stopped, None),
        Err(ServiceStatus::Uninitialized)
    );
}

#[test]
fn unavailable_status_names_the_service() {
    let err = ServiceStatusError::Unavailable { service_id: "ping" };
    assert!(matches!(err, ServiceStatusError::Unavailable { service_id: "ping" }));
}
