use vramdisk::registry::select_device_index;
use vramdisk::registry::DeviceSelectError;

#[test]
fn requested_index_in_range_is_used() {
    assert_eq!(select_device_index(3, Some(0)), Ok(0));
    assert_eq!(select_device_index(3, Some(2)), Ok(2));
}

#[test]
fn out_of_range_index_is_device_not_found() {
    assert_eq!(select_device_index(2, Some(5)), Err(DeviceSelectError::DeviceNotFound));
    assert_eq!(select_device_index(2, Some(2)), Err(DeviceSelectError::DeviceNotFound));
    assert_eq!(select_device_index(0, Some(0)), Err(DeviceSelectError::DeviceNotFound));
}

#[test]
fn default_is_first_device_when_any_exists() {
    assert_eq!(select_device_index(1, None), Ok(0));
    assert_eq!(select_device_index(7, None), Ok(0));
    assert_eq!(select_device_index(0, None), Err(DeviceSelectError::NoDevices));
}
