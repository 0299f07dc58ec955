use devicemapper::bindings::{
    dm_ioctl, dm_target_msg, dm_target_spec, FlexibleArrayMember, DM_CONTROL_NODE, DM_DIR,
    DM_NAME_LEN, DM_UUID_LEN, DM_VERSION_EXTRA, DM_VERSION_MAJOR, DM_VERSION_MINOR,
    DM_VERSION_PATCHLEVEL,
};

#[test]
fn dm_ioctl_default_is_zeroed() {
    let io = dm_ioctl::default();
    assert_eq!(io.version, [0, 0, 0]);
    assert_eq!(io.data_size, 0);
    assert_eq!(io.data_start, 0);
    assert_eq!(io.target_count, 0);
    assert_eq!(io.open_count, 0);
    assert_eq!(io.flags, 0);
    assert_eq!(io.event_nr, 0);
    assert_eq!(io.padding, 0);
    assert_eq!(io.dev, 0);
    assert_eq!(io.name.len(), DM_NAME_LEN);
    assert!(io.name.iter().all(|c| *c == 0));
    assert_eq!(io.uuid.len(), DM_UUID_LEN);
    assert!(io.uuid.iter().all(|c| *c == 0));
    assert_eq!(io.data, [0; 7]);
}

#[test]
fn constants() {
    assert_eq!(&DM_DIR, b"mapper\0");
    assert_eq!(&DM_CONTROL_NODE, b"control\0");
    assert_eq!(&DM_VERSION_EXTRA, b"-ioctl (2023-03-01)\0");
    assert_eq!((DM_VERSION_MAJOR, DM_VERSION_MINOR, DM_VERSION_PATCHLEVEL), (4, 48, 0));
}

#[test]
fn flexible_array_member_elements() {
    let m = FlexibleArrayMember::from_elements(vec![1i8, 2, 3]);
    assert_eq!(m.as_ptr(), &[1i8, 2, 3]);
    assert_eq!(m.debug_text(), "FlexibleArrayMember");
    let spec = dm_target_spec::default();
    assert!(spec.params.as_ptr().is_empty());
    let msg = dm_target_msg { sector: 8, message: FlexibleArrayMember::from_elements(vec![104, 105, 0]) };
    assert_eq!(msg.message.as_ptr(), &[104i8, 105, 0]);
}
