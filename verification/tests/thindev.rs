use devicemapper::result::{DmError, ErrorEnum};
use devicemapper::thindev::{SetupStep, ThinDev, ThinDevId, ThinStatus, ThinStatusError, THIN_DEV_ID_LIMIT};
use devicemapper::types::{Sectors, TargetLine};

#[test]
/// Verify that new_checked_u64 discriminates.
fn test_new_checked_u64() {
    assert!(ThinDevId::new_u64(2u64.pow(32)).is_err());
    assert!(ThinDevId::new_u64(THIN_DEV_ID_LIMIT - 1).is_ok());
}

#[test]
fn new_u64_bounds() {
    assert!(ThinDevId::new_u64(0).is_ok());
    assert!(ThinDevId::new_u64(THIN_DEV_ID_LIMIT).is_err());
    assert!(ThinDevId::new_u64(u64::MAX).is_err());
    assert_eq!(THIN_DEV_ID_LIMIT, 1 << 24);
}

#[test]
fn new_u64_error_is_invalid_with_message() {
    match ThinDevId::new_u64(16777216) {
        Err(DmError::Dm(kind, msg)) => {
            assert_eq!(kind, ErrorEnum::Invalid);
            assert_eq!(msg, "argument 16777216 unrepresentable in 24 bits");
        }
        Ok(_) => panic!("accepted an id of 25 bits"),
    }
    match ThinDevId::new_u64(u64::MAX) {
        Err(DmError::Dm(_, msg)) => {
            assert_eq!(msg, format!("argument {} unrepresentable in 24 bits", u64::MAX));
        }
        Ok(_) => panic!("accepted u64::MAX"),
    }
}

#[test]
fn id_converts_back_to_its_value() {
    for v in [0u64, 1, 9, 10, 4095, 65536, THIN_DEV_ID_LIMIT - 1] {
        let id = ThinDevId::new_u64(v).unwrap();
        assert_eq!(u32::from(id) as u64, v);
        let n: u32 = id.into();
        assert_eq!(n as u64, v);
    }
}

#[test]
fn id_displays_in_decimal() {
    assert_eq!(ThinDevId::new_u64(0).unwrap().to_string(), "0");
    assert_eq!(ThinDevId::new_u64(7).unwrap().to_string(), "7");
    assert_eq!(ThinDevId::new_u64(16777215).unwrap().to_string(), "16777215");
    for v in (0u64..THIN_DEV_ID_LIMIT).step_by(99991) {
        assert_eq!(ThinDevId::new_u64(v).unwrap().to_string(), v.to_string());
    }
}

#[test]
fn serialized_ids_must_fit_24_bits() {
    let id = ThinDevId::from_serialized(123).unwrap();
    assert_eq!(u32::from(id), 123);
    assert_eq!(id, ThinDevId::new_u64(123).unwrap());
    assert!(ThinDevId::from_serialized((THIN_DEV_ID_LIMIT - 1) as u32).is_ok());
    match ThinDevId::from_serialized(THIN_DEV_ID_LIMIT as u32) {
        Err(DmError::Dm(kind, msg)) => {
            assert_eq!(kind, ErrorEnum::Invalid);
            assert_eq!(msg, "argument 16777216 unrepresentable in 24 bits");
        }
        Ok(_) => panic!("accepted an id of 25 bits"),
    }
    assert!(ThinDevId::from_serialized(u32::MAX).is_err());
}

#[test]
fn setup_step_queries_or_loads() {
    let id = ThinDevId::new_u64(11).unwrap();
    assert!(matches!(ThinDev::setup_step(true, "253:4", id, Sectors(8)), SetupStep::QueryStatus));
    match ThinDev::setup_step(false, "253:4", id, Sectors(8)) {
        SetupStep::CreateAndLoad(table) => assert_eq!(
            table,
            vec![(Sectors(0), Sectors(8), "thin".to_string(), "253:4 11".to_string())]
        ),
        SetupStep::QueryStatus => panic!("queried a device that does not exist"),
    }
}

#[test]
fn dm_table_has_one_thin_entry() {
    let id = ThinDevId::new_u64(7).unwrap();
    let table = ThinDev::dm_table("253:2", id, Sectors(1024));
    let expected: Vec<TargetLine> =
        vec![(Sectors(0), Sectors(1024), "thin".to_string(), "253:2 7".to_string())];
    assert_eq!(table, expected);
}

#[test]
fn thin_params_read_back() {
    let id = ThinDevId::new_u64(4242).unwrap();
    let table = ThinDev::dm_table("252:0", id, Sectors(1));
    let fields: Vec<&str> = table[0].3.split(' ').collect();
    assert_eq!(fields, vec!["252:0", "4242"]);
    assert_eq!(fields[1].parse::<u64>().unwrap(), 4242);
}

#[test]
fn pool_messages() {
    let id = ThinDevId::new_u64(19).unwrap();
    assert_eq!(ThinDev::create_thin_message(id), "create_thin 19");
    assert_eq!(ThinDev::delete_message(id), "delete 19");
    let zero = ThinDevId::new_u64(0).unwrap();
    assert_eq!(ThinDev::create_thin_message(zero), "create_thin 0");
}

#[test]
fn thin_dev_from_parts() {
    let id = ThinDevId::new_u64(3).unwrap();
    let dev = ThinDev::from_parts("thin0".to_string(), "253:1".to_string(), id, Sectors(2048));
    assert_eq!(dev.id(), id);
    assert_eq!(dev.size(), Sectors(2048));
    assert_eq!(dev.name(), "thin0");
    assert_eq!(dev.thinpool_dstr(), "253:1");
}

#[test]
fn extend_grows_size_and_table() {
    let id = ThinDevId::new_u64(3).unwrap();
    let mut dev = ThinDev::from_parts("thin0".to_string(), "253:1".to_string(), id, Sectors(2048));
    let table = dev.extend(Sectors(512));
    assert_eq!(dev.size(), Sectors(2560));
    assert_eq!(dev.id(), id);
    assert_eq!(dev.name(), "thin0");
    assert_eq!(
        table,
        vec![(Sectors(0), Sectors(2560), "thin".to_string(), "253:1 3".to_string())]
    );
    let table = dev.extend(Sectors(0));
    assert_eq!(dev.size(), Sectors(2560));
    assert_eq!(table[0].1, Sectors(2560));
}

fn status(line: &str) -> Result<ThinStatus, ThinStatusError> {
    ThinDev::parse_status(&vec![(Sectors(0), Sectors(100), "thin".to_string(), line.to_string())])
}

#[test]
fn status_fail() {
    assert!(matches!(status("Fail"), Ok(ThinStatus::Fail)));
    assert!(matches!(status("Failed whatever"), Ok(ThinStatus::Fail)));
    assert!(matches!(ThinDev::parse_status_line("Fail"), Ok(ThinStatus::Fail)));
}

#[test]
fn status_good() {
    assert!(matches!(status("5 9"), Ok(ThinStatus::Good((Sectors(5), Sectors(9))))));
    assert!(matches!(status("1024 2047 -"), Ok(ThinStatus::Good((Sectors(1024), Sectors(2047))))));
    assert!(matches!(status("0 -"), Err(ThinStatusError::BadHighestMapped)));
    assert!(matches!(status("+7 8"), Ok(ThinStatus::Good((Sectors(7), Sectors(8))))));
    assert!(matches!(
        status("18446744073709551615 0"),
        Ok(ThinStatus::Good((Sectors(u64::MAX), Sectors(0))))
    ));
}

#[test]
fn status_errors() {
    assert!(matches!(status("5"), Err(ThinStatusError::TooFewValues)));
    assert!(matches!(status(""), Err(ThinStatusError::TooFewValues)));
    assert!(matches!(status("x 9"), Err(ThinStatusError::BadMappedCount)));
    assert!(matches!(status(" 9"), Err(ThinStatusError::BadMappedCount)));
    assert!(matches!(status("5  9"), Err(ThinStatusError::BadHighestMapped)));
    assert!(matches!(status("18446744073709551616 0"), Err(ThinStatusError::BadMappedCount)));
    assert!(matches!(status("fail 1"), Err(ThinStatusError::BadMappedCount)));
    assert!(matches!(ThinDev::parse_status(&vec![]), Err(ThinStatusError::LineCount(0))));
    let two = vec![
        (Sectors(0), Sectors(1), "thin".to_string(), "1 2".to_string()),
        (Sectors(1), Sectors(1), "thin".to_string(), "1 2".to_string()),
    ];
    assert!(matches!(ThinDev::parse_status(&two), Err(ThinStatusError::LineCount(2))));
}

#[test]
fn status_line_read_back() {
    for (m, h) in [(0u64, 0u64), (5, 9), (123456789, 987654321), (u64::MAX, 1)] {
        let line = format!("{} {}", m, h);
        assert!(matches!(
            ThinDev::parse_status_line(&line),
            Ok(ThinStatus::Good((Sectors(a), Sectors(b)))) if a == m && b == h
        ));
    }
}

#[test]
fn sectors_default_is_zero() {
    assert_eq!(Sectors::default(), Sectors(0));
}
