use og_loc::bulk::{
    Bulk, BulkInput, BulkInputError, Dispatcher, OpenMode, ParseBulkInputError, drain_input,
    image_file_name, reduce_outcomes,
};
use og_loc::error::Error;
use og_loc::names::CrateName;

fn name(s: &str) -> CrateName {
    CrateName::from_str(s).unwrap()
}

fn parse_item(s: &str) -> Result<CrateName, BulkInputError> {
    CrateName::from_str(s).map_err(BulkInputError::InvalidCrateName)
}

#[test]
fn bulk_input_stdin_marker() {
    assert_eq!(BulkInput::from_str("-"), Ok(BulkInput::StdIn));
    assert_eq!(BulkInput::default(), BulkInput::StdIn);
}

#[test]
fn bulk_input_empty_rejected() {
    assert_eq!(BulkInput::from_str(""), Err(ParseBulkInputError));
    assert_eq!(
        ParseBulkInputError.message(),
        "Error parsing bulk input spec. Expecting either a path, a comma-separated list, or '-' (indicating stdin)"
    );
}

#[test]
fn bulk_input_comma_list() {
    let parsed = BulkInput::from_str("knien,og-loc").unwrap();
    assert_eq!(parsed, BulkInput::List(vec![name("knien"), name("og-loc")]));
    let single = BulkInput::from_str("knien").unwrap();
    assert_eq!(single, BulkInput::List(vec![name("knien")]));
}

#[test]
fn bulk_input_path_fallback() {
    // A piece with a space is no valid crate name, so the whole string
    // is taken as a path.
    let parsed = BulkInput::from_str("./names list.txt").unwrap();
    assert_eq!(parsed, BulkInput::Path("./names list.txt".to_string()));
    // A trailing comma gives an empty piece, which is no valid name.
    let parsed = BulkInput::from_str("knien,").unwrap();
    assert_eq!(parsed, BulkInput::Path("knien,".to_string()));
}

#[test]
fn fail_fast_input_draining() {
    // The bad name fails the drain before anything is scheduled, and
    // the first failing item's error is the one reported.
    let items = vec![parse_item("good-name"), parse_item("bad name with spaces")];
    let r = drain_input(items);
    match r {
        Err(Error::BulkInput(BulkInputError::InvalidCrateName(e))) => {
            assert_eq!(
                e.message(),
                "Invalid crate name: Crate names must use only alphanumeric characters or `-` or `_`"
            );
        },
        _ => panic!("expected a bulk input error"),
    }
}

#[test]
fn drain_collects_names_in_order() {
    let items = vec![parse_item("a"), parse_item("b"), parse_item("c")];
    let names = drain_input(items).unwrap();
    assert_eq!(names, vec!["a".to_string(), "b".to_string(), "c".to_string()]);
}

#[test]
fn drain_reports_first_error() {
    let items = vec![parse_item("ok"), parse_item("bad one"), parse_item("")];
    match drain_input(items) {
        Err(Error::BulkInput(BulkInputError::InvalidCrateName(e))) => {
            assert_eq!(
                e.message(),
                "Invalid crate name: Crate names must use only alphanumeric characters or `-` or `_`"
            );
        },
        _ => panic!("expected the first error"),
    }
}

#[test]
fn overwrite_policy_open_mode() {
    let forced = Bulk {
        force: true,
        rate: 1,
        input: BulkInput::StdIn,
        out_folder: "out".to_string(),
    };
    assert_eq!(forced.open_mode(), OpenMode::Truncate);
    let default = Bulk {
        force: false,
        rate: 1,
        input: BulkInput::StdIn,
        out_folder: "out".to_string(),
    };
    assert_eq!(default.open_mode(), OpenMode::CreateNew);
}

#[test]
fn cadence_tick_period() {
    let b = Bulk { force: false, rate: 1, input: BulkInput::StdIn, out_folder: "o".to_string() };
    assert_eq!(b.tick_period_micros(), 1_000_000);
    let b = Bulk { force: false, rate: 4, input: BulkInput::StdIn, out_folder: "o".to_string() };
    assert_eq!(b.tick_period_micros(), 250_000);
}

#[test]
fn image_file_names() {
    assert_eq!(image_file_name(&name("knien")), "knien.png");
}

#[test]
fn dispatcher_respects_both_limits() {
    let mut d = Dispatcher::new(2);
    // No start before the first cadence tick.
    assert!(!d.can_start());
    d.on_tick();
    assert!(d.can_start());
    d.start_task();
    // One start per tick: the next start waits for the next tick.
    assert!(!d.can_start());
    d.on_tick();
    d.start_task();
    // Two tasks in flight fill the capacity: a tick alone admits none.
    d.on_tick();
    assert!(!d.can_start());
    // A completion frees a slot.
    d.complete_task(Ok(()));
    assert!(d.can_start());
    d.start_task();
    d.complete_task(Ok(()));
    d.complete_task(Ok(()));
    assert!(d.finish().is_ok());
}

#[test]
fn dispatcher_reports_first_failure() {
    let mut d = Dispatcher::new(10);
    d.on_tick();
    d.start_task();
    d.on_tick();
    d.start_task();
    d.on_tick();
    d.start_task();
    d.complete_task(Ok(()));
    d.complete_task(Err(Error::Io("disk full".to_string())));
    d.complete_task(Err(Error::NotFound));
    match d.finish() {
        Err(Error::Io(t)) => assert_eq!(t, "disk full"),
        _ => panic!("expected the first failing outcome"),
    }
}

#[test]
fn reduce_outcomes_policy() {
    assert!(reduce_outcomes(vec![]).is_ok());
    assert!(reduce_outcomes(vec![Ok(()), Ok(())]).is_ok());
    let r = reduce_outcomes(vec![
        Ok(()),
        Err(Error::NotFound),
        Err(Error::Io("later".to_string())),
    ]);
    assert!(matches!(r, Err(Error::NotFound)));
}

#[test]
fn bulk_input_error_messages() {
    let e = BulkInputError::Io("broken pipe".to_string());
    assert_eq!(e.message(), "I/O error: broken pipe");
}
