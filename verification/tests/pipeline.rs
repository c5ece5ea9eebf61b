use og_loc::error::Error;
use og_loc::names::CrateName;
use og_loc::prepare::{Prepare, PAGE_SIZE};
use og_loc::CommonArgs;

fn prepare() -> Prepare {
    Prepare { num_pages: 7, jobs: 3, rate_limit: 10, out_path: None }
}

#[test]
fn initial_pages_are_one_per_job() {
    assert_eq!(prepare().initial_pages(), vec![1, 2, 3]);
}

#[test]
fn pages_past_the_request_retire_their_job() {
    let p = prepare();
    assert!(p.should_fetch(1));
    assert!(p.should_fetch(7));
    assert!(!p.should_fetch(8));
}

#[test]
fn full_pages_continue_with_a_stride() {
    let p = prepare();
    assert_eq!(p.follow_up_page(2, PAGE_SIZE), Some(5));
    assert_eq!(p.follow_up_page(2, 150), Some(5));
    assert_eq!(p.follow_up_page(2, 99), None);
    assert_eq!(p.follow_up_page(2, 0), None);
}

#[test]
fn prepare_tick_period() {
    assert_eq!(prepare().tick_period_micros(), 100_000);
}

#[test]
fn error_status_codes() {
    assert_eq!(Error::NotFound.status_code(), 404);
    let invalid = CrateName::from_str("bad name").unwrap_err();
    assert_eq!(Error::InvalidCrateName(invalid).status_code(), 400);
    assert_eq!(Error::Io("x".to_string()).status_code(), 500);
    assert_eq!(Error::DbDump("x".to_string()).status_code(), 500);
    assert_eq!(Error::Other("x".to_string()).status_code(), 500);
}

#[test]
fn error_messages() {
    assert_eq!(Error::NotFound.message(), "No crate with that name was found");
    assert_eq!(Error::Io("broken".to_string()).message(), "IO error: broken");
    assert_eq!(
        Error::DbDump("bad archive".to_string()).message(),
        "DB dump load error: bad archive"
    );
}

#[test]
fn common_args_hold_the_dump_path() {
    let args = CommonArgs { db_dump_path: "./db-dump.tar.gz".to_string() };
    assert_eq!(args.db_dump_path, "./db-dump.tar.gz");
}
