use std::cell::Cell;
use std::rc::Rc;
use zed_util::surf_ext::{context, with_context};

#[test]
fn context_leaves_success_untouched() {
    let r: Result<i32, surf::Error> = Ok(5);
    let out = context(r, "while fetching");
    assert_eq!(out.unwrap(), 5);
}

#[test]
fn context_keeps_failure_and_status() {
    let e = surf::Error::from_str(surf::StatusCode::NotFound, "missing");
    let r: Result<i32, surf::Error> = Err(e);
    let out = context(r, "while fetching the profile");
    let err = out.unwrap_err();
    assert_eq!(err.status(), surf::StatusCode::NotFound);
    assert!(format!("{}", err).contains("while fetching the profile"));
}

#[test]
fn with_context_is_lazy_on_success() {
    let called = Rc::new(Cell::new(false));
    let seen = called.clone();
    let r: Result<u8, surf::Error> = Ok(1);
    let out = with_context(r, move || {
        seen.set(true);
        "too late".to_string()
    });
    assert_eq!(out.unwrap(), 1);
    assert!(!called.get());
}

#[test]
fn with_context_runs_on_failure() {
    let called = Rc::new(Cell::new(false));
    let seen = called.clone();
    let e = surf::Error::from_str(surf::StatusCode::BadRequest, "bad input");
    let r: Result<u8, surf::Error> = Err(e);
    let out = with_context(r, move || {
        seen.set(true);
        "while validating".to_string()
    });
    let err = out.unwrap_err();
    assert!(called.get());
    assert_eq!(err.status(), surf::StatusCode::BadRequest);
    assert!(format!("{}", err).contains("while validating"));
}
