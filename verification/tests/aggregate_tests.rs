use search::aggregate::lift;
use search::errors::AppError;

#[test]
fn one_failure_among_three_aggregates_it() {
    let batch: Vec<Result<u32, AppError>> = vec![
        Ok(1),
        Err(AppError::FileIO(String::from("bad read"))),
        Ok(3),
    ];
    let r = lift(batch);
    match r {
        Err(AppError::Aggregate(es)) => {
            assert_eq!(es.len(), 1);
            match &es[0] {
                AppError::FileIO(m) => assert_eq!(m, "bad read"),
                _ => panic!("wrong error kind"),
            }
        }
        _ => panic!("expected an aggregate failure"),
    }
}

#[test]
fn all_successes_preserve_order() {
    let batch: Vec<Result<u32, AppError>> = vec![Ok(1), Ok(2), Ok(3)];
    let r = lift(batch);
    match r {
        Ok(v) => assert_eq!(v, vec![1, 2, 3]),
        _ => panic!("expected success"),
    }
}

#[test]
fn several_failures_keep_relative_order() {
    let batch: Vec<Result<u32, AppError>> = vec![
        Err(AppError::Send(String::from("first"))),
        Ok(2),
        Err(AppError::FileIO(String::from("second"))),
    ];
    let r = lift(batch);
    match r {
        Err(AppError::Aggregate(es)) => {
            assert_eq!(es.len(), 2);
            assert!(matches!(&es[0], AppError::Send(m) if m == "first"));
            assert!(matches!(&es[1], AppError::FileIO(m) if m == "second"));
        }
        _ => panic!("expected an aggregate failure"),
    }
}

#[test]
fn empty_batch_succeeds_empty() {
    let batch: Vec<Result<u32, AppError>> = Vec::new();
    let r = lift(batch);
    match r {
        Ok(v) => assert!(v.is_empty()),
        _ => panic!("expected success"),
    }
}

#[test]
fn failure_discards_all_successes() {
    let batch: Vec<Result<u32, AppError>> = vec![
        Ok(10),
        Ok(20),
        Err(AppError::Startup(String::from("late"))),
    ];
    let r = lift(batch);
    assert!(matches!(r, Err(AppError::Aggregate(_))));
}

#[test]
fn startup_is_the_only_fatal_kind() {
    assert!(AppError::Startup(String::from("x")).is_fatal());
    assert!(!AppError::FileIO(String::from("x")).is_fatal());
    assert!(!AppError::Send(String::from("x")).is_fatal());
    assert!(!AppError::Aggregate(Vec::new()).is_fatal());
}
