use aureate::error::{settle, ErrorKind, Joined, ProgramExit};

#[test]
fn exit_codes_by_category() {
    assert_eq!(ErrorKind::Generic.exit_code(), 1);
    assert_eq!(ErrorKind::Io("x".to_string()).exit_code(), 1);
    assert_eq!(ErrorKind::ParseYaml("x".to_string()).exit_code(), 1);
    assert_eq!(ErrorKind::ThreadFailed("Reader".to_string()).exit_code(), 2);
    assert_eq!(ErrorKind::UnexpectedChannelClose("c".to_string()).exit_code(), 3);
}

#[test]
fn messages_name_the_failure() {
    assert_eq!(ErrorKind::Generic.message(), "Generic Error");
    assert_eq!(ErrorKind::ThreadFailed("Builder".to_string()).message(), "Thread: Builder failed to return");
    assert_eq!(
        ErrorKind::UnexpectedChannelClose("writer gone".to_string()).message(),
        "A channel quit unexpectedly: writer gone"
    );
    assert_eq!(ErrorKind::Io("disk".to_string()).message(), "An underlying IO error occurred: disk");
    assert_eq!(ErrorKind::ParseYaml("bad".to_string()).message(), "An underlying IO (yml) error occurred: bad");
}

#[test]
fn program_exit_reports_status() {
    assert_eq!(ProgramExit::Success.report(), 0);
    assert_eq!(ProgramExit::Failure(ErrorKind::UnexpectedChannelClose(String::new())).report(), 3);
    assert_eq!(ProgramExit::from_error(ErrorKind::Generic).report(), 1);
    assert_eq!(ProgramExit::from_ok(()).report(), 0);
    assert!(ProgramExit::Success.into_result().is_ok());
    assert!(matches!(ProgramExit::Failure(ErrorKind::Generic).into_result(), Err(ErrorKind::Generic)));
}

#[test]
fn settle_passes_downstream_result_on() {
    assert!(settle("Reader".to_string(), Joined::Returned(Ok(()))).is_ok());
    match settle("Reader".to_string(), Joined::Returned(Err(ErrorKind::Io("w".to_string())))) {
        Err(ErrorKind::Io(m)) => assert_eq!(m, "w"),
        _ => panic!("expected the downstream error"),
    }
    match settle("Builder".to_string(), Joined::Panicked) {
        Err(ErrorKind::ThreadFailed(t)) => assert_eq!(t, "Builder"),
        _ => panic!("expected a thread failure"),
    }
}
