use prism_bootstrap::exit::{exit_code_for, Cause, Error, ExitCode, FatalError};

#[test]
fn every_failure_class_has_its_code() {
    let codes = [
        (ExitCode::Success, 0),
        (ExitCode::BadPlatform, 2),
        (ExitCode::BadMainClass, 3),
        (ExitCode::UnsatisfiedDeps, 4),
        (ExitCode::MissingLocalLib, 5),
        (ExitCode::DownloadFailed, 6),
        (ExitCode::IoError, 7),
        (ExitCode::MissingComponent, 8),
        (ExitCode::MetaResolveFailed, 9),
    ];
    for (code, number) in codes {
        assert_eq!(code.code(), number);
    }
}

#[test]
fn fatal_errors_map_to_their_class() {
    let text = || "x".to_owned();
    let cases = vec![
        (FatalError::NoMainClass, ExitCode::BadMainClass),
        (FatalError::UnsatisfiedDeps { reason: text() }, ExitCode::UnsatisfiedDeps),
        (
            FatalError::MissingLocalLib { coordinate: text(), path: text() },
            ExitCode::MissingLocalLib,
        ),
        (
            FatalError::DownloadFailed { coordinate: text(), reason: text() },
            ExitCode::DownloadFailed,
        ),
        (
            FatalError::MissingComponent { uid: text(), version: None, patch_path: text() },
            ExitCode::MissingComponent,
        ),
        (
            FatalError::MetaResolveFailed { uid: text(), version: text(), reason: text() },
            ExitCode::MetaResolveFailed,
        ),
    ];
    for (error, code) in cases {
        let error = Error::fatal(error);
        assert_eq!(exit_code_for(&error), code);
        // What was being done does not matter.
        assert_eq!(exit_code_for(&error.within("doing".to_owned())), code);
    }
}

#[test]
fn everything_else_is_an_io_error() {
    let causes = vec![
        Cause::InvalidCoordinate { name: "x".to_owned() },
        Cause::NoNativeDownload { classifier: "x".to_owned() },
        Cause::Other { message: "x".to_owned() },
    ];
    for cause in causes {
        assert_eq!(exit_code_for(&Error::new(cause)), ExitCode::IoError);
    }
}

#[test]
fn contexts_are_told_innermost_first() {
    let error = Error::fatal(FatalError::NoMainClass);
    assert!(error.contexts.is_empty());
    let error = error.within("inner".to_owned()).within("outer".to_owned());
    assert_eq!(error.contexts, ["inner", "outer"]);
    assert_eq!(error.clone().contexts, ["inner", "outer"]);
}
