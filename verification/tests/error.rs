use std::error::Error;
use std::fmt;
use std::sync::mpsc::SendError;

use whatwg_streams::error::{Notice, OtherError, StreamError};

fn text(error: &StreamError) -> String {
    error.to_text()
}

#[test]
fn test_all_conversions_work() {
    let from_str: StreamError = "error message".into();
    assert_eq!(text(&from_str), "error message");
    let from_string: StreamError = String::from("error").into();
    assert_eq!(text(&from_string), "error");

    let io_err = std::io::Error::new(std::io::ErrorKind::Other, "io error");
    let from_io: StreamError = io_err.into();
    assert_eq!(text(&from_io), "io error");

    #[derive(Debug)]
    struct CustomError;
    impl fmt::Display for CustomError {
        fn fmt(&self, f: &mut fmt::Formatter<'_>) -> fmt::Result {
            f.write_str("custom error")
        }
    }
    impl Error for CustomError {}

    let from_custom: StreamError = StreamError::other(CustomError);
    assert_eq!(text(&from_custom), "custom error");
}

#[test]
fn error_test_all_conversions_work() {
    let _: StreamError = "error message".into();
    let _: StreamError = String::from("error").into();

    let io_err = std::io::Error::new(std::io::ErrorKind::Other, "io error");
    let _: StreamError = io_err.into();

    #[derive(Debug)]
    struct CustomError;
    impl fmt::Display for CustomError {
        fn fmt(&self, f: &mut fmt::Formatter<'_>) -> fmt::Result {
            f.write_str("custom error")
        }
    }
    impl Error for CustomError {}

    let other_err = OtherError::new(CustomError);
    let wrapped: StreamError = other_err.into();
    assert_eq!(text(&wrapped), "custom error");
}

#[test]
fn test_question_mark_works() {
    fn returns_stream_error() -> Result<(), StreamError> {
        Err("stream error".into())
    }
    fn caller() -> Result<(), StreamError> {
        returns_stream_error()?;
        Ok(())
    }

    let result = caller();
    assert!(result.is_err());
    assert_eq!(text(&result.unwrap_err()), "stream error");
}

#[test]
fn error_test_question_mark_works() {
    fn returns_stream_error() -> Result<(), StreamError> {
        Err("stream error".into())
    }

    let result = returns_stream_error();
    assert!(result.is_err());
}

#[derive(Debug)]
struct UserCustomError(String);

impl fmt::Display for UserCustomError {
    fn fmt(&self, f: &mut fmt::Formatter<'_>) -> fmt::Result {
        f.write_str(&format!("User error: {}", self.0))
    }
}

impl Error for UserCustomError {}

impl From<UserCustomError> for StreamError {
    fn from(e: UserCustomError) -> StreamError {
        StreamError::other(e)
    }
}

#[test]
fn test_macro_usage_example() {
    fn user_function() -> Result<(), StreamError> {
        fn might_fail() -> Result<(), UserCustomError> {
            Err(UserCustomError("something went wrong".to_string()))
        }
        might_fail()?;
        Ok(())
    }

    assert!(user_function().is_err());
    assert_eq!(
        text(&user_function().unwrap_err()),
        "User error: something went wrong"
    );
}

#[test]
fn error_test_macro_usage_example() {
    fn might_fail() -> Result<(), UserCustomError> {
        Err(UserCustomError("something went wrong".to_string()))
    }
    let result: Result<(), StreamError> = might_fail().map_err(StreamError::from);
    assert!(result.is_err());
}

#[test]
fn test_mixed_error_handling() {
    fn might_fail_json() -> Result<(), Box<dyn Error + Send + Sync>> {
        Err("json parse error".into())
    }

    #[derive(Debug)]
    struct CustomError(String);
    impl fmt::Display for CustomError {
        fn fmt(&self, f: &mut fmt::Formatter<'_>) -> fmt::Result {
            f.write_str(&self.0)
        }
    }
    impl Error for CustomError {}

    fn might_fail_custom() -> Result<(), CustomError> {
        Err(CustomError("custom failure".to_string()))
    }

    fn boxed() -> Result<(), StreamError> {
        might_fail_json().map_err(StreamError::other_boxed)?;
        Ok(())
    }
    fn custom() -> Result<(), StreamError> {
        might_fail_custom().map_err(StreamError::other)?;
        Ok(())
    }
    fn converted() -> Result<(), StreamError> {
        might_fail_json()?;
        Ok(())
    }

    assert_eq!(text(&boxed().unwrap_err()), "json parse error");
    assert_eq!(text(&custom().unwrap_err()), "custom failure");
    assert_eq!(text(&converted().unwrap_err()), "json parse error");
}

#[test]
fn error_test_mixed_error_handling() {
    fn might_fail_json() -> Result<(), Box<dyn Error + Send + Sync>> {
        Err("json parse error".into())
    }
    let result = might_fail_json().map_err(StreamError::other_boxed);
    assert_eq!(text(&result.unwrap_err()), "json parse error");
    let result: Result<(), StreamError> =
        Err(UserCustomError("custom failure".to_string())).map_err(StreamError::other);
    assert_eq!(text(&result.unwrap_err()), "User error: custom failure");
}

#[test]
fn errors_describe_themselves() {
    assert_eq!(text(&StreamError::Canceled), "Stream operation was canceled");
    assert_eq!(
        text(&StreamError::Aborted(Some("why".to_string()))),
        "Stream was aborted: why"
    );
    assert_eq!(text(&StreamError::Aborted(None)), "Stream was aborted");
    assert_eq!(text(&StreamError::Closing), "Stream is closing");
    assert_eq!(text(&StreamError::Closed), "Stream is closed");
    assert_eq!(text(&StreamError::TaskDropped), "Stream task was dropped");
    assert_eq!(
        text(&StreamError::notice(Notice::AlreadyLocked)),
        "Stream already locked"
    );
}

#[test]
fn errors_print_for_debugging() {
    assert_eq!(StreamError::Canceled.to_debug_text(), "Canceled");
    assert_eq!(
        StreamError::Aborted(Some("a \"b\"".to_string())).to_debug_text(),
        "Aborted(Some(\"a \\\"b\\\"\"))"
    );
    assert_eq!(StreamError::Aborted(None).to_debug_text(), "Aborted(None)");
    assert_eq!(
        StreamError::from("boom").to_debug_text(),
        "Other(SimpleError(\"boom\"))"
    );
}

#[test]
fn only_other_errors_have_a_source() {
    assert!(StreamError::Canceled.source().is_none());
    assert!(StreamError::Aborted(None).source().is_none());
    let error = StreamError::from("inner");
    assert_eq!(error.source().unwrap().message(), "inner");
    assert_eq!(error.clone().to_text(), "inner");
}

#[test]
fn errors_of_other_kinds_print_as_they_do() {
    let custom = StreamError::other(UserCustomError("odd".to_string()));
    assert_eq!(custom.to_debug_text(), "Other(UserCustomError(\"odd\"))");
    assert_eq!(text(&custom), "User error: odd");
    let io_err = std::io::Error::new(std::io::ErrorKind::BrokenPipe, "pipe");
    let printed = format!("Other({:?})", io_err);
    let from_io = StreamError::from(io_err);
    assert_eq!(from_io.to_debug_text(), printed);
    assert_eq!(text(&from_io), "pipe");
}

#[test]
fn errors_of_other_kinds_are_kept() {
    let custom = StreamError::other(UserCustomError("odd".to_string())).clone();
    let kept = custom.source().unwrap().kept().unwrap();
    let inner = kept.get_ref().unwrap().downcast_ref::<UserCustomError>().unwrap();
    assert_eq!(inner.0, "odd");
    let io_err = std::io::Error::new(std::io::ErrorKind::BrokenPipe, "pipe");
    let from_io = StreamError::from(io_err);
    let kept = from_io.source().unwrap().kept().unwrap();
    assert_eq!(kept.kind(), std::io::ErrorKind::BrokenPipe);
    assert!(StreamError::from("words").source().unwrap().kept().is_none());
    assert!(StreamError::notice(Notice::AlreadyLocked).source().unwrap().kept().is_none());
}

#[test]
fn a_boxed_error_is_kept_in_its_box() {
    let boxed = || -> Box<dyn Error + Send + Sync> {
        Box::new(UserCustomError("boxed".to_string()))
    };
    for error in [StreamError::other_boxed(boxed()), StreamError::from(boxed())] {
        assert_eq!(text(&error), "User error: boxed");
        assert_eq!(error.to_debug_text(), "Other(UserCustomError(\"boxed\"))");
        let kept = error.source().unwrap().kept().unwrap();
        let carried = kept.get_ref().unwrap();
        let carried = carried.downcast_ref::<SendError<Box<dyn Error + Send + Sync>>>().unwrap();
        assert_eq!(carried.0.downcast_ref::<UserCustomError>().unwrap().0, "boxed");
    }
}
