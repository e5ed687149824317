//! The errors of a stream.

use std::sync::Arc;
use vstd::prelude::*;
use vstd::std_specs::convert::FromSpecImpl;
use vstd::string::to_string_from_display_ensures;

verus! {

/// `String::push_str` puts the text of `other` behind what the string holds.
pub assume_specification[ String::push_str ](s: &mut String, other: &str)
    ensures
        final(s)@ == old(s)@ + other@,
;

/// `std::io::Error`, carried and rendered, never looked into.
#[verifier::external_type_specification]
#[verifier::external_body]
pub struct ExIoError(std::io::Error);

/// How a text prints for debugging, between quotation marks and with its special characters
/// escaped.
pub uninterp spec fn quoted(text: Seq<char>) -> Seq<char>;

/// `format!` with `{:?}` of a text: what it gives is named by `quoted`.
#[verifier::external_body]
fn quote(text: &str) -> (printed: String)
    ensures
        printed@ == quoted(text@),
{
    format!("{:?}", text)
}

/// `format!` with `{:?}` of any value: how it prints for debugging.  What that is depends on the
/// value's own code, so nothing is claimed of it.
#[verifier::external_body]
fn debug_text<E: core::fmt::Debug + ?Sized>(e: &E) -> (printed: String) {
    format!("{:?}", e)
}

/// `std::io::Error::other` keeps an error as it is, behind one type; nothing more is claimed of it.
#[verifier::external_body]
fn keep<E: std::error::Error + Send + Sync + 'static>(e: E) -> (kept: std::io::Error) {
    std::io::Error::other(e)
}

/// `std::io::Error::other` keeps a box as it is, carried by a `SendError` of the standard library's
/// channels, which carries any value; nothing more is claimed of it.
#[verifier::external_body]
fn keep_boxed<E: Send + Sync + ?Sized + 'static>(e: Box<E>) -> (kept: std::io::Error) {
    std::io::Error::other(std::sync::mpsc::SendError(e))
}

/// Whether `printed` can come of printing a value for debugging.
pub closed spec fn prints<E: core::fmt::Debug + ?Sized>(e: &E, printed: String) -> bool {
    call_ensures(debug_text::<E>, (e,), printed)
}

/// Whether `kept` can come of keeping an error.
pub closed spec fn keeps<E: std::error::Error + Send + Sync + 'static>(
    e: E,
    kept: std::io::Error,
) -> bool {
    call_ensures(keep::<E>, (e,), kept)
}

/// Whether `kept` can come of keeping a boxed error.
pub closed spec fn keeps_boxed<E: Send + Sync + ?Sized + 'static>(
    e: Box<E>,
    kept: std::io::Error,
) -> bool {
    call_ensures(keep_boxed::<E>, (e,), kept)
}

/// The conditions that the streams report in words of their own.
#[derive(Clone, Copy, Debug, PartialEq, Eq, Structural)]
pub enum Notice {
    StreamIsErrored,
    StreamErrored,
    StreamIsClosed,
    AlreadyLocked,
    FailedToClose,
    FailedToEnqueue,
    FailedToError,
    SinkMissing,
    BackpressureActive,
    TaskDropped,
    FlushCanceled,
    FlushReceiverMissing,
    CloseCanceled,
    CloseReceiverMissing,
    BothBranchesTerminated,
    TransformTaskDropped,
    TransformWriteCanceled,
    TransformCloseCanceled,
    TransformAbortCanceled,
    TransformAborted,
    Terminated,
}

impl Notice {
    /// The words of a notice.
    pub open spec fn words(self) -> Seq<char> {
        match self {
            Notice::StreamIsErrored => "Stream is errored"@,
            Notice::StreamErrored => "Stream errored"@,
            Notice::StreamIsClosed => "Stream is closed"@,
            Notice::AlreadyLocked => "Stream already locked"@,
            Notice::FailedToClose => "Failed to close stream"@,
            Notice::FailedToEnqueue => "Failed to enqueue chunk"@,
            Notice::FailedToError => "Failed to error stream"@,
            Notice::SinkMissing => "Sink missing"@,
            Notice::BackpressureActive =>
                "start_send called while backpressure is active - call poll_ready first"@,
            Notice::TaskDropped => "Stream task dropped"@,
            Notice::FlushCanceled => "Flush operation canceled"@,
            Notice::FlushReceiverMissing => "Flush receiver missing"@,
            Notice::CloseCanceled => "Close operation canceled"@,
            Notice::CloseReceiverMissing => "Close receiver missing"@,
            Notice::BothBranchesTerminated => "Both tee branches terminated"@,
            Notice::TransformTaskDropped => "Transform stream task dropped"@,
            Notice::TransformWriteCanceled => "Write operation canceled"@,
            Notice::TransformCloseCanceled => "Close operation canceled"@,
            Notice::TransformAbortCanceled => "Abort operation canceled"@,
            Notice::TransformAborted => "Transform stream aborted"@,
            Notice::Terminated => "Terminated"@,
        }
    }

    /// The words of a notice, as a literal.
    pub fn as_str(self) -> (text: &'static str)
        ensures
            text@ == self.words(),
    {
        match self {
            Notice::StreamIsErrored => "Stream is errored",
            Notice::StreamErrored => "Stream errored",
            Notice::StreamIsClosed => "Stream is closed",
            Notice::AlreadyLocked => "Stream already locked",
            Notice::FailedToClose => "Failed to close stream",
            Notice::FailedToEnqueue => "Failed to enqueue chunk",
            Notice::FailedToError => "Failed to error stream",
            Notice::SinkMissing => "Sink missing",
            Notice::BackpressureActive =>
                "start_send called while backpressure is active - call poll_ready first",
            Notice::TaskDropped => "Stream task dropped",
            Notice::FlushCanceled => "Flush operation canceled",
            Notice::FlushReceiverMissing => "Flush receiver missing",
            Notice::CloseCanceled => "Close operation canceled",
            Notice::CloseReceiverMissing => "Close receiver missing",
            Notice::BothBranchesTerminated => "Both tee branches terminated",
            Notice::TransformTaskDropped => "Transform stream task dropped",
            Notice::TransformWriteCanceled => "Write operation canceled",
            Notice::TransformCloseCanceled => "Close operation canceled",
            Notice::TransformAbortCanceled => "Abort operation canceled",
            Notice::TransformAborted => "Transform stream aborted",
            Notice::Terminated => "Terminated",
        }
    }
}

/// An error that is none of the stream's own states: a notice of the library, a plain message, or
/// an error of another kind, with how it reads and how it prints for debugging, and kept as it is.
#[derive(Debug)]
pub enum OtherError {
    Notice(Notice),
    Message(String),
    Foreign { message: String, debug: String, error: Arc<std::io::Error> },
}

impl OtherError {
    /// Whether this is what is made of an error of another kind.
    pub open spec fn holds<E: core::fmt::Display + std::error::Error + Send + Sync + 'static>(
        self,
        e: E,
    ) -> bool {
        &&& self matches OtherError::Foreign { message, debug, error }
        &&& to_string_from_display_ensures::<E>(&e, message)
        &&& prints(&e, debug)
        &&& keeps(e, *error)
    }

    /// Whether this is what is made of a boxed error.
    pub open spec fn holds_boxed<E>(self, e: Box<E>) -> bool where
        E: core::fmt::Display + core::fmt::Debug + Send + Sync + ?Sized + 'static,
     {
        &&& self matches OtherError::Foreign { message, debug, error }
        &&& to_string_from_display_ensures::<E>(&*e, message)
        &&& prints(&*e, debug)
        &&& keeps_boxed(e, *error)
    }

    /// An error of another kind.
    pub fn new<E: core::fmt::Display + std::error::Error + Send + Sync + 'static>(e: E) -> (error:
        Self)
        ensures
            error.holds(e),
    {
        let message = e.to_string();
        let debug = debug_text(&e);
        OtherError::Foreign { message, debug, error: Arc::new(keep(e)) }
    }

    /// The words of the error.
    pub open spec fn words(self) -> Seq<char> {
        match self {
            OtherError::Notice(notice) => notice.words(),
            OtherError::Message(message) => message@,
            OtherError::Foreign { message, .. } => message@,
        }
    }

    /// How the error prints for debugging.
    pub open spec fn debug_words(self) -> Seq<char> {
        match self {
            OtherError::Foreign { debug, .. } => debug@,
            _ => "SimpleError("@ + quoted(self.words()) + ")"@,
        }
    }

    /// How the error prints for debugging, as a string.
    pub fn to_debug_text(&self) -> (text: String)
        ensures
            text@ == self.debug_words(),
    {
        match self {
            OtherError::Foreign { debug, .. } => debug.clone(),
            _ => {
                let mut text = "SimpleError(".to_owned();
                text.push_str(quote(self.message().as_str()).as_str());
                text.push_str(")");
                text
            },
        }
    }

    /// The words of the error, as a string.
    pub fn message(&self) -> (text: String)
        ensures
            text@ == self.words(),
    {
        match self {
            OtherError::Notice(notice) => notice.as_str().to_owned(),
            OtherError::Message(message) => message.clone(),
            OtherError::Foreign { message, .. } => message.clone(),
        }
    }

    /// The error of another kind itself: an I/O error as it is, any other error in one; a boxed one
    /// is carried there by a `SendError`.
    pub fn kept(&self) -> (kept: Option<&Arc<std::io::Error>>)
        ensures
            match *self {
                OtherError::Foreign { error, .. } => kept == Some(&error),
                _ => kept is None,
            },
    {
        match self {
            OtherError::Foreign { error, .. } => Some(error),
            _ => None,
        }
    }
}

impl Clone for OtherError {
    fn clone(&self) -> (copy: Self)
        ensures
            copy == *self,
    {
        match self {
            OtherError::Notice(notice) => OtherError::Notice(*notice),
            OtherError::Message(message) => OtherError::Message(message.clone()),
            OtherError::Foreign { message, debug, error } => OtherError::Foreign {
                message: message.clone(),
                debug: debug.clone(),
                error: error.clone(),
            },
        }
    }
}

/// What a stream operation can fail with.
#[derive(Debug)]
pub enum StreamError {
    Canceled,
    Aborted(Option<String>),
    Closing,
    Closed,
    TaskDropped,
    Other(OtherError),
}

/// The result of a stream operation.
pub type StreamResult<T> = Result<T, StreamError>;

impl StreamError {
    /// Wrap any error type into `StreamError`
    pub fn other<E: core::fmt::Display + std::error::Error + Send + Sync + 'static>(e: E) -> (error:
        Self)
        ensures
            error matches StreamError::Other(other) && other.holds(e),
    {
        StreamError::Other(OtherError::new(e))
    }

    /// Wrap a boxed error
    pub fn other_boxed<E>(e: Box<E>) -> (error: Self) where
        E: core::fmt::Display + core::fmt::Debug + Send + Sync + ?Sized + 'static,

        ensures
            error matches StreamError::Other(other) && other.holds_boxed(e),
    {
        let message = (*e).to_string();
        let debug = debug_text(&*e);
        let kept = Arc::new(keep_boxed(e));
        StreamError::Other(OtherError::Foreign { message, debug, error: kept })
    }

    /// An error that carries one of the library's notices.
    pub open spec fn spec_notice(notice: Notice) -> Self {
        StreamError::Other(OtherError::Notice(notice))
    }

    /// An error that carries one of the library's notices.
    #[verifier::when_used_as_spec(spec_notice)]
    pub fn notice(notice: Notice) -> (error: Self)
        ensures
            error == Self::spec_notice(notice),
    {
        StreamError::Other(OtherError::Notice(notice))
    }

    /// The text that describes the error.
    pub open spec fn words(self) -> Seq<char> {
        match self {
            StreamError::Canceled => "Stream operation was canceled"@,
            StreamError::Aborted(Some(reason)) => "Stream was aborted: "@ + reason@,
            StreamError::Aborted(None) => "Stream was aborted"@,
            StreamError::Closing => "Stream is closing"@,
            StreamError::Closed => "Stream is closed"@,
            StreamError::TaskDropped => "Stream task was dropped"@,
            StreamError::Other(error) => error.words(),
        }
    }

    /// The text that describes the error, as a string.
    pub fn to_text(&self) -> (text: String)
        ensures
            text@ == self.words(),
    {
        match self {
            StreamError::Canceled => "Stream operation was canceled".to_owned(),
            StreamError::Aborted(reason) => match reason {
                Some(reason) => {
                    let mut text = "Stream was aborted: ".to_owned();
                    text.push_str(reason.as_str());
                    text
                },
                None => "Stream was aborted".to_owned(),
            },
            StreamError::Closing => "Stream is closing".to_owned(),
            StreamError::Closed => "Stream is closed".to_owned(),
            StreamError::TaskDropped => "Stream task was dropped".to_owned(),
            StreamError::Other(error) => error.message(),
        }
    }

    /// How the error prints for debugging.
    pub open spec fn debug_words(self) -> Seq<char> {
        match self {
            StreamError::Canceled => "Canceled"@,
            StreamError::Aborted(Some(reason)) => "Aborted(Some("@ + quoted(reason@) + "))"@,
            StreamError::Aborted(None) => "Aborted(None)"@,
            StreamError::Closing => "Closing"@,
            StreamError::Closed => "Closed"@,
            StreamError::TaskDropped => "TaskDropped"@,
            StreamError::Other(error) => "Other("@ + error.debug_words() + ")"@,
        }
    }

    /// How the error prints for debugging, as a string.
    pub fn to_debug_text(&self) -> (text: String)
        ensures
            text@ == self.debug_words(),
    {
        match self {
            StreamError::Canceled => "Canceled".to_owned(),
            StreamError::Aborted(reason) => match reason {
                Some(reason) => {
                    let mut text = "Aborted(Some(".to_owned();
                    text.push_str(quote(reason.as_str()).as_str());
                    text.push_str("))");
                    text
                },
                None => "Aborted(None)".to_owned(),
            },
            StreamError::Closing => "Closing".to_owned(),
            StreamError::Closed => "Closed".to_owned(),
            StreamError::TaskDropped => "TaskDropped".to_owned(),
            StreamError::Other(error) => {
                let mut text = "Other(".to_owned();
                text.push_str(error.to_debug_text().as_str());
                text.push_str(")");
                text
            },
        }
    }

    /// The underlying error, which only an error of another kind has.
    pub fn source(&self) -> (source: Option<&OtherError>)
        ensures
            match *self {
                StreamError::Other(error) => source == Some(&error),
                _ => source is None,
            },
    {
        match self {
            StreamError::Other(error) => Some(error),
            _ => None,
        }
    }
}

impl Clone for StreamError {
    fn clone(&self) -> (copy: Self)
        ensures
            copy == *self,
    {
        match self {
            StreamError::Canceled => StreamError::Canceled,
            StreamError::Aborted(reason) => StreamError::Aborted(clone_reason(reason)),
            StreamError::Closing => StreamError::Closing,
            StreamError::Closed => StreamError::Closed,
            StreamError::TaskDropped => StreamError::TaskDropped,
            StreamError::Other(error) => StreamError::Other(error.clone()),
        }
    }
}

impl FromSpecImpl<&str> for StreamError {
    open spec fn obeys_from_spec() -> bool {
        false
    }

    open spec fn from_spec(s: &str) -> Self {
        arbitrary()
    }
}

impl From<&str> for StreamError {
    fn from(s: &str) -> (error: Self)
        ensures
            error matches StreamError::Other(OtherError::Message(message)) && message@ == s@,
    {
        StreamError::Other(OtherError::Message(s.to_owned()))
    }
}

impl FromSpecImpl<String> for StreamError {
    open spec fn obeys_from_spec() -> bool {
        true
    }

    open spec fn from_spec(s: String) -> Self {
        StreamError::Other(OtherError::Message(s))
    }
}

impl From<String> for StreamError {
    fn from(s: String) -> (error: Self) {
        StreamError::Other(OtherError::Message(s))
    }
}

impl FromSpecImpl<OtherError> for StreamError {
    open spec fn obeys_from_spec() -> bool {
        true
    }

    open spec fn from_spec(error: OtherError) -> Self {
        StreamError::Other(error)
    }
}

impl From<OtherError> for StreamError {
    fn from(error: OtherError) -> (wrapped: Self) {
        StreamError::Other(error)
    }
}

impl FromSpecImpl<std::io::Error> for StreamError {
    open spec fn obeys_from_spec() -> bool {
        false
    }

    open spec fn from_spec(e: std::io::Error) -> Self {
        arbitrary()
    }
}

impl From<std::io::Error> for StreamError {
    fn from(e: std::io::Error) -> (error: Self)
        ensures
            error matches StreamError::Other(
                OtherError::Foreign { message, debug, error: kept },
            ) && to_string_from_display_ensures::<std::io::Error>(&e, message) && prints(&e, debug)
                && *kept == e,
    {
        let message = e.to_string();
        let debug = debug_text(&e);
        StreamError::Other(OtherError::Foreign { message, debug, error: Arc::new(e) })
    }
}

impl<E> FromSpecImpl<Box<E>> for StreamError where
    E: core::fmt::Display + core::fmt::Debug + Send + Sync + ?Sized + 'static,
 {
    open spec fn obeys_from_spec() -> bool {
        false
    }

    open spec fn from_spec(e: Box<E>) -> Self {
        arbitrary()
    }
}

impl<E> From<Box<E>> for StreamError where
    E: core::fmt::Display + core::fmt::Debug + Send + Sync + ?Sized + 'static,
 {
    fn from(e: Box<E>) -> (error: Self)
        ensures
            error matches StreamError::Other(other) && other.holds_boxed(e),
    {
        StreamError::other_boxed(e)
    }
}

/// A copy of an optional reason.
pub fn clone_reason(reason: &Option<String>) -> (copy: Option<String>)
    ensures
        copy == *reason,
{
    match reason {
        Some(reason) => Some(reason.clone()),
        None => None,
    }
}

/// A copy of the outcome of an operation that returns nothing.
pub fn clone_outcome(outcome: &StreamResult<()>) -> (copy: StreamResult<()>)
    ensures
        copy == *outcome,
{
    match outcome {
        Ok(unit) => Ok(*unit),
        Err(error) => Err(error.clone()),
    }
}

/// An abort says that it was one, and behind that the reason, if there was one; an error of another
/// kind says what that error says; and each prints for debugging under its own name.
pub proof fn law_how_errors_read(reason: String, error: OtherError, message: String)
    ensures
        StreamError::Aborted(Some(reason)).words() == StreamError::Aborted(None).words() + ": "@
            + reason@,
        StreamError::Other(error).words() == error.words(),
        OtherError::Message(message).words() == message@,
        StreamError::Closed.words() == Notice::StreamIsClosed.words(),
        StreamError::Other(error).debug_words() == "Other("@ + error.debug_words() + ")"@,
        error matches OtherError::Foreign { message, debug, .. } ==> error.words() == message@
            && error.debug_words() == debug@,
        !(error is Foreign) ==> error.debug_words() == "SimpleError("@ + quoted(error.words())
            + ")"@,
{
    reveal_strlit("Stream was aborted: ");
    reveal_strlit("Stream was aborted");
    reveal_strlit(": ");
    assert("Stream was aborted: "@ =~= "Stream was aborted"@ + ": "@);
    assert(StreamError::Aborted(Some(reason)).words() =~= StreamError::Aborted(None).words() + ": "@
        + reason@);
}

} // verus!
