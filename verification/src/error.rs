use vstd::prelude::*;
use vstd::string::StringExecFns;

verus! {

/// The kinds of filesystem failure that the engine tells apart.
#[derive(Clone, Copy, Debug, PartialEq, Eq, Structural)]
pub enum IoErrorKind {
    NotFound,
    PermissionDenied,
    AlreadyExists,
    Other,
}

/// A filesystem failure: its kind and the message shown on the status line.
#[derive(Debug, PartialEq, Eq)]
pub struct IoError {
    pub kind: IoErrorKind,
    pub message: String,
}

/// What a filesystem failure is in contracts.
pub struct IoErrorView {
    pub kind: IoErrorKind,
    pub message: Seq<char>,
}

impl View for IoError {
    type V = IoErrorView;

    open spec fn view(&self) -> IoErrorView {
        IoErrorView { kind: self.kind, message: self.message@ }
    }
}

impl IoError {
    /// The failure of the kind `kind` with the message `message`.
    pub fn new(kind: IoErrorKind, message: &str) -> (r: Self)
        ensures
            r@ == (IoErrorView { kind, message: message@ }),
    {
        IoError { kind, message: message.to_owned() }
    }

    /// The message shown to the user for this error.
    pub fn to_string(&self) -> (r: String)
        ensures
            r@ == self@.message,
    {
        self.message.clone()
    }
}

impl Clone for IoError {
    fn clone(&self) -> (r: Self)
        ensures
            r@ == self@,
    {
        IoError { kind: self.kind, message: self.message.clone() }
    }
}

/// A configuration failure: a command that is unknown, has the wrong number
/// of arguments, or has an argument that cannot be read.
#[derive(Debug, PartialEq, Eq)]
pub struct KeymapError {
    pub command: Option<String>,
    pub error: String,
}

/// What a configuration failure is in contracts.
pub struct KeymapErrorView {
    pub command: Option<Seq<char>>,
    pub error: Seq<char>,
}

impl View for KeymapError {
    type V = KeymapErrorView;

    open spec fn view(&self) -> KeymapErrorView {
        KeymapErrorView {
            command: match self.command {
                Some(c) => Some(c@),
                None => None,
            },
            error: self.error@,
        }
    }
}

impl KeymapError {
    /// The failure of the command `command`, where it is about one, with the
    /// message `error`.
    pub fn new(command: Option<&str>, error: String) -> (r: Self)
        ensures
            r@.error == error@,
            match command {
                Some(c) => r@.command == Some(c@),
                None => r@.command is None,
            },
    {
        let command = match command {
            Some(c) => Some(c.to_owned()),
            None => None,
        };
        KeymapError { command, error }
    }

    /// The error as the status line shows it.
    pub fn to_string(&self) -> (r: String)
        ensures
            r@ == self@.text(),
    {
        match &self.command {
            Some(c) => {
                let r = c.clone().concat(": ").concat(self.error.as_str());
                assert(r@ =~= c@ + ": "@ + self.error@);
                r
            },
            None => self.error.clone(),
        }
    }
}

impl KeymapErrorView {
    /// The error as the status line shows it: the command that it is
    /// about, where there is one, and the message.
    pub open spec fn text(self) -> Seq<char> {
        match self.command {
            Some(c) => c + ": "@ + self.error,
            None => self.error,
        }
    }
}

/// The failure of a worker that was copying or moving files.
#[derive(Debug, PartialEq, Eq)]
pub struct WorkerError {
    pub message: String,
}

/// Any failure that the session reports.
#[derive(Debug, PartialEq, Eq)]
pub enum LllError {
    IO(IoError),
    Keymap(KeymapError),
    Worker(WorkerError),
}

/// What a failure is in contracts.
pub enum LllErrorView {
    IO(IoErrorView),
    Keymap(KeymapErrorView),
    Worker(Seq<char>),
}

impl LllErrorView {
    /// The one message that the status line shows for the error.
    pub open spec fn text(self) -> Seq<char> {
        match self {
            LllErrorView::IO(e) => e.message,
            LllErrorView::Keymap(e) => e.text(),
            LllErrorView::Worker(message) => message,
        }
    }
}

impl View for LllError {
    type V = LllErrorView;

    open spec fn view(&self) -> LllErrorView {
        match self {
            LllError::IO(e) => LllErrorView::IO(e@),
            LllError::Keymap(e) => LllErrorView::Keymap(e@),
            LllError::Worker(e) => LllErrorView::Worker(e.message@),
        }
    }
}

impl LllError {
    /// The one message that the status line shows for the error.
    pub fn to_string(&self) -> (r: String)
        ensures
            r@ == self@.text(),
    {
        match self {
            LllError::IO(e) => e.to_string(),
            LllError::Keymap(e) => e.to_string(),
            LllError::Worker(e) => e.message.clone(),
        }
    }
}

} // verus!
