//! Errors of the client.

use vstd::prelude::*;

verus! {

/// The fields of an ErrorResponse or NoticeResponse, in the order they came.
#[derive(Debug)]
pub struct ServerError {
    pub fields: Vec<(u8, Vec<u8>)>,
}

/// The first value a field list holds under `code`.
pub open spec fn field_of(fields: Seq<(u8, Seq<u8>)>, code: u8) -> Option<Seq<u8>>
    decreases fields.len(),
{
    if fields.len() == 0 {
        None
    } else if fields[0].0 == code {
        Some(fields[0].1)
    } else {
        field_of(fields.drop_first(), code)
    }
}

/// FATAL in ASCII.
pub open spec fn fatal_text() -> Seq<u8> {
    seq![70u8, 65, 84, 65, 76]
}

/// PANIC in ASCII.
pub open spec fn panic_text() -> Seq<u8> {
    seq![80u8, 65, 78, 73, 67]
}

/// The severity: the non-localized field `V`, or `S` of servers that do not send it.
pub open spec fn severity_of(fields: Seq<(u8, Seq<u8>)>) -> Option<Seq<u8>> {
    match field_of(fields, 86) {
        Some(v) => Some(v),
        None => field_of(fields, 83),
    }
}

/// The server ends the session after an error of this severity.
pub open spec fn ends_session(fields: Seq<(u8, Seq<u8>)>) -> bool {
    severity_of(fields) == Some(fatal_text()) || severity_of(fields) == Some(panic_text())
}

impl View for ServerError {
    type V = Seq<(u8, Seq<u8>)>;

    open spec fn view(&self) -> Seq<(u8, Seq<u8>)> {
        self.fields@.map_values(|f: (u8, Vec<u8>)| (f.0, f.1@))
    }
}

/// Compares two byte strings.
pub fn bytes_equal(a: &[u8], b: &[u8]) -> (r: bool)
    ensures
        r == (a@ == b@),
{
    if a.len() != b.len() {
        return false;
    }
    let mut i: usize = 0;
    while i < a.len()
        invariant
            a@.len() == b@.len(),
            i <= a@.len(),
            forall|j: int| 0 <= j < i ==> a@[j] == b@[j],
        decreases a@.len() - i,
    {
        if a[i] != b[i] {
            return false;
        }
        i = i + 1;
    }
    assert(a@ =~= b@);
    true
}

impl ServerError {
    /// The first value of the field `code`.
    pub fn field(&self, code: u8) -> (r: Option<&Vec<u8>>)
        ensures
            match r {
                Some(v) => field_of(self@, code) == Some(v@),
                None => field_of(self@, code) is None,
            },
    {
        let mut i: usize = 0;
        assert(self@.skip(0) =~= self@);
        while i < self.fields.len()
            invariant
                i <= self.fields@.len(),
                self@.len() == self.fields@.len(),
                field_of(self@, code) == field_of(self@.skip(i as int), code),
            decreases self.fields@.len() - i,
        {
            let ghost rest = self@.skip(i as int);
            assert(rest[0] == (self.fields@[i as int].0, self.fields@[i as int].1@));
            assert(rest.drop_first() =~= self@.skip(i + 1));
            if self.fields[i].0 == code {
                return Some(&self.fields[i].1);
            }
            i = i + 1;
        }
        None
    }

    /// Whether the server ends the session with this error.
    pub fn is_fatal(&self) -> (r: bool)
        ensures
            r == ends_session(self@),
    {
        let severity = match self.field(86) {
            Some(v) => Some(v),
            None => self.field(83),
        };
        match severity {
            Some(v) => {
                let fatal: [u8; 5] = [70, 65, 84, 65, 76];
                let panic: [u8; 5] = [80, 65, 78, 73, 67];
                assert(fatal@ =~= fatal_text());
                assert(panic@ =~= panic_text());
                bytes_equal(v.as_slice(), &fatal) || bytes_equal(v.as_slice(), &panic)
            },
            None => false,
        }
    }
}

/// What can go wrong.
#[derive(Debug)]
pub enum Error {
    /// The connection was left in a state that does not allow reuse.
    ConnectionBroken,
    /// The transport failed.
    Io(String),
    /// The server answered with an error.
    Server(ServerError),
    /// The server sent a message that cannot be decoded.
    Protocol(String),
    /// The exchange took a turn that the client does not expect.
    LibraryBug(String),
    /// The caller asked for something that is not allowed.
    InvalidUsage(String),
    /// The caller asked for something that this build does not support.
    Unsupported(String),
    /// A value could not be turned into a parameter.
    Encode(String),
    /// A value could not be read from a row.
    Decode(String),
}

/// An error with its texts as character sequences.
pub enum ErrorView {
    ConnectionBroken,
    Io(Seq<char>),
    Server(Seq<(u8, Seq<u8>)>),
    Protocol(Seq<char>),
    LibraryBug(Seq<char>),
    InvalidUsage(Seq<char>),
    Unsupported(Seq<char>),
    Encode(Seq<char>),
    Decode(Seq<char>),
}

impl View for Error {
    type V = ErrorView;

    open spec fn view(&self) -> ErrorView {
        match self {
            Error::ConnectionBroken => ErrorView::ConnectionBroken,
            Error::Io(m) => ErrorView::Io(m@),
            Error::Server(e) => ErrorView::Server(e@),
            Error::Protocol(m) => ErrorView::Protocol(m@),
            Error::LibraryBug(m) => ErrorView::LibraryBug(m@),
            Error::InvalidUsage(m) => ErrorView::InvalidUsage(m@),
            Error::Unsupported(m) => ErrorView::Unsupported(m@),
            Error::Encode(m) => ErrorView::Encode(m@),
            Error::Decode(m) => ErrorView::Decode(m@),
        }
    }
}

impl ErrorView {
    /// The connection cannot be used after this error.
    pub open spec fn breaks(self) -> bool {
        match self {
            ErrorView::ConnectionBroken => true,
            ErrorView::Io(_) => true,
            ErrorView::Server(fields) => ends_session(fields),
            _ => false,
        }
    }
}

impl Error {
    /// Whether the connection cannot be used after this error.
    pub fn is_connection_broken(&self) -> (r: bool)
        ensures
            r == self@.breaks(),
    {
        match self {
            Error::ConnectionBroken => true,
            Error::Io(_) => true,
            Error::Server(e) => e.is_fatal(),
            _ => false,
        }
    }
}

/// A result with its error as a mathematical value.
pub open spec fn outcome<T>(r: Result<T, Error>) -> Result<T, ErrorView> {
    match r {
        Ok(v) => Ok(v),
        Err(e) => Err(e@),
    }
}

/// [`ServerError::field`] gives the value of the first field with the code, and nothing where no field
/// has it.
pub proof fn field_is_the_first(error: &ServerError, code: u8, r: Option<&Vec<u8>>)
    requires
        call_ensures(ServerError::field, (error, code), r),
    ensures
        match r {
            Some(value) => exists|i: int|
                0 <= i < error@.len() && #[trigger] error@[i] == (code, value@) && forall|j: int|
                    0 <= j < i ==> (#[trigger] error@[j]).0 != code,
            None => forall|j: int| 0 <= j < error@.len() ==> (#[trigger] error@[j]).0 != code,
        },
{
    let i = first_with(error@, code);
}

/// Where the first field with a code stands, or the length of the list.
proof fn first_with(fields: Seq<(u8, Seq<u8>)>, code: u8) -> (i: int)
    ensures
        0 <= i <= fields.len(),
        forall|j: int| 0 <= j < i ==> (#[trigger] fields[j]).0 != code,
        i < fields.len() ==> fields[i].0 == code && field_of(fields, code) == Some(fields[i].1),
        i == fields.len() ==> field_of(fields, code) is None,
    decreases fields.len(),
{
    if fields.len() == 0 || fields[0].0 == code {
        0
    } else {
        let i = first_with(fields.drop_first(), code) + 1;
        assert forall|j: int| 0 <= j < i implies (#[trigger] fields[j]).0 != code by {
            if j > 0 {
                assert(fields[j] == fields.drop_first()[j - 1]);
            }
        }
        i
    }
}

/// The server ends the session with the severities FATAL and PANIC, and with no other. The severity
/// is in the field V, and in the field S of servers that do not send V: `severity` is the first value
/// of the one that counts.
pub proof fn fatal_errors_end_the_session(
    error: &ServerError,
    language_free: Option<&Vec<u8>>,
    localized: Option<&Vec<u8>>,
    fatal: bool,
)
    requires
        call_ensures(ServerError::field, (error, 86u8), language_free),
        call_ensures(ServerError::field, (error, 83u8), localized),
        call_ensures(ServerError::is_fatal, (error,), fatal),
    ensures
        ({
            let severity = match language_free {
                Some(v) => Some(v@),
                None => match localized {
                    Some(s) => Some(s@),
                    None => None,
                },
            };
            fatal <==> severity == Some(seq![70u8, 65, 84, 65, 76]) || severity == Some(
                seq![80u8, 65, 78, 73, 67],
            )
        }),
{
}

/// A connection cannot be used after a failure of the transport, after an error with which the server
/// ends the session, and where it could not be used before. After any other error it can.
pub proof fn breaking_errors_are_these(error: &Error, breaks: bool)
    requires
        call_ensures(Error::is_connection_broken, (error,), breaks),
    ensures
        match error {
            Error::ConnectionBroken => breaks,
            Error::Io(_) => breaks,
            Error::Server(e) => breaks == ends_session(e@),
            Error::Protocol(_) => !breaks,
            Error::LibraryBug(_) => !breaks,
            Error::InvalidUsage(_) => !breaks,
            Error::Unsupported(_) => !breaks,
            Error::Encode(_) => !breaks,
            Error::Decode(_) => !breaks,
        },
{
}

} // verus!
