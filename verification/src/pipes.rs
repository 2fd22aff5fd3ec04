//! Named pipes: the errors of the pipe helper, and the decisions taken
//! around the file-system calls that find, create and open pipes.
use vstd::prelude::*;

verus! {

/// What can go wrong with a named pipe.
#[derive(Debug, Clone, PartialEq, Eq, Structural)]
pub enum PipeError {
    PipeNotFoundError,
    FailedToReadError,
    FailedToWriteError,
    FailedToGetMetadataError,
    NotFIFOError,
    InvalidNameError,
    FailedToCreateError,
    FailedToRemoveError,
}

/// What can go wrong with the process's standard streams.
#[derive(Debug, Clone, PartialEq, Eq, Structural)]
pub enum StdStreamError {
    FailedToReadError,
    FailedToWriteError,
}

/// The text shown for a pipe error.
pub open spec fn pipe_error_text(e: PipeError) -> Seq<char> {
    match e {
        PipeError::PipeNotFoundError => "Pipe not found."@,
        PipeError::FailedToReadError => "Failed to read from pipe."@,
        PipeError::FailedToWriteError => "Failed to write to pipe."@,
        PipeError::FailedToGetMetadataError => "Failed to get metadata for pipe."@,
        PipeError::NotFIFOError => "Pipe is not a FIFO."@,
        PipeError::InvalidNameError => "Invalid pipe name."@,
        PipeError::FailedToCreateError => "Failed to create pipe."@,
        PipeError::FailedToRemoveError => "Failed to remove pipe."@,
    }
}

/// The text shown for a standard-stream error.
pub open spec fn std_stream_error_text(e: StdStreamError) -> Seq<char> {
    match e {
        StdStreamError::FailedToReadError => "Failed to read from stdin."@,
        StdStreamError::FailedToWriteError => "Failed to write to stdout."@,
    }
}

impl PipeError {
    /// The text shown for this error.
    pub fn message(&self) -> (s: String)
        ensures
            s@ == pipe_error_text(*self),
    {
        match self {
            PipeError::PipeNotFoundError => "Pipe not found.".to_owned(),
            PipeError::FailedToReadError => "Failed to read from pipe.".to_owned(),
            PipeError::FailedToWriteError => "Failed to write to pipe.".to_owned(),
            PipeError::FailedToGetMetadataError => "Failed to get metadata for pipe.".to_owned(),
            PipeError::NotFIFOError => "Pipe is not a FIFO.".to_owned(),
            PipeError::InvalidNameError => "Invalid pipe name.".to_owned(),
            PipeError::FailedToCreateError => "Failed to create pipe.".to_owned(),
            PipeError::FailedToRemoveError => "Failed to remove pipe.".to_owned(),
        }
    }
}

impl StdStreamError {
    /// The text shown for this error.
    pub fn message(&self) -> (s: String)
        ensures
            s@ == std_stream_error_text(*self),
    {
        match self {
            StdStreamError::FailedToReadError => "Failed to read from stdin.".to_owned(),
            StdStreamError::FailedToWriteError => "Failed to write to stdout.".to_owned(),
        }
    }
}

/// The pipe was not found.
pub struct PipeNotFoundError;

/// Reading failed.
pub struct FailedToReadError;

/// Writing failed.
pub struct FailedToWriteError;

/// The pipe's metadata could not be read.
pub struct FailedToGetMetadataError;

/// The path exists but is not a FIFO.
pub struct NotFIFOError;

/// The name cannot be a pipe's path.
pub struct InvalidNameError;

/// The pipe could not be created.
pub struct FailedToCreateError;

/// The pipe could not be removed.
pub struct FailedToRemoveError;

impl From<PipeNotFoundError> for PipeError {
    fn from(_e: PipeNotFoundError) -> (r: Self) {
        PipeError::PipeNotFoundError
    }
}

impl vstd::std_specs::convert::FromSpecImpl<PipeNotFoundError> for PipeError {
    open spec fn obeys_from_spec() -> bool {
        true
    }

    open spec fn from_spec(e: PipeNotFoundError) -> Self {
        PipeError::PipeNotFoundError
    }
}

impl From<FailedToReadError> for PipeError {
    fn from(_e: FailedToReadError) -> (r: Self) {
        PipeError::FailedToReadError
    }
}

impl vstd::std_specs::convert::FromSpecImpl<FailedToReadError> for PipeError {
    open spec fn obeys_from_spec() -> bool {
        true
    }

    open spec fn from_spec(e: FailedToReadError) -> Self {
        PipeError::FailedToReadError
    }
}

impl From<FailedToWriteError> for PipeError {
    fn from(_e: FailedToWriteError) -> (r: Self) {
        PipeError::FailedToWriteError
    }
}

impl vstd::std_specs::convert::FromSpecImpl<FailedToWriteError> for PipeError {
    open spec fn obeys_from_spec() -> bool {
        true
    }

    open spec fn from_spec(e: FailedToWriteError) -> Self {
        PipeError::FailedToWriteError
    }
}

impl From<FailedToGetMetadataError> for PipeError {
    fn from(_e: FailedToGetMetadataError) -> (r: Self) {
        PipeError::FailedToGetMetadataError
    }
}

impl vstd::std_specs::convert::FromSpecImpl<FailedToGetMetadataError> for PipeError {
    open spec fn obeys_from_spec() -> bool {
        true
    }

    open spec fn from_spec(e: FailedToGetMetadataError) -> Self {
        PipeError::FailedToGetMetadataError
    }
}

impl From<NotFIFOError> for PipeError {
    fn from(_e: NotFIFOError) -> (r: Self) {
        PipeError::NotFIFOError
    }
}

impl vstd::std_specs::convert::FromSpecImpl<NotFIFOError> for PipeError {
    open spec fn obeys_from_spec() -> bool {
        true
    }

    open spec fn from_spec(e: NotFIFOError) -> Self {
        PipeError::NotFIFOError
    }
}

impl From<InvalidNameError> for PipeError {
    fn from(_e: InvalidNameError) -> (r: Self) {
        PipeError::InvalidNameError
    }
}

impl vstd::std_specs::convert::FromSpecImpl<InvalidNameError> for PipeError {
    open spec fn obeys_from_spec() -> bool {
        true
    }

    open spec fn from_spec(e: InvalidNameError) -> Self {
        PipeError::InvalidNameError
    }
}

impl From<FailedToCreateError> for PipeError {
    fn from(_e: FailedToCreateError) -> (r: Self) {
        PipeError::FailedToCreateError
    }
}

impl vstd::std_specs::convert::FromSpecImpl<FailedToCreateError> for PipeError {
    open spec fn obeys_from_spec() -> bool {
        true
    }

    open spec fn from_spec(e: FailedToCreateError) -> Self {
        PipeError::FailedToCreateError
    }
}

impl From<FailedToRemoveError> for PipeError {
    fn from(_e: FailedToRemoveError) -> (r: Self) {
        PipeError::FailedToRemoveError
    }
}

impl vstd::std_specs::convert::FromSpecImpl<FailedToRemoveError> for PipeError {
    open spec fn obeys_from_spec() -> bool {
        true
    }

    open spec fn from_spec(e: FailedToRemoveError) -> Self {
        PipeError::FailedToRemoveError
    }
}

impl From<FailedToReadError> for StdStreamError {
    fn from(_e: FailedToReadError) -> (r: Self) {
        StdStreamError::FailedToReadError
    }
}

impl vstd::std_specs::convert::FromSpecImpl<FailedToReadError> for StdStreamError {
    open spec fn obeys_from_spec() -> bool {
        true
    }

    open spec fn from_spec(e: FailedToReadError) -> Self {
        StdStreamError::FailedToReadError
    }
}

impl From<FailedToWriteError> for StdStreamError {
    fn from(_e: FailedToWriteError) -> (r: Self) {
        StdStreamError::FailedToWriteError
    }
}

impl vstd::std_specs::convert::FromSpecImpl<FailedToWriteError> for StdStreamError {
    open spec fn obeys_from_spec() -> bool {
        true
    }

    open spec fn from_spec(e: FailedToWriteError) -> Self {
        StdStreamError::FailedToWriteError
    }
}

/// What a path's state means for a pipe: absent means "no pipe yet", a
/// FIFO means "pipe ready", anything else, or unreadable metadata, is an
/// error.
pub open spec fn fifo_status(exists: bool, is_fifo: Option<bool>) -> Result<bool, PipeError> {
    if !exists {
        Ok(false)
    } else {
        match is_fifo {
            Some(true) => Ok(true),
            Some(false) => Err(PipeError::NotFIFOError),
            None => Err(PipeError::FailedToGetMetadataError),
        }
    }
}

/// Whether a usable pipe is already at a path, given whether the path
/// exists and, when its metadata could be read, whether it is a FIFO.
pub fn fifo_pipe_available(exists: bool, is_fifo: Option<bool>) -> (r: Result<bool, PipeError>)
    ensures
        r == fifo_status(exists, is_fifo),
        r == Ok::<bool, PipeError>(false) <==> !exists,
        r == Ok::<bool, PipeError>(true) <==> exists && is_fifo == Some(true),
        r == Err::<bool, PipeError>(PipeError::NotFIFOError) <==> exists && is_fifo == Some(false),
        r == Err::<bool, PipeError>(PipeError::FailedToGetMetadataError) <==> exists && is_fifo
            is None,
{
    if exists {
        match is_fifo {
            Some(fifo) => {
                if fifo {
                    return Ok(true);
                } else {
                    return Err(PipeError::NotFIFOError);
                }
            },
            None => return Err(PipeError::FailedToGetMetadataError),
        }
    }
    Ok(false)
}

/// Whether `name` holds a NUL character, which no path may hold.
pub fn has_nul(name: &str) -> (r: bool)
    ensures
        r == name@.contains('\0'),
{
    broadcast use vstd::string::group_string_axioms;

    let mut found = false;
    for c in it: name.chars()
        invariant
            it.seq() == name@,
            found <==> (exists|k: int| 0 <= k < it.index() && #[trigger] name@[k] == '\0'),
    {
        if c == '\0' {
            found = true;
        }
    }
    found
}

/// The step that creating a pipe takes after looking at its path.
#[derive(Debug, PartialEq, Eq)]
pub enum CreateStep {
    /// Nothing more to do: this is the outcome.
    Done(Result<(), PipeError>),
    /// Make the FIFO now.
    MakeFifo,
}

/// What creating a pipe named `name` does, given what was found at its path.
pub open spec fn create_step_spec(name: Seq<char>, available: Result<bool, PipeError>) -> CreateStep {
    match available {
        Err(e) => CreateStep::Done(Err(e)),
        Ok(true) => CreateStep::Done(Ok(())),
        Ok(false) => if name.contains('\0') {
            CreateStep::Done(Err(PipeError::InvalidNameError))
        } else {
            CreateStep::MakeFifo
        },
    }
}

/// Decides how creating the pipe `name` goes on: an existing FIFO is
/// kept, a lookup error is passed on, a name holding NUL is refused, and
/// otherwise the FIFO is to be made.
pub fn create_step(name: &str, available: Result<bool, PipeError>) -> (step: CreateStep)
    ensures
        step == create_step_spec(name@, available),
        available == Ok::<bool, PipeError>(false) ==> (step == CreateStep::MakeFifo <==> forall|i: int|
            0 <= i < name@.len() ==> name@[i] != '\0'),
{
    match available {
        Err(e) => CreateStep::Done(Err(e)),
        Ok(true) => CreateStep::Done(Ok(())),
        Ok(false) => {
            if has_nul(name) {
                CreateStep::Done(Err(PipeError::InvalidNameError))
            } else {
                CreateStep::MakeFifo
            }
        },
    }
}

/// A pipe that is already there is kept: when its path holds a FIFO,
/// creating the pipe finishes at once, successfully, and makes nothing.
/// (That a successful creation leaves a FIFO at the path is the file
/// system's part, which the library cannot see.)
pub proof fn lemma_existing_fifo_reused(name: Seq<char>)
    ensures
        create_step_spec(name, fifo_status(true, Some(true))) == CreateStep::Done(Ok(())),
{
}

/// What creating a pipe does, by what was found at its path: a lookup
/// error is passed on, a FIFO already there is kept, and on a free path the
/// pipe is refused as an invalid name exactly when the name holds a NUL
/// character (which no path may hold) and is made otherwise.
pub proof fn lemma_create_step_cases(name: Seq<char>, available: Result<bool, PipeError>)
    ensures
        available matches Err(e) ==> create_step_spec(name, available) == CreateStep::Done(Err(e)),
        available == Ok::<bool, PipeError>(true) ==> create_step_spec(name, available)
            == CreateStep::Done(Ok(())),
        available == Ok::<bool, PipeError>(false) ==> (create_step_spec(name, available)
            == CreateStep::MakeFifo <==> forall|i: int| 0 <= i < name.len() ==> name[i] != '\0'),
        available == Ok::<bool, PipeError>(false) && (exists|i: int|
            0 <= i < name.len() && name[i] == '\0') ==> create_step_spec(name, available)
            == CreateStep::Done(Err(PipeError::InvalidNameError)),
{
    if available == Ok::<bool, PipeError>(false) {
        if !name.contains('\0') {
            assert forall|i: int| 0 <= i < name.len() implies name[i] != '\0' by {
                if name[i] == '\0' {
                    assert(name.contains('\0'));
                }
            }
        }
    }
}

/// The outcome of making a FIFO, given the call's return value and whether
/// its error was "already exists": success, or a pipe that another process
/// made meanwhile, both count as created.
pub fn make_fifo_outcome(ret: i32, already_exists: bool) -> (r: Result<(), PipeError>)
    ensures
        r == (if ret == 0 || already_exists {
            Ok::<(), PipeError>(())
        } else {
            Err(PipeError::FailedToCreateError)
        }),
{
    if ret == 0 {
        Ok(())
    } else if already_exists {
        Ok(())
    } else {
        Err(PipeError::FailedToCreateError)
    }
}

/// Where a link reads from or writes to.
#[derive(Debug, Clone, PartialEq, Eq)]
pub enum Endpoint {
    /// The process's own standard stream.
    Std,
    /// The file (or pipe) at this path.
    File(String),
}

/// Which endpoint a link reads from: `stdin` names standard input, any
/// other name a file.
pub fn input_endpoint(iname: &str) -> (e: Endpoint)
    ensures
        iname@ == "stdin"@ ==> e == Endpoint::Std,
        iname@ != "stdin"@ ==> (e matches Endpoint::File(p) && p@ == iname@),
{
    let name = iname.to_owned();
    if name == "stdin".to_owned() {
        Endpoint::Std
    } else {
        Endpoint::File(name)
    }
}

/// Which endpoint a link writes to: `stdout` names standard output, any
/// other name a file.
pub fn output_endpoint(oname: &str) -> (e: Endpoint)
    ensures
        oname@ == "stdout"@ ==> e == Endpoint::Std,
        oname@ != "stdout"@ ==> (e matches Endpoint::File(p) && p@ == oname@),
{
    let name = oname.to_owned();
    if name == "stdout".to_owned() {
        Endpoint::Std
    } else {
        Endpoint::File(name)
    }
}

} // verus!
