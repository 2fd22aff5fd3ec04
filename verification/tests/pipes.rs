use alice::pipes::{
    create_step, fifo_pipe_available, has_nul, input_endpoint, make_fifo_outcome,
    output_endpoint, CreateStep, Endpoint, FailedToCreateError, FailedToGetMetadataError,
    FailedToReadError, FailedToRemoveError, FailedToWriteError, InvalidNameError, NotFIFOError,
    PipeError, PipeNotFoundError, StdStreamError,
};

#[test]
fn pipe_error_messages() {
    assert_eq!(PipeError::PipeNotFoundError.message(), "Pipe not found.");
    assert_eq!(PipeError::FailedToReadError.message(), "Failed to read from pipe.");
    assert_eq!(PipeError::FailedToWriteError.message(), "Failed to write to pipe.");
    assert_eq!(PipeError::FailedToGetMetadataError.message(), "Failed to get metadata for pipe.");
    assert_eq!(PipeError::NotFIFOError.message(), "Pipe is not a FIFO.");
    assert_eq!(PipeError::InvalidNameError.message(), "Invalid pipe name.");
    assert_eq!(PipeError::FailedToCreateError.message(), "Failed to create pipe.");
    assert_eq!(PipeError::FailedToRemoveError.message(), "Failed to remove pipe.");
}

#[test]
fn std_stream_error_messages() {
    assert_eq!(StdStreamError::FailedToReadError.message(), "Failed to read from stdin.");
    assert_eq!(StdStreamError::FailedToWriteError.message(), "Failed to write to stdout.");
}

#[test]
fn marker_errors_convert() {
    assert_eq!(PipeError::from(PipeNotFoundError), PipeError::PipeNotFoundError);
    assert_eq!(PipeError::from(FailedToReadError), PipeError::FailedToReadError);
    assert_eq!(PipeError::from(FailedToWriteError), PipeError::FailedToWriteError);
    assert_eq!(PipeError::from(FailedToGetMetadataError), PipeError::FailedToGetMetadataError);
    assert_eq!(PipeError::from(NotFIFOError), PipeError::NotFIFOError);
    assert_eq!(PipeError::from(InvalidNameError), PipeError::InvalidNameError);
    assert_eq!(PipeError::from(FailedToCreateError), PipeError::FailedToCreateError);
    assert_eq!(PipeError::from(FailedToRemoveError), PipeError::FailedToRemoveError);
    assert_eq!(StdStreamError::from(FailedToReadError), StdStreamError::FailedToReadError);
    assert_eq!(StdStreamError::from(FailedToWriteError), StdStreamError::FailedToWriteError);
}

#[test]
fn path_states() {
    assert_eq!(fifo_pipe_available(false, None), Ok(false));
    assert_eq!(fifo_pipe_available(false, Some(true)), Ok(false));
    assert_eq!(fifo_pipe_available(true, Some(true)), Ok(true));
    assert_eq!(fifo_pipe_available(true, Some(false)), Err(PipeError::NotFIFOError));
    assert_eq!(fifo_pipe_available(true, None), Err(PipeError::FailedToGetMetadataError));
}

#[test]
fn creation_steps() {
    assert_eq!(create_step("p", Ok(true)), CreateStep::Done(Ok(())));
    assert_eq!(create_step("p", Ok(false)), CreateStep::MakeFifo);
    assert_eq!(create_step("p\0q", Ok(false)), CreateStep::Done(Err(PipeError::InvalidNameError)));
    assert_eq!(
        create_step("p", Err(PipeError::NotFIFOError)),
        CreateStep::Done(Err(PipeError::NotFIFOError))
    );
    assert!(has_nul("\0"));
    assert!(!has_nul("alice_in"));
}

#[test]
fn fifo_outcomes() {
    assert_eq!(make_fifo_outcome(0, false), Ok(()));
    assert_eq!(make_fifo_outcome(-1, true), Ok(()));
    assert_eq!(make_fifo_outcome(-1, false), Err(PipeError::FailedToCreateError));
}

#[test]
fn link_endpoints() {
    assert_eq!(input_endpoint("stdin"), Endpoint::Std);
    assert_eq!(input_endpoint("alice_out"), Endpoint::File("alice_out".to_string()));
    assert_eq!(input_endpoint("stdout"), Endpoint::File("stdout".to_string()));
    assert_eq!(output_endpoint("stdout"), Endpoint::Std);
    assert_eq!(output_endpoint("alice_in"), Endpoint::File("alice_in".to_string()));
}

#[test]
fn existing_fifo_is_reused() {
    let available = fifo_pipe_available(true, Some(true));
    assert_eq!(create_step("alice_in", available), CreateStep::Done(Ok(())));
}
