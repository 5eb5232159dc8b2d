use frog::client::errors::AppError as ClientError;
use frog::errors::CoreError;
use frog::server::errors::AppError as ServerError;

#[test]
fn core_error_messages() {
    assert_eq!(CoreError::ParseIdError("bad".into()).to_string(), "Failed to parse ID: bad");
    assert_eq!(CoreError::NotFound.to_string(), "Resource not found");
    assert_eq!(CoreError::InternalError("x".into()).to_string(), "Internal error: x");
    assert_eq!(CoreError::UnexpectedResponse("y".into()).to_string(), "Unexpected response: y");
    assert_eq!(CoreError::ValidationFail("z".into()).to_string(), "Validation fails: z");
    assert_eq!(CoreError::WorkerError("w".into()).to_string(), "Worker error: w");
}

#[test]
fn server_error_answers() {
    let json = ServerError::JsonRejection { status: 422, body: "bad json".into() };
    assert_eq!(json.error_response(), (422, "bad json".to_string()));
    assert_eq!(ServerError::SessionError("full".into()).error_response(), (500, "full".to_string()));
    assert_eq!(ServerError::GraphileWorkerError("queue".into()).error_response(), (500, "queue".to_string()));
    assert_eq!(
        ServerError::CoreError(CoreError::NotFound).error_response(),
        (500, "Resource not found".to_string())
    );
    for hidden in [
        ServerError::IOError("disk".into()),
        ServerError::BincodeError("bytes".into()),
        ServerError::UnexpectedError("oops".into()),
    ] {
        assert_eq!(hidden.error_response(), (500, "An unexpected error occurred".to_string()));
    }
}

#[test]
fn client_error_answers() {
    let json = ClientError::JsonRejection { status: 400, body: "bad".into() };
    assert_eq!(json.error_response(), (400, "bad".to_string()));
    assert_eq!(
        ClientError::CoreError(CoreError::ParseIdError("p".into())).error_response(),
        (400, "Failed to parse ID: p".to_string())
    );
    assert_eq!(
        ClientError::CoreError(CoreError::ValidationFail("v".into())).error_response(),
        (400, "Validation fails: v".to_string())
    );
    assert_eq!(
        ClientError::CoreError(CoreError::NotFound).error_response(),
        (404, "Resource not found".to_string())
    );
    assert_eq!(
        ClientError::CoreError(CoreError::WorkerError("w".into())).error_response(),
        (500, "Worker error: w".to_string())
    );
    assert_eq!(ClientError::IOError("io".into()).error_response(), (500, "Something went wrong".to_string()));
    assert_eq!(ClientError::BincodeError("b".into()).error_response(), (500, "Something went wrong".to_string()));
}
