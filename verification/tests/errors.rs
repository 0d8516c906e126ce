use aviator5g::error::ErrorKind;
use aviator5g::{error_chain_fmt, ServerError};

#[test]
fn an_error_without_causes_is_its_message_and_an_empty_line() {
    assert_eq!(error_chain_fmt("boom", &vec![]), "boom\n\n");
    assert_eq!(error_chain_fmt("", &vec![]), "\n\n");
}

#[test]
fn causes_follow_outermost_first() {
    let causes = vec!["the disk is full".to_string(), "no space left".to_string()];
    assert_eq!(
        error_chain_fmt("could not save", &causes),
        "could not save\n\nCaused by:\n\tthe disk is full\nCaused by:\n\tno space left\n"
    );
}

#[test]
fn the_protocol_errors_have_fixed_words() {
    assert_eq!(ServerError::NotIdentifiedError.message(), "Client is not identified");
    assert_eq!(ServerError::NotIdentifiedError.kind(), ErrorKind::NotIdentified);
    assert_eq!(ServerError::NotIdentifiedError.describe(), "Client is not identified\n\n");
    assert_eq!(
        ServerError::AlreadyIdentifiedError.message(),
        "Client has already been identified"
    );
    assert_eq!(ServerError::AlreadyIdentifiedError.kind(), ErrorKind::AlreadyIdentified);
    let malformed = ServerError::MalformedControlMessageError("missing field `type`".to_string());
    assert_eq!(malformed.message(), "The control message is malformed: missing field `type`");
    assert_eq!(malformed.kind(), ErrorKind::Malformed);
    assert_eq!(
        malformed.describe(),
        "The control message is malformed: missing field `type`\n\n"
    );
}

#[test]
fn a_transport_error_is_announced_as_one() {
    let error = ServerError::from(tungstenite::Error::ConnectionClosed);
    assert_eq!(error.kind(), ErrorKind::Transport);
    assert!(matches!(error, ServerError::ConnectionError(tungstenite::Error::ConnectionClosed)));
    assert_eq!(
        error.message(),
        format!(
            "An error occurred while handling the connection: {}",
            tungstenite::Error::ConnectionClosed
        )
    );
    assert_eq!(error.describe(), format!("{}\n\n", error.message()));
}

#[test]
fn an_unexpected_error_brings_its_causes() {
    let inner = anyhow::Error::msg("the socket is gone").context("could not forward");
    let error = ServerError::from(inner);
    assert_eq!(error.kind(), ErrorKind::Unexpected);
    assert_eq!(error.message(), "could not forward");
    assert_eq!(error.describe(), "could not forward\n\nCaused by:\n\tthe socket is gone\n");
}

#[test]
fn the_causes_come_outermost_first_and_without_the_error_itself() {
    let error = ServerError::from(
        anyhow::Error::msg("the disk is full").context("could not write").context("could not save"),
    );
    assert_eq!(error.message(), "could not save");
    assert_eq!(
        error.describe(),
        "could not save\n\nCaused by:\n\tcould not write\nCaused by:\n\tthe disk is full\n"
    );
    let alone = ServerError::from(anyhow::Error::msg("alone"));
    assert_eq!(alone.message(), "alone");
    assert_eq!(alone.describe(), "alone\n\n");
}
