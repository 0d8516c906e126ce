//! Errors of the broker, and how an error is written out with its causes.

use vstd::prelude::*;

verus! {

#[verifier::external_type_specification]
#[verifier::external_body]
pub struct ExTransportError(tungstenite::Error);

#[verifier::external_type_specification]
#[verifier::external_body]
pub struct ExUnexpectedError(anyhow::Error);

/// Why the broker gives up on a connection.
#[derive(Debug)]
pub enum ServerError {
    /// The transport failed: handshake, send or receive.
    ConnectionError(tungstenite::Error),
    /// A text frame did not decode; the string says why.
    MalformedControlMessageError(String),
    /// Anything but an identification arrived on an unidentified connection.
    NotIdentifiedError,
    /// A second identification arrived on the same connection.
    AlreadyIdentifiedError,
    /// Any other failure.
    UnexpectedError(anyhow::Error),
}

/// The kind of a `ServerError`, without what it carries.
#[derive(Clone, Copy, Debug, PartialEq, Eq, Structural)]
pub enum ErrorKind {
    Transport,
    Malformed,
    NotIdentified,
    AlreadyIdentified,
    Unexpected,
}

impl From<tungstenite::Error> for ServerError {
    fn from(e: tungstenite::Error) -> (error: ServerError) {
        ServerError::ConnectionError(e)
    }
}

impl vstd::std_specs::convert::FromSpecImpl<tungstenite::Error> for ServerError {
    open spec fn obeys_from_spec() -> bool {
        true
    }

    open spec fn from_spec(e: tungstenite::Error) -> ServerError {
        ServerError::ConnectionError(e)
    }
}

impl From<anyhow::Error> for ServerError {
    fn from(e: anyhow::Error) -> (error: ServerError) {
        ServerError::UnexpectedError(e)
    }
}

impl vstd::std_specs::convert::FromSpecImpl<anyhow::Error> for ServerError {
    open spec fn obeys_from_spec() -> bool {
        true
    }

    open spec fn from_spec(e: anyhow::Error) -> ServerError {
        ServerError::UnexpectedError(e)
    }
}

/// What `tungstenite` says of a transport error, through `to_string`. The
/// text belongs to the outside crate; nothing is claimed of it.
#[verifier::external_body]
fn transport_error_text(error: &tungstenite::Error) -> (text: String) {
    error.to_string()
}

/// What `anyhow` says of an error, through `to_string`. Nothing is claimed of
/// the text.
#[verifier::external_body]
fn unexpected_error_text(error: &anyhow::Error) -> (text: String) {
    error.to_string()
}

/// What `anyhow::Error::chain` yields for an error, each item through
/// `to_string`: the error itself first, then the causes behind it, outermost
/// first. Nothing is claimed of them.
#[verifier::external_body]
fn unexpected_error_chain(error: &anyhow::Error) -> (chain: Vec<String>) {
    error.chain().map(|link| link.to_string()).collect()
}

/// The causes of `causes` written out, each as a line `Caused by:` followed
/// by the cause on a line of its own behind a tab.
pub open spec fn cause_lines(causes: Seq<Seq<char>>) -> Seq<char>
    decreases causes.len(),
{
    if causes.len() == 0 {
        Seq::empty()
    } else {
        cause_lines(causes.drop_last()) + "Caused by:\n\t"@ + causes.last() + "\n"@
    }
}

/// An error written out with its causes: the message and an empty line, then
/// the causes.
pub open spec fn chain_text(message: Seq<char>, causes: Seq<Seq<char>>) -> Seq<char> {
    message + "\n\n"@ + cause_lines(causes)
}

/// The views of `texts`, in order.
pub open spec fn text_views(texts: Seq<String>) -> Seq<Seq<char>> {
    texts.map_values(|text: String| text@)
}

/// Whether `text` is an error written out with its causes: `chain_text` of
/// some message and some causes.
pub open spec fn is_chain_text(text: Seq<char>) -> bool {
    exists|message: Seq<char>, causes: Seq<Seq<char>>| text == #[trigger] chain_text(message, causes)
}

/// Whether `text` is a transport error written out: `chain_text` of a
/// message that begins with the words that announce a transport error, and
/// of no causes.
pub open spec fn is_transport_text(text: Seq<char>) -> bool {
    exists|message: Seq<char>|
        "An error occurred while handling the connection: "@.is_prefix_of(message) && text
            == #[trigger] chain_text(message, Seq::empty())
}

/// Writes out an error with the chain of causes behind it, outermost first.
pub fn error_chain_fmt(message: &str, causes: &Vec<String>) -> (text: String)
    ensures
        text@ == chain_text(message@, text_views(causes@)),
{
    let mut text = message.to_owned();
    text.append("\n\n");
    let ghost views = text_views(causes@);
    let mut i: usize = 0;
    while i < causes.len()
        invariant
            i <= causes@.len(),
            views == text_views(causes@),
            text@ == message@ + "\n\n"@ + cause_lines(views.take(i as int)),
        decreases causes@.len() - i,
    {
        text.append("Caused by:\n\t");
        text.append(causes[i].as_str());
        text.append("\n");
        proof {
            let next = views.take(i + 1);
            assert(next.drop_last() == views.take(i as int));
            assert(next.last() == causes@[i as int]@);
            assert(text@ == message@ + "\n\n"@ + (cause_lines(views.take(i as int))
                + "Caused by:\n\t"@ + next.last() + "\n"@));
        }
        i += 1;
    }
    assert(views.take(i as int) == views);
    text
}

impl ServerError {
    /// What the error says, for the four kinds whose words are fixed here.
    /// A transport error is announced by its prefix, followed by the words of
    /// the transport; an unexpected error speaks for itself.
    pub open spec fn fixed_message(&self) -> Option<Seq<char>> {
        match self {
            ServerError::ConnectionError(_) => None,
            ServerError::MalformedControlMessageError(cause) => Some(
                "The control message is malformed: "@ + cause@,
            ),
            ServerError::NotIdentifiedError => Some("Client is not identified"@),
            ServerError::AlreadyIdentifiedError => Some("Client has already been identified"@),
            ServerError::UnexpectedError(_) => None,
        }
    }

    /// The error in words.
    pub fn message(&self) -> (text: String)
        ensures
            self.fixed_message() matches Some(fixed) ==> text@ == fixed,
            self is ConnectionError ==> "An error occurred while handling the connection: "@.is_prefix_of(
                text@,
            ),
    {
        match self {
            ServerError::ConnectionError(error) => {
                let mut text = "An error occurred while handling the connection: ".to_owned();
                let ghost prefix = text@;
                let detail = transport_error_text(error);
                text.append(detail.as_str());
                assert(text@.subrange(0, prefix.len() as int) == prefix);
                text
            },
            ServerError::MalformedControlMessageError(cause) => {
                let mut text = "The control message is malformed: ".to_owned();
                text.append(cause.as_str());
                text
            },
            ServerError::NotIdentifiedError => "Client is not identified".to_owned(),
            ServerError::AlreadyIdentifiedError => "Client has already been identified".to_owned(),
            ServerError::UnexpectedError(error) => unexpected_error_text(error),
        }
    }

    /// The error written out with its causes, as `error_chain_fmt` writes it.
    /// Only an unexpected error has causes: what stands behind it in its
    /// chain.
    pub fn describe(&self) -> (text: String)
        ensures
            is_chain_text(text@),
            self.fixed_message() matches Some(fixed) ==> text@ == chain_text(fixed, Seq::empty()),
            self is ConnectionError ==> is_transport_text(text@),
    {
        let mut causes = match self {
            ServerError::UnexpectedError(error) => unexpected_error_chain(error),
            _ => Vec::new(),
        };
        if causes.len() > 0 {
            let _head = causes.remove(0);
        }
        let message = self.message();
        let text = error_chain_fmt(message.as_str(), &causes);
        proof {
            if !(self is UnexpectedError) {
                assert(text_views(causes@) == Seq::<Seq<char>>::empty());
            }
            assert(text@ == chain_text(message@, text_views(causes@)));
        }
        text
    }

    pub open spec fn spec_kind(&self) -> ErrorKind {
        match self {
            ServerError::ConnectionError(_) => ErrorKind::Transport,
            ServerError::MalformedControlMessageError(_) => ErrorKind::Malformed,
            ServerError::NotIdentifiedError => ErrorKind::NotIdentified,
            ServerError::AlreadyIdentifiedError => ErrorKind::AlreadyIdentified,
            ServerError::UnexpectedError(_) => ErrorKind::Unexpected,
        }
    }

    #[verifier::when_used_as_spec(spec_kind)]
    pub fn kind(&self) -> (kind: ErrorKind)
        ensures
            kind == self.spec_kind(),
    {
        match self {
            ServerError::ConnectionError(_) => ErrorKind::Transport,
            ServerError::MalformedControlMessageError(_) => ErrorKind::Malformed,
            ServerError::NotIdentifiedError => ErrorKind::NotIdentified,
            ServerError::AlreadyIdentifiedError => ErrorKind::AlreadyIdentified,
            ServerError::UnexpectedError(_) => ErrorKind::Unexpected,
        }
    }
}

} // verus!
