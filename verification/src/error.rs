//! Error types for the ExtProc server.

use tonic::transport::Error as TransportError;
use vstd::prelude::*;

verus! {

/// The transport error of `tonic` (`tonic::transport::Error`).
#[verifier::external_type_specification]
#[verifier::external_body]
pub struct ExTransportError(TransportError);

/// Errors produced during ExtProc operation.
#[derive(Debug)]
pub enum Error {
    /// Configuration loading or parsing failed.
    Config(String),
    /// Filter pipeline construction failed.
    Pipeline(String),
    /// gRPC transport error.
    Grpc(TransportError),
}

/// The message of an error with a text cause: its kind, a colon, a space
/// and the cause.
pub open spec fn error_message(kind: Seq<char>, cause: Seq<char>) -> Seq<char> {
    kind + ": "@ + cause
}

impl Error {
    /// Whether this is a configuration error with the given cause.
    pub open spec fn is_config(&self, cause: Seq<char>) -> bool {
        self matches Error::Config(m) && m@ == cause
    }

    /// The human-readable message of the error: `config: ...`,
    /// `pipeline: ...` or `grpc: ...`.
    pub fn message(&self) -> (r: String)
        ensures
            self matches Error::Config(m) ==> r@ == error_message("config"@, m@),
            self matches Error::Pipeline(m) ==> r@ == error_message("pipeline"@, m@),
            self matches Error::Grpc(e) ==> r@ == error_message("grpc"@, transport_error_description(*e))
                && is_transport_description(transport_error_description(*e)),
    {
        match self {
            Error::Config(m) => {
                let r = String::from_str("config: ").concat(m.as_str());
                proof {
                    reveal_strlit("config: ");
                    reveal_strlit("config");
                    reveal_strlit(": ");
                    assert(r@ =~= error_message("config"@, m@));
                }
                r
            },
            Error::Pipeline(m) => {
                let r = String::from_str("pipeline: ").concat(m.as_str());
                proof {
                    reveal_strlit("pipeline: ");
                    reveal_strlit("pipeline");
                    reveal_strlit(": ");
                    assert(r@ =~= error_message("pipeline"@, m@));
                }
                r
            },
            Error::Grpc(e) => {
                let text = transport_error_text(e);
                let r = String::from_str("grpc: ").concat(text.as_str());
                proof {
                    reveal_strlit("grpc: ");
                    reveal_strlit("grpc");
                    reveal_strlit(": ");
                    assert(r@ =~= error_message("grpc"@, text@));
                }
                r
            },
        }
    }
}

/// The text that `tonic::transport::Error`'s `Display` writes for `e`.
pub uninterp spec fn transport_error_description(e: TransportError) -> Seq<char>;

/// The texts that `tonic::transport::Error`'s `Display` can write, one per
/// kind of transport error.
pub open spec fn is_transport_description(t: Seq<char>) -> bool {
    ||| t == "transport error"@
    ||| t == "invalid URI"@
    ||| t == "user agent is not a valid header value"@
    ||| t == "cannot apply TLS config for unix domain socket"@
}

/// The text of a transport error, as `tonic::transport::Error`'s `Display`
/// writes it (`ToString::to_string`): the description of the error's kind,
/// one of four fixed texts, a function of the error alone.
#[verifier::external_body]
fn transport_error_text(e: &TransportError) -> (r: String)
    ensures
        r@ == transport_error_description(*e),
        is_transport_description(r@),
{
    e.to_string()
}

} // verus!
