//! The envelope that answers every proxied call: the upstream document, or a
//! structured error.

use crate::json::{
    is_flat_object, json_document, lemma_escape_plain, lemma_string_literal_is_well_formed,
    members_text, object_text, push_string_literal, reencode, string_literal,
};
use crate::text::{decimal, lemma_decimal_digits, push_decimal};
use vstd::prelude::*;
use vstd::string::StringExecFns;

verus! {

/// How an outbound call ended, as the transport reports it.
#[derive(Debug, PartialEq, Eq)]
pub enum TransportOutcome {
    /// No response arrived; `details` says why.
    Failed { details: String },
    /// A response arrived, with this status and these body bytes.
    Responded { status: u16, body: Vec<u8> },
    /// A response arrived with this status, but its body could not be read
    /// to the end.
    Truncated { status: u16 },
}

/// A `TransportOutcome` as a mathematical value.
pub enum OutcomeView {
    Failed { details: Seq<char> },
    Responded { status: u16, body: Seq<u8> },
    Truncated { status: u16 },
}

impl View for TransportOutcome {
    type V = OutcomeView;

    open spec fn view(&self) -> OutcomeView {
        match self {
            TransportOutcome::Failed { details } => OutcomeView::Failed { details: details@ },
            TransportOutcome::Responded { status, body } => OutcomeView::Responded {
                status: *status,
                body: body@,
            },
            TransportOutcome::Truncated { status } => OutcomeView::Truncated { status: *status },
        }
    }
}

/// The answer to one proxied call.
#[derive(Debug, PartialEq, Eq)]
pub enum ResponseEnvelope {
    /// The upstream answered with this status and a JSON document;
    /// `document` is its compact text.
    Success { status: u16, document: String },
    /// The outbound call failed in transport.
    RequestError { details: String },
    /// The upstream answered with this status and a body that is not JSON.
    ParseError { status: u16 },
    /// The requested path names no URL; no call was made.
    InvalidUrl,
    /// The request body to forward is not JSON; no call was made.
    InvalidBody,
}

/// A `ResponseEnvelope` as a mathematical value.
pub enum EnvelopeView {
    Success { status: u16, document: Seq<char> },
    RequestError { details: Seq<char> },
    ParseError { status: u16 },
    InvalidUrl,
    InvalidBody,
}

impl View for ResponseEnvelope {
    type V = EnvelopeView;

    open spec fn view(&self) -> EnvelopeView {
        match self {
            ResponseEnvelope::Success { status, document } => EnvelopeView::Success {
                status: *status,
                document: document@,
            },
            ResponseEnvelope::RequestError { details } => EnvelopeView::RequestError {
                details: details@,
            },
            ResponseEnvelope::ParseError { status } => EnvelopeView::ParseError { status: *status },
            ResponseEnvelope::InvalidUrl => EnvelopeView::InvalidUrl,
            ResponseEnvelope::InvalidBody => EnvelopeView::InvalidBody,
        }
    }
}

/// The envelope for a response with status `status` whose body decoded to
/// `document`, or to nothing.
pub open spec fn decoded_envelope(status: u16, document: Option<Seq<char>>) -> EnvelopeView {
    match document {
        Some(text) => EnvelopeView::Success { status, document: text },
        None => EnvelopeView::ParseError { status },
    }
}

/// The envelope that an outcome is answered with.
pub open spec fn envelope_of(outcome: OutcomeView) -> EnvelopeView {
    match outcome {
        OutcomeView::Failed { details } => EnvelopeView::RequestError { details },
        OutcomeView::Responded { status, body } => decoded_envelope(status, json_document(body)),
        OutcomeView::Truncated { status } => EnvelopeView::ParseError { status },
    }
}

/// The JSON text that an envelope is sent as.
pub open spec fn body_of(envelope: EnvelopeView) -> Seq<char> {
    match envelope {
        EnvelopeView::Success { document, .. } => document,
        EnvelopeView::RequestError { details } => "{\"error\":\"request_error\",\"details\":"@
            + string_literal(details) + "}"@,
        EnvelopeView::ParseError { status } => "{\"error\":\"parse_error\",\"status\":"@ + decimal(
            status as nat,
        ) + "}"@,
        EnvelopeView::InvalidUrl => "{\"error\":\"invalid_url\"}"@,
        EnvelopeView::InvalidBody => "{\"error\":\"invalid_body\"}"@,
    }
}

/// The HTTP status that an envelope is sent with: 200 for the upstream
/// document, whatever status the upstream gave it, 400 where the request
/// itself was at fault, 502 where the upstream was.
pub open spec fn status_of(envelope: EnvelopeView) -> u16 {
    match envelope {
        EnvelopeView::Success { .. } => 200,
        EnvelopeView::RequestError { .. } => 502,
        EnvelopeView::ParseError { .. } => 502,
        EnvelopeView::InvalidUrl => 400,
        EnvelopeView::InvalidBody => 400,
    }
}

/// The machine-readable kind of an error envelope; a success has none.
pub open spec fn kind_of(envelope: EnvelopeView) -> Option<Seq<char>> {
    match envelope {
        EnvelopeView::Success { .. } => None,
        EnvelopeView::RequestError { .. } => Some("request_error"@),
        EnvelopeView::ParseError { .. } => Some("parse_error"@),
        EnvelopeView::InvalidUrl => Some("invalid_url"@),
        EnvelopeView::InvalidBody => Some("invalid_body"@),
    }
}

impl ResponseEnvelope {
    /// Turns the outcome of an outbound call into its envelope: a transport
    /// failure becomes a request error with the cause, a response whose body
    /// is a JSON document becomes that document, and any other response,
    /// read to the end or not, becomes a parse error with the status that
    /// arrived.
    pub fn from_outcome(outcome: TransportOutcome) -> (envelope: Self)
        ensures
            envelope@ == envelope_of(outcome@),
    {
        match outcome {
            TransportOutcome::Failed { details } => ResponseEnvelope::RequestError { details },
            TransportOutcome::Responded { status, body } => {
                let document = reencode(body.as_slice());
                ResponseEnvelope::from_decoded(status, document)
            },
            TransportOutcome::Truncated { status } => ResponseEnvelope::ParseError { status },
        }
    }

    /// The envelope for a response that arrived with `status`, given what its
    /// body decoded to.
    pub fn from_decoded(status: u16, document: Option<String>) -> (envelope: Self)
        ensures
            envelope@ == decoded_envelope(
                status,
                match document {
                    Some(text) => Some(text@),
                    None => None,
                },
            ),
    {
        match document {
            Some(text) => ResponseEnvelope::Success { status, document: text },
            None => ResponseEnvelope::ParseError { status },
        }
    }

    /// Whether this is the upstream document and not an error.
    pub fn is_success(&self) -> (yes: bool)
        ensures
            yes == (self@ is Success),
    {
        match self {
            ResponseEnvelope::Success { .. } => true,
            _ => false,
        }
    }

    /// The machine-readable kind of the error, if this is one.
    pub fn error_kind(&self) -> (kind: Option<&'static str>)
        ensures
            match kind {
                Some(k) => kind_of(self@) == Some(k@),
                None => kind_of(self@) is None,
            },
    {
        match self {
            ResponseEnvelope::Success { .. } => None,
            ResponseEnvelope::RequestError { .. } => Some("request_error"),
            ResponseEnvelope::ParseError { .. } => Some("parse_error"),
            ResponseEnvelope::InvalidUrl => Some("invalid_url"),
            ResponseEnvelope::InvalidBody => Some("invalid_body"),
        }
    }

    /// The HTTP status to send the envelope with.
    pub fn status(&self) -> (code: u16)
        ensures
            code == status_of(self@),
    {
        match self {
            ResponseEnvelope::Success { .. } => 200,
            ResponseEnvelope::RequestError { .. } => 502,
            ResponseEnvelope::ParseError { .. } => 502,
            ResponseEnvelope::InvalidUrl => 400,
            ResponseEnvelope::InvalidBody => 400,
        }
    }

    /// The JSON text to send the envelope as.
    pub fn body(&self) -> (text: String)
        ensures
            text@ == body_of(self@),
    {
        match self {
            ResponseEnvelope::Success { document, .. } => document.clone(),
            ResponseEnvelope::RequestError { details } => {
                let mut text = String::from_str("{\"error\":\"request_error\",\"details\":");
                push_string_literal(&mut text, details.as_str());
                text.append("}");
                text
            },
            ResponseEnvelope::ParseError { status } => {
                let mut text = String::from_str("{\"error\":\"parse_error\",\"status\":");
                push_decimal(&mut text, *status);
                text.append("}");
                text
            },
            ResponseEnvelope::InvalidUrl => String::from_str("{\"error\":\"invalid_url\"}"),
            ResponseEnvelope::InvalidBody => String::from_str("{\"error\":\"invalid_body\"}"),
        }
    }
}

/// The members of the JSON object that an error envelope is sent as, each a
/// name and the text of its value; a success has none.
pub open spec fn error_members(envelope: EnvelopeView) -> Seq<(Seq<char>, Seq<char>)> {
    match envelope {
        EnvelopeView::Success { .. } => Seq::empty(),
        EnvelopeView::RequestError { details } => seq![
            ("error"@, string_literal("request_error"@)),
            ("details"@, string_literal(details)),
        ],
        EnvelopeView::ParseError { status } => seq![
            ("error"@, string_literal("parse_error"@)),
            ("status"@, decimal(status as nat)),
        ],
        EnvelopeView::InvalidUrl => seq![("error"@, string_literal("invalid_url"@))],
        EnvelopeView::InvalidBody => seq![("error"@, string_literal("invalid_body"@))],
    }
}

/// Every error envelope is sent as well-formed JSON: its body is the compact
/// text of an object whose first member is named `error` and holds the kind
/// of the error, whose members are those of `error_members` and no others,
/// and whose values are string or number literals.
pub proof fn lemma_error_body_is_json(envelope: EnvelopeView)
    requires
        !(envelope is Success),
    ensures
        is_flat_object(body_of(envelope), error_members(envelope)),
        error_members(envelope).len() >= 1,
        error_members(envelope)[0] == ("error"@, string_literal(kind_of(envelope)->0)),
{
    reveal_strlit("error");
    reveal_strlit("details");
    reveal_strlit("status");
    reveal_strlit("request_error");
    reveal_strlit("parse_error");
    reveal_strlit("invalid_url");
    reveal_strlit("invalid_body");
    reveal_strlit("{\"error\":\"request_error\",\"details\":");
    reveal_strlit("{\"error\":\"parse_error\",\"status\":");
    reveal_strlit("{\"error\":\"invalid_url\"}");
    reveal_strlit("{\"error\":\"invalid_body\"}");
    reveal_strlit("}");
    lemma_escape_plain("error"@);
    let members = error_members(envelope);
    match envelope {
        EnvelopeView::Success { .. } => {},
        EnvelopeView::RequestError { details } => {
            lemma_escape_plain("request_error"@);
            lemma_escape_plain("details"@);
            lemma_string_literal_is_well_formed("request_error"@);
            lemma_string_literal_is_well_formed(details);
            assert(members.drop_last() =~= seq![members[0]]);
            assert(members_text(members.drop_last()) == crate::json::member_text(members[0]));
            assert(body_of(envelope) =~= object_text(members));
        },
        EnvelopeView::ParseError { status } => {
            lemma_escape_plain("parse_error"@);
            lemma_escape_plain("status"@);
            lemma_string_literal_is_well_formed("parse_error"@);
            lemma_decimal_digits(status as nat);
            assert(members.drop_last() =~= seq![members[0]]);
            assert(members_text(members.drop_last()) == crate::json::member_text(members[0]));
            assert(body_of(envelope) =~= object_text(members));
        },
        EnvelopeView::InvalidUrl => {
            lemma_escape_plain("invalid_url"@);
            lemma_string_literal_is_well_formed("invalid_url"@);
            assert(body_of(envelope) =~= object_text(members));
        },
        EnvelopeView::InvalidBody => {
            lemma_escape_plain("invalid_body"@);
            lemma_string_literal_is_well_formed("invalid_body"@);
            assert(body_of(envelope) =~= object_text(members));
        },
    }
}

/// An envelope is sent with status 200 exactly when it is the upstream
/// document, and with a status outside 200 to 299 when it is an error.
pub proof fn lemma_status_tells_success(envelope: EnvelopeView)
    ensures
        envelope is Success <==> status_of(envelope) == 200,
        envelope is Success <==> 200 <= status_of(envelope) < 300,
{
}

} // verus!
