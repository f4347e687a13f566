//! Errors: those caused by a client's request, and those of the stores.
use vstd::prelude::*;
use vstd::string::*;
use crate::json::{json_quoted, json_string};

verus! {

/// An error caused by the client's use of the service, such as a search for
/// a field that does not exist.
#[derive(Debug)]
pub struct ClientError {
    pub name: String,
    pub msg: String,
}

/// An error of the search index or the aggregate store.
#[derive(Debug)]
pub enum StoreError {
    DbError(String),
    InitError(String),
    ClientError(ClientError),
}

/// The ways a search query can fail to parse.
#[derive(Debug)]
pub enum QueryErrorKind {
    SyntaxError,
    UnsupportedQuery,
    FieldDoesNotExist(String),
    ExpectedInt,
    ExpectedBase64,
    ExpectedFloat,
    ExpectedBool,
    AllButQueryForbidden,
    NoDefaultFieldDeclared,
    FieldNotIndexed(String),
    FieldDoesNotHavePositionsIndexed(String),
    PhrasePrefixRequiresAtLeastTwoTerms,
    UnknownTokenizer,
    RangeMustNotHavePhrase,
    DateFormatError,
    FacetFormatError,
    IpFormatError,
}

/// The name and message that a client sees for a query that failed to parse.
pub open spec fn query_error_text(e: QueryErrorKind) -> (Seq<char>, Seq<char>) {
    match e {
        QueryErrorKind::SyntaxError => (
            "Syntax Error"@,
            "There was a syntax error in the search string."@,
        ),
        QueryErrorKind::UnsupportedQuery => (
            "Unsupported query"@,
            "This kind of query is not supported."@,
        ),
        QueryErrorKind::FieldDoesNotExist(s) => (
            "Field does not Exist"@,
            "You searched for a field that does not exist:"@ + s@,
        ),
        QueryErrorKind::ExpectedInt => (
            "Expected Integer"@,
            "Search argument requires an integer."@,
        ),
        QueryErrorKind::ExpectedBase64 => (
            "Expected base64"@,
            "Search argument requires base64."@,
        ),
        QueryErrorKind::ExpectedFloat => ("Expected float"@, "Search argument requires a float."@),
        QueryErrorKind::ExpectedBool => (
            "Expected boolean"@,
            "Search argument requires true or false."@,
        ),
        QueryErrorKind::AllButQueryForbidden => (
            "All But query forbidden"@,
            "Queries that only exclude (eg. \"-king\") are forbidden."@,
        ),
        QueryErrorKind::NoDefaultFieldDeclared => (
            "No field declared"@,
            "You must specify a field to query."@,
        ),
        QueryErrorKind::FieldNotIndexed(s) => (
            "Field unknown"@,
            "The field you searched for is unknown:"@ + s@,
        ),
        QueryErrorKind::FieldDoesNotHavePositionsIndexed(s) => (
            "Field does not have positions indexed"@,
            "Field does not have positions indexed: "@ + s@,
        ),
        QueryErrorKind::PhrasePrefixRequiresAtLeastTwoTerms => (
            "Phrase prefix too short"@,
            "A phrase prefix query needs at least two terms."@,
        ),
        QueryErrorKind::UnknownTokenizer => (
            "Unknown Tokenizer"@,
            "The tokenizer for the given field is unknown"@,
        ),
        QueryErrorKind::RangeMustNotHavePhrase => (
            "Range must not have phrase"@,
            "Range must not have phrase"@,
        ),
        QueryErrorKind::DateFormatError => (
            "Date must have correct format"@,
            "Date must have correct format"@,
        ),
        QueryErrorKind::FacetFormatError => (
            "Facet must have correct format"@,
            "Facet must have correct format"@,
        ),
        QueryErrorKind::IpFormatError => (
            "IP address must have correct format"@,
            "IP address must have correct format"@,
        ),
    }
}

fn client_error(name: &str, msg: String) -> (r: ClientError)
    ensures
        r.name@ == name@,
        r.msg@ == msg@,
{
    ClientError { name: String::from_str(name), msg }
}

fn text_with(prefix: &str, s: &String) -> (r: String)
    ensures
        r@ == prefix@ + s@,
{
    let mut r = String::from_str(prefix);
    r.append(s.as_str());
    r
}

/// `{"name":"<name>","msg":"<msg>"}`.
pub open spec fn client_error_json(name: Seq<char>, msg: Seq<char>) -> Seq<char> {
    "{\"name\":"@ + json_quoted(name) + ",\"msg\":"@ + json_quoted(msg) + "}"@
}

/// `{"error":["<the error's JSON, as a string>"]}`.
pub open spec fn error_response_json(name: Seq<char>, msg: Seq<char>) -> Seq<char> {
    "{\"error\":["@ + json_quoted(client_error_json(name, msg)) + "]}"@
}

impl ClientError {
    pub fn new(name: &str, msg: &str) -> (r: ClientError)
        ensures
            r.name@ == name@,
            r.msg@ == msg@,
    {
        ClientError { name: String::from_str(name), msg: String::from_str(msg) }
    }

    /// The error for a search query that failed to parse.
    pub fn from_query_error(e: QueryErrorKind) -> (r: ClientError)
        ensures
            (r.name@, r.msg@) == query_error_text(e),
    {
        match e {
            QueryErrorKind::SyntaxError => client_error(
                "Syntax Error",
                String::from_str("There was a syntax error in the search string."),
            ),
            QueryErrorKind::UnsupportedQuery => client_error(
                "Unsupported query",
                String::from_str("This kind of query is not supported."),
            ),
            QueryErrorKind::FieldDoesNotExist(s) => client_error(
                "Field does not Exist",
                text_with("You searched for a field that does not exist:", &s),
            ),
            QueryErrorKind::ExpectedInt => client_error(
                "Expected Integer",
                String::from_str("Search argument requires an integer."),
            ),
            QueryErrorKind::ExpectedBase64 => client_error(
                "Expected base64",
                String::from_str("Search argument requires base64."),
            ),
            QueryErrorKind::ExpectedFloat => client_error(
                "Expected float",
                String::from_str("Search argument requires a float."),
            ),
            QueryErrorKind::ExpectedBool => client_error(
                "Expected boolean",
                String::from_str("Search argument requires true or false."),
            ),
            QueryErrorKind::AllButQueryForbidden => client_error(
                "All But query forbidden",
                String::from_str("Queries that only exclude (eg. \"-king\") are forbidden."),
            ),
            QueryErrorKind::NoDefaultFieldDeclared => client_error(
                "No field declared",
                String::from_str("You must specify a field to query."),
            ),
            QueryErrorKind::FieldNotIndexed(s) => client_error(
                "Field unknown",
                text_with("The field you searched for is unknown:", &s),
            ),
            QueryErrorKind::FieldDoesNotHavePositionsIndexed(s) => client_error(
                "Field does not have positions indexed",
                text_with("Field does not have positions indexed: ", &s),
            ),
            QueryErrorKind::PhrasePrefixRequiresAtLeastTwoTerms => client_error(
                "Phrase prefix too short",
                String::from_str("A phrase prefix query needs at least two terms."),
            ),
            QueryErrorKind::UnknownTokenizer => client_error(
                "Unknown Tokenizer",
                String::from_str("The tokenizer for the given field is unknown"),
            ),
            QueryErrorKind::RangeMustNotHavePhrase => client_error(
                "Range must not have phrase",
                String::from_str("Range must not have phrase"),
            ),
            QueryErrorKind::DateFormatError => client_error(
                "Date must have correct format",
                String::from_str("Date must have correct format"),
            ),
            QueryErrorKind::FacetFormatError => client_error(
                "Facet must have correct format",
                String::from_str("Facet must have correct format"),
            ),
            QueryErrorKind::IpFormatError => client_error(
                "IP address must have correct format",
                String::from_str("IP address must have correct format"),
            ),
        }
    }

    /// The error as a JSON object.
    pub fn to_json(&self) -> (r: String)
        ensures
            r@ == client_error_json(self.name@, self.msg@),
    {
        let mut r = String::from_str("{\"name\":");
        r.append(json_string(self.name.as_str()).as_str());
        r.append(",\"msg\":");
        r.append(json_string(self.msg.as_str()).as_str());
        r.append("}");
        r
    }

    /// The body of an error response: the error's JSON, as a string, in the
    /// `error` list.
    pub fn get_error_response_json(&self) -> (r: String)
        ensures
            r@ == error_response_json(self.name@, self.msg@),
    {
        let inner = self.to_json();
        let mut r = String::from_str("{\"error\":[");
        r.append(json_string(inner.as_str()).as_str());
        r.append("]}");
        r
    }

    /// `(<name>, <msg>)`.
    pub fn to_text(&self) -> (r: String)
        ensures
            r@ == "("@ + self.name@ + ", "@ + self.msg@ + ")"@,
    {
        let mut r = String::from_str("(");
        r.append(self.name.as_str());
        r.append(", ");
        r.append(self.msg.as_str());
        r.append(")");
        r
    }
}

impl StoreError {
    /// The store error for a client error.
    pub fn from_client(ce: ClientError) -> (r: StoreError)
        ensures
            r == StoreError::ClientError(ce),
    {
        StoreError::ClientError(ce)
    }

    /// The store error for a query that failed to parse: a client error.
    pub fn from_query_error(e: QueryErrorKind) -> (r: StoreError)
        ensures
            r matches StoreError::ClientError(ce) && (ce.name@, ce.msg@) == query_error_text(e),
    {
        StoreError::ClientError(ClientError::from_query_error(e))
    }

    /// The error for an index whose schema lacks a field that is needed.
    pub fn schema_mismatch(field_name: &str) -> (r: StoreError)
        ensures
            r matches StoreError::InitError(m) && m@ == "Mismatching schema - specified field "@
                + field_name@ + " does not exist in the schema of this index."@,
    {
        let mut m = String::from_str("Mismatching schema - specified field ");
        m.append(field_name);
        m.append(" does not exist in the schema of this index.");
        StoreError::InitError(m)
    }

    /// Whether the error is the client's doing.
    pub fn is_client_error(&self) -> (r: bool)
        ensures
            r == (self is ClientError),
    {
        matches!(self, StoreError::ClientError(_))
    }

    /// A description of the error.
    pub fn to_text(&self) -> (r: String)
        ensures
            r@ == match self {
                StoreError::DbError(m) => "Error with store:'"@ + m@ + "'"@,
                StoreError::InitError(m) => "Error initialising store:'"@ + m@ + "'"@,
                StoreError::ClientError(ce) => "Client Error: "@ + ("("@ + ce.name@ + ", "@ + ce.msg@
                    + ")"@),
            },
    {
        match self {
            StoreError::DbError(m) => {
                let mut r = String::from_str("Error with store:'");
                r.append(m.as_str());
                r.append("'");
                r
            },
            StoreError::InitError(m) => {
                let mut r = String::from_str("Error initialising store:'");
                r.append(m.as_str());
                r.append("'");
                r
            },
            StoreError::ClientError(ce) => {
                let mut r = String::from_str("Client Error: ");
                r.append(ce.to_text().as_str());
                r
            },
        }
    }
}

} // verus!
