//! A session: the clients that take part in one computation, its status and its
//! results.
use crate::entities::client::{ClientEntity, ClientEntityView};
use crate::errors::CoreError;
use crate::text::{byte_lists_view, copy_byte_lists, copy_bytes, str_eq};
use std::collections::HashMap;
use vstd::arithmetic::power::pow;
use vstd::prelude::*;

verus! {

broadcast use vstd::string::group_string_axioms;

/// The lowercase hexadecimal digit of `d`, for `0 <= d < 16`.
pub open spec fn hex_digit_char(d: int) -> char {
    if d < 10 {
        ('0' as int + d) as char
    } else {
        ('a' as int + (d - 10)) as char
    }
}

/// Hex digit `k` (`0 <= k < 32`) of a 128-bit value, most significant first.
pub open spec fn uuid_nibble(v: u128, k: int) -> int {
    (v as int / pow(16, (31 - k) as nat)) % 16
}

/// How many separating hyphens stand before position `j` of a hyphenated UUID.
pub open spec fn hyphens_before(j: int) -> int {
    if j < 8 {
        0
    } else if j < 13 {
        1
    } else if j < 18 {
        2
    } else if j < 23 {
        3
    } else {
        4
    }
}

/// The hyphenated lowercase text of a UUID, such as
/// `67e55044-10b1-426f-9247-bb680e5fe0c8`: 32 hex digits, most significant
/// first, with hyphens at positions 8, 13, 18 and 23.
pub open spec fn uuid_text(v: u128) -> Seq<char> {
    Seq::new(
        36,
        |j: int|
            if j == 8 || j == 13 || j == 18 || j == 23 {
                '-'
            } else {
                hex_digit_char(uuid_nibble(v, j - hyphens_before(j)))
            },
    )
}

pub open spec fn parsed_uuid(v: u128) -> Result<u128, Seq<char>> {
    Ok(v)
}

pub open spec fn refused_uuid(m: Seq<char>) -> Result<u128, Seq<char>> {
    Err(m)
}

/// What the `uuid` crate's parser makes of a text: the 128-bit value of the
/// UUID, or the message of its error.
pub uninterp spec fn uuid_parse(s: Seq<char>) -> Result<u128, Seq<char>>;

/// Calls `uuid::Uuid::parse_str` and returns the UUID as a `u128`
/// (`Uuid::as_u128`) or the error's message.
///
/// Trusted: the result is `uuid_parse` of the text, and the parser accepts only
/// texts of 32, 36, 38 or 45 characters. Which of those it accepts, and its
/// error messages, are left to the name.
#[verifier::external_body]
fn parse_uuid(s: &str) -> (r: Result<u128, String>)
    ensures
        r is Ok ==> uuid_parse(s@) == parsed_uuid(r->Ok_0),
        r is Err ==> uuid_parse(s@) == refused_uuid(r->Err_0@),
        r is Ok ==> s@.len() == 32 || s@.len() == 36 || s@.len() == 38 || s@.len() == 45,
{
    match uuid::Uuid::parse_str(s) {
        Ok(u) => Ok(u.as_u128()),
        Err(e) => Err(e.to_string()),
    }
}

/// Calls `uuid::Uuid::from_u128` and the `Display` of `Uuid`.
///
/// Trusted: the text is the hyphenated lowercase form `uuid_text` of the value,
/// and `Uuid::parse_str` (named `uuid_parse`) reads that text back as the value.
#[verifier::external_body]
fn format_uuid(v: u128) -> (r: String)
    ensures
        r@ == uuid_text(v),
        uuid_parse(r@) == parsed_uuid(v),
{
    uuid::Uuid::from_u128(v).to_string()
}

/// The unique identifier of a session: a UUID, held as its 128-bit value.
#[derive(Debug, Clone, Copy, PartialEq, Eq, Hash, Structural)]
pub struct SessionId(pub u128);

impl SessionId {
    /// Parses a session identifier from the text of a UUID. A text that the
    /// UUID parser refuses gives `ParseIdError` with the parser's message.
    pub fn try_from(id: &str) -> (r: Result<SessionId, CoreError>)
        ensures
            match uuid_parse(id@) {
                Ok(v) => r matches Ok(s) && s == SessionId(v),
                Err(m) => r matches Err(CoreError::ParseIdError(e)) && e@ == m,
            },
            r is Ok ==> id@.len() == 32 || id@.len() == 36 || id@.len() == 38 || id@.len() == 45,
    {
        match parse_uuid(id) {
            Ok(v) => Ok(SessionId(v)),
            Err(m) => Err(CoreError::ParseIdError(m)),
        }
    }

    /// The hyphenated text of this identifier, which the UUID parser reads back
    /// as this identifier.
    pub fn to_string(&self) -> (r: String)
        ensures
            r@ == uuid_text(self.0),
            uuid_parse(r@) == parsed_uuid(self.0),
    {
        format_uuid(self.0)
    }

    /// Parses the text that `to_string` writes; this always gives back the
    /// identifier.
    pub fn parse_own_text(&self) -> (r: Result<SessionId, CoreError>)
        ensures
            r matches Ok(s) && s == *self,
    {
        let text = self.to_string();
        SessionId::try_from(text.as_str())
    }
}

/// The status of a session. A session waits for its clients to join, then for
/// their bootstrapping key shares, then for their inputs, and is then done.
#[derive(Debug, Clone, Copy, PartialEq, Eq, Structural)]
pub enum SessionStatus {
    WaitingForClients,
    WaitingForBootstrap,
    WaitingForArgument,
    Done,
}

/// The name of a status.
pub open spec fn status_text(s: SessionStatus) -> Seq<char> {
    match s {
        SessionStatus::WaitingForClients => "WaitingForClients"@,
        SessionStatus::WaitingForBootstrap => "WaitingForBootstrap"@,
        SessionStatus::WaitingForArgument => "WaitingForArgument"@,
        SessionStatus::Done => "Done"@,
    }
}

/// The status that a text names, or the message refusing it.
pub open spec fn status_parse(s: Seq<char>) -> Result<SessionStatus, Seq<char>> {
    if s == "WaitingForClients"@ {
        Ok(SessionStatus::WaitingForClients)
    } else if s == "WaitingForBootstrap"@ {
        Ok(SessionStatus::WaitingForBootstrap)
    } else if s == "WaitingForArgument"@ {
        Ok(SessionStatus::WaitingForArgument)
    } else if s == "Done"@ {
        Ok(SessionStatus::Done)
    } else {
        Err("'"@ + s + "' is not a valid status"@)
    }
}

/// The position of a status in the life of a session.
pub open spec fn status_rank(s: SessionStatus) -> int {
    match s {
        SessionStatus::WaitingForClients => 0,
        SessionStatus::WaitingForBootstrap => 1,
        SessionStatus::WaitingForArgument => 2,
        SessionStatus::Done => 3,
    }
}

impl SessionStatus {
    /// Parses a status from its name; any other text is refused with the
    /// message `'<text>' is not a valid status`.
    pub fn from_str(s: &str) -> (r: Result<SessionStatus, String>)
        ensures
            match status_parse(s@) {
                Ok(st) => r == Ok::<SessionStatus, String>(st),
                Err(m) => r matches Err(e) && e@ == m,
            },
    {
        if str_eq(s, "WaitingForClients") {
            Ok(SessionStatus::WaitingForClients)
        } else if str_eq(s, "WaitingForBootstrap") {
            Ok(SessionStatus::WaitingForBootstrap)
        } else if str_eq(s, "WaitingForArgument") {
            Ok(SessionStatus::WaitingForArgument)
        } else if str_eq(s, "Done") {
            Ok(SessionStatus::Done)
        } else {
            let mut m = String::from_str("'");
            m.append(s);
            m.append("' is not a valid status");
            Err(m)
        }
    }

    /// The name of this status.
    pub fn to_string(&self) -> (r: String)
        ensures
            r@ == status_text(*self),
    {
        match self {
            SessionStatus::WaitingForClients => String::from_str("WaitingForClients"),
            SessionStatus::WaitingForBootstrap => String::from_str("WaitingForBootstrap"),
            SessionStatus::WaitingForArgument => String::from_str("WaitingForArgument"),
            SessionStatus::Done => String::from_str("Done"),
        }
    }
}

/// Parsing the name of a status gives the status back, and distinct statuses
/// have distinct names.
pub proof fn lemma_status_text_round_trip(s: SessionStatus, t: SessionStatus)
    ensures
        status_parse(status_text(s)) == Ok::<SessionStatus, Seq<char>>(s),
        status_text(s) == status_text(t) ==> s == t,
{
    reveal_strlit("WaitingForClients");
    reveal_strlit("WaitingForBootstrap");
    reveal_strlit("WaitingForArgument");
    reveal_strlit("Done");
    assert("WaitingForClients"@.len() == 17);
    assert("WaitingForBootstrap"@.len() == 19);
    assert("WaitingForArgument"@.len() == 18);
    assert("Done"@.len() == 4);
}

/// A session: its identifier, status, clients (keyed by client identifier),
/// aggregated public key, encrypted results and the serialized state of its
/// homomorphic-encryption server.
#[derive(Debug)]
pub struct SessionEntity {
    /// Unique identifier of the session.
    pub id: SessionId,
    /// Current status of the session.
    pub status: SessionStatus,
    /// The clients of the session, keyed by their identifier.
    pub client_info: HashMap<usize, ClientEntity>,
    /// The aggregated public key, once every client has joined.
    pub pk: Vec<u8>,
    /// The encrypted results of the computation.
    pub encrypted_result: Vec<Vec<u8>>,
    /// The serialized state of the session's encryption server, when it has one.
    pub phantom_server: Option<Vec<u8>>,
}

/// The view of a session.
pub struct SessionEntityView {
    pub id: u128,
    pub status: SessionStatus,
    pub client_info: Map<usize, ClientEntityView>,
    pub pk: Seq<u8>,
    pub encrypted_result: Seq<Seq<u8>>,
    pub phantom_server: Option<Seq<u8>>,
}

pub open spec fn option_bytes_view(o: Option<Vec<u8>>) -> Option<Seq<u8>> {
    match o {
        Some(v) => Some(v@),
        None => None,
    }
}

pub open spec fn clients_view(m: Map<usize, ClientEntity>) -> Map<usize, ClientEntityView> {
    m.map_values(|c: ClientEntity| c@)
}

impl View for SessionEntity {
    type V = SessionEntityView;

    open spec fn view(&self) -> SessionEntityView {
        SessionEntityView {
            id: self.id.0,
            status: self.status,
            client_info: clients_view(self.client_info@),
            pk: self.pk@,
            encrypted_result: byte_lists_view(self.encrypted_result@),
            phantom_server: option_bytes_view(self.phantom_server),
        }
    }
}

impl SessionEntity {
    /// A new session waiting for its clients, with no client, no public key, no
    /// result, and the given serialized encryption server.
    pub fn new(id: SessionId, phantom_server: Vec<u8>) -> (r: Self)
        ensures
            r@ == (SessionEntityView {
                id: id.0,
                status: SessionStatus::WaitingForClients,
                client_info: Map::empty(),
                pk: Seq::empty(),
                encrypted_result: Seq::empty(),
                phantom_server: Some(phantom_server@),
            }),
    {
        let r = Self {
            id,
            status: SessionStatus::WaitingForClients,
            client_info: HashMap::new(),
            encrypted_result: Vec::new(),
            pk: Vec::new(),
            phantom_server: Some(phantom_server),
        };
        assert(clients_view(r.client_info@) =~= Map::empty());
        assert(byte_lists_view(r.encrypted_result@) =~= Seq::empty());
        r
    }
}

impl Clone for SessionEntity {
    fn clone(&self) -> (r: Self)
        ensures
            r@ == self@,
    {
        let phantom_server = match &self.phantom_server {
            Some(v) => Some(copy_bytes(v)),
            None => None,
        };
        SessionEntity {
            id: self.id,
            status: self.status,
            client_info: self.client_info.clone(),
            pk: copy_bytes(&self.pk),
            encrypted_result: copy_byte_lists(&self.encrypted_result),
            phantom_server,
        }
    }
}

} // verus!
