//! A client taking part in a session, and its identifier.
use crate::decimal::{
    decimal_text, lemma_decimal_text, lemma_parse_decimal_text, parse_usize, parse_usize_spec,
    usize_to_decimal,
};
use crate::text::copy_bytes;
use vstd::prelude::*;

verus! {

broadcast use vstd::string::group_string_axioms;

/// Why a textual identifier was refused.
#[derive(Debug, Clone, Copy, PartialEq, Eq, Structural)]
pub enum IdError {
    /// The text was empty.
    NoIdProvided,
    /// The text is not a valid number.
    InvalidNumericId,
}

impl IdError {
    /// The message of this error.
    pub fn message(&self) -> (r: String)
        ensures
            r@ == id_error_text(*self),
    {
        match self {
            IdError::NoIdProvided => String::from_str("No id provided"),
            IdError::InvalidNumericId => String::from_str("Invalid numeric ID"),
        }
    }
}

pub open spec fn id_error_text(e: IdError) -> Seq<char> {
    match e {
        IdError::NoIdProvided => "No id provided"@,
        IdError::InvalidNumericId => "Invalid numeric ID"@,
    }
}

/// The unique identifier of a client.
#[derive(Debug, Clone, Copy, PartialEq, Eq, Hash, Structural)]
pub struct ClientId(pub usize);

/// What parsing `s` as a client identifier gives.
pub open spec fn client_id_parse(s: Seq<char>) -> Result<ClientId, IdError> {
    if s.len() == 0 {
        Err(IdError::NoIdProvided)
    } else {
        match parse_usize_spec(s) {
            Some(n) => Ok(ClientId(n)),
            None => Err(IdError::InvalidNumericId),
        }
    }
}

impl ClientId {
    /// Parses a client identifier: empty text is refused with `NoIdProvided`,
    /// text that is not a `usize` with `InvalidNumericId`.
    pub fn from_str(id: &str) -> (r: Result<ClientId, IdError>)
        ensures
            r == client_id_parse(id@),
    {
        if id.unicode_len() == 0 {
            Err(IdError::NoIdProvided)
        } else {
            match parse_usize(id) {
                Some(n) => Ok(ClientId(n)),
                None => Err(IdError::InvalidNumericId),
            }
        }
    }

    /// The decimal text of this identifier.
    pub fn to_string(&self) -> (r: String)
        ensures
            r@ == decimal_text(self.0 as nat),
    {
        usize_to_decimal(self.0)
    }
}

/// Parsing the text of a client identifier gives the identifier back.
pub proof fn lemma_client_id_text_round_trip(id: ClientId)
    ensures
        client_id_parse(decimal_text(id.0 as nat)) == Ok::<ClientId, IdError>(id),
{
    lemma_decimal_text(id.0 as nat);
    lemma_parse_decimal_text(id.0);
}

/// A client in a session: its identifier, its key shares and its encrypted input.
#[derive(Debug, PartialEq)]
pub struct ClientEntity {
    /// Unique identifier of the client.
    pub id: ClientId,
    /// Public key share of the client.
    pub pk_share: Vec<u8>,
    /// Ring packing key share of the client.
    pub rp_key_share: Vec<u8>,
    /// Bootstrapping key share of the client; empty until it is sent.
    pub bs_key_share: Vec<u8>,
    /// Encrypted input of the client; empty until it is sent.
    pub encrypted_data: Vec<u8>,
}

/// The view of a client: its identifier and its byte fields.
pub struct ClientEntityView {
    pub id: usize,
    pub pk_share: Seq<u8>,
    pub rp_key_share: Seq<u8>,
    pub bs_key_share: Seq<u8>,
    pub encrypted_data: Seq<u8>,
}

impl View for ClientEntity {
    type V = ClientEntityView;

    open spec fn view(&self) -> ClientEntityView {
        ClientEntityView {
            id: self.id.0,
            pk_share: self.pk_share@,
            rp_key_share: self.rp_key_share@,
            bs_key_share: self.bs_key_share@,
            encrypted_data: self.encrypted_data@,
        }
    }
}

impl ClientEntity {
    /// A client with the given identifier and key shares, whose bootstrapping key
    /// share and encrypted data are still empty.
    pub fn new(id: ClientId, pk_share: Vec<u8>, rp_key_share: Vec<u8>) -> (r: Self)
        ensures
            r@ == (ClientEntityView {
                id: id.0,
                pk_share: pk_share@,
                rp_key_share: rp_key_share@,
                bs_key_share: Seq::empty(),
                encrypted_data: Seq::empty(),
            }),
    {
        Self { id, pk_share, rp_key_share, bs_key_share: Vec::new(), encrypted_data: Vec::new() }
    }
}

impl Clone for ClientEntity {
    fn clone(&self) -> (r: Self)
        ensures
            r@ == self@,
    {
        ClientEntity {
            id: self.id,
            pk_share: copy_bytes(&self.pk_share),
            rp_key_share: copy_bytes(&self.rp_key_share),
            bs_key_share: copy_bytes(&self.bs_key_share),
            encrypted_data: copy_bytes(&self.encrypted_data),
        }
    }
}

} // verus!
