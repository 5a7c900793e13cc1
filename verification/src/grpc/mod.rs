//! The envelope that carries requests and answers between nodes and clients.
use crate::common::string_map::{copy_string_map, text_map, StringMap};
use vstd::prelude::*;
use vstd::string::*;

pub mod api_model;
pub mod handler;

verus! {

/// What a [`Payload`] is: a type tag, the sender's address, headers and a
/// body of bytes.
pub struct PayloadView {
    pub type_url: Seq<char>,
    pub client_ip: Seq<char>,
    pub headers: Map<Seq<char>, Seq<char>>,
    pub body: Seq<u8>,
}

/// A message on the wire.
pub struct Payload {
    pub type_url: String,
    pub client_ip: String,
    pub headers: StringMap,
    pub body: Vec<u8>,
}

impl View for Payload {
    type V = PayloadView;

    open spec fn view(&self) -> PayloadView {
        PayloadView {
            type_url: self.type_url@,
            client_ip: self.client_ip@,
            headers: text_map(self.headers@),
            body: self.body@,
        }
    }
}

impl Clone for Payload {
    fn clone(&self) -> (copy: Self)
        ensures
            copy@ == self@,
    {
        Payload {
            type_url: self.type_url.clone(),
            client_ip: self.client_ip.clone(),
            headers: copy_string_map(&self.headers),
            body: self.body.clone(),
        }
    }
}

/// Builders of payloads.
pub struct PayloadUtils {}

impl PayloadUtils {
    /// Frames `val` as the body of a message of type `url`, sent from
    /// `client_ip` with the given headers.
    pub fn build_full_payload(url: &str, val: String, client_ip: &str, headers: StringMap) -> (payload:
        Payload)
        ensures
            payload@ == (PayloadView {
                type_url: url@,
                client_ip: client_ip@,
                headers: text_map(headers@),
                body: vstd::utf8::encode_utf8(val@),
            }),
    {
        Payload {
            type_url: url.to_owned(),
            client_ip: client_ip.to_owned(),
            headers,
            body: val.as_str().as_bytes_vec(),
        }
    }

    /// Frames `val` as the body of a message of type `url`, with no sender
    /// address and no header.
    pub fn build_payload(url: &str, val: String) -> (payload: Payload)
        ensures
            payload@ == (PayloadView {
                type_url: url@,
                client_ip: Seq::<char>::empty(),
                headers: Map::<Seq<char>, Seq<char>>::empty(),
                body: vstd::utf8::encode_utf8(val@),
            }),
    {
        proof {
            reveal_strlit("");
        }
        let headers: StringMap = StringMap::new();
        assert(text_map(headers@) =~= Map::<Seq<char>, Seq<char>>::empty());
        assert(""@ =~= Seq::<char>::empty());
        PayloadUtils::build_full_payload(url, val, "", headers)
    }
}

/// What a request handler hands back to the transport.
pub struct HandlerResult {
    pub success: bool,
    pub payload: Payload,
    pub message: Option<String>,
}

impl HandlerResult {
    /// The result of a handler that produced `payload`.
    pub fn success(payload: Payload) -> (result: Self)
        ensures
            result.success,
            result.payload == payload,
            result.message is None,
    {
        HandlerResult { success: true, payload, message: None }
    }
}

} // verus!
