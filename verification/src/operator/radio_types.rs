//! The payload shape that every stored message can be read as.
use vstd::prelude::*;
use crate::message_types::{GraphcastMessage, MessageError};

verus! {

/// A payload reduced to what all kinds share: an identifier and its content.
#[derive(Debug, PartialEq, Eq)]
pub struct RadioPayloadMessage {
    pub identifier: String,
    pub content: String,
}

/// Mathematical value of a [`RadioPayloadMessage`].
pub struct RadioPayloadView {
    pub identifier: Seq<char>,
    pub content: Seq<char>,
}

impl View for RadioPayloadMessage {
    type V = RadioPayloadView;

    open spec fn view(&self) -> RadioPayloadView {
        RadioPayloadView { identifier: self.identifier@, content: self.content@ }
    }
}

impl Clone for RadioPayloadMessage {
    fn clone(&self) -> (r: Self)
        ensures
            r == *self,
    {
        RadioPayloadMessage { identifier: self.identifier.clone(), content: self.content.clone() }
    }
}

impl RadioPayloadMessage {
    pub fn new(identifier: String, content: String) -> (r: Self)
        ensures
            r.identifier == identifier,
            r.content == content,
    {
        RadioPayloadMessage { identifier, content }
    }

    pub fn payload_content(&self) -> (r: String)
        ensures
            r == self.content,
    {
        self.content.clone()
    }

    /// Checks the field that this payload shares with `outer`: the identifier.
    pub fn valid_outer(&self, outer: &GraphcastMessage) -> (r: Result<&Self, MessageError>)
        ensures
            r is Ok <==> self.identifier@ == outer.identifier@,
            r is Ok ==> r->Ok_0 == self,
            r is Err ==> r->Err_0 == (MessageError::InvalidFields {
                nonce_matches: true,
                account_matches: true,
                identifier_matches: false,
            }),
    {
        if self.identifier == outer.identifier {
            Ok(self)
        } else {
            Err(
                MessageError::InvalidFields {
                    nonce_matches: true,
                    account_matches: true,
                    identifier_matches: false,
                },
            )
        }
    }
}

} // verus!
