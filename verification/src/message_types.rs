//! Typed payloads carried over the gossip network, the envelope that wraps them,
//! and the consistency check between a payload and its envelope.
use vstd::prelude::*;
use vstd::string::StringExecFns;

verus! {

/// Why a payload and the envelope around it do not belong together.
#[derive(Debug, PartialEq, Eq)]
pub enum MessageError {
    /// A field that the payload repeats differs from the envelope's. Each flag
    /// tells whether that field agreed; a field the payload does not carry counts
    /// as agreeing.
    InvalidFields { nonce_matches: bool, account_matches: bool, identifier_matches: bool },
}

/// The word for a check that passed or failed.
pub open spec fn check_word(passed: bool) -> Seq<char> {
    if passed {
        "true"@
    } else {
        "false"@
    }
}

impl MessageError {
    /// The error as text: what went wrong, then one line for each shared
    /// field that says whether it agreed.
    pub open spec fn spec_message(self) -> Seq<char> {
        match self {
            MessageError::InvalidFields { nonce_matches, account_matches, identifier_matches } => {
                "Radio message wrapped by inconsistent GraphcastMessage\nnonce check: "@
                    + check_word(nonce_matches) + "\naccount check: "@ + check_word(
                    account_matches,
                ) + "\nidentifier check: "@ + check_word(identifier_matches)
            },
        }
    }

    /// The error as text.
    pub fn message(&self) -> (r: String)
        ensures
            r@ == self.spec_message(),
    {
        match self {
            MessageError::InvalidFields { nonce_matches, account_matches, identifier_matches } => {
                let mut text = String::from_str(
                    "Radio message wrapped by inconsistent GraphcastMessage\nnonce check: ",
                );
                text.append(check_text(*nonce_matches));
                text.append("\naccount check: ");
                text.append(check_text(*account_matches));
                text.append("\nidentifier check: ");
                text.append(check_text(*identifier_matches));
                text
            },
        }
    }
}

/// The word for a check that passed or failed.
fn check_text(passed: bool) -> (r: &'static str)
    ensures
        r@ == check_word(passed),
{
    if passed {
        "true"
    } else {
        "false"
    }
}

/// A public proof of indexing for one subgraph deployment at one block.
#[derive(Debug, PartialEq, Eq)]
pub struct PublicPoiMessage {
    pub identifier: String,
    pub content: String,
    pub nonce: u64,
    pub network: String,
    pub block_number: u64,
    pub block_hash: String,
    pub graph_account: String,
}

/// Mathematical value of a [`PublicPoiMessage`].
pub struct PublicPoiView {
    pub identifier: Seq<char>,
    pub content: Seq<char>,
    pub nonce: u64,
    pub network: Seq<char>,
    pub block_number: u64,
    pub block_hash: Seq<char>,
    pub graph_account: Seq<char>,
}

impl View for PublicPoiMessage {
    type V = PublicPoiView;

    open spec fn view(&self) -> PublicPoiView {
        PublicPoiView {
            identifier: self.identifier@,
            content: self.content@,
            nonce: self.nonce,
            network: self.network@,
            block_number: self.block_number,
            block_hash: self.block_hash@,
            graph_account: self.graph_account@,
        }
    }
}

impl Clone for PublicPoiMessage {
    fn clone(&self) -> (r: Self)
        ensures
            r == *self,
    {
        PublicPoiMessage {
            identifier: self.identifier.clone(),
            content: self.content.clone(),
            nonce: self.nonce,
            network: self.network.clone(),
            block_number: self.block_number,
            block_hash: self.block_hash.clone(),
            graph_account: self.graph_account.clone(),
        }
    }
}

/// The smallest payload: an identifier and free-form content.
#[derive(Debug, PartialEq, Eq)]
pub struct SimpleMessage {
    pub identifier: String,
    pub content: String,
}

/// Mathematical value of a [`SimpleMessage`].
pub struct SimpleView {
    pub identifier: Seq<char>,
    pub content: Seq<char>,
}

impl View for SimpleMessage {
    type V = SimpleView;

    open spec fn view(&self) -> SimpleView {
        SimpleView { identifier: self.identifier@, content: self.content@ }
    }
}

impl Clone for SimpleMessage {
    fn clone(&self) -> (r: Self)
        ensures
            r == *self,
    {
        SimpleMessage { identifier: self.identifier.clone(), content: self.content.clone() }
    }
}

/// An owner's announcement that a subgraph moves to a new deployment.
#[derive(Debug, PartialEq, Eq)]
pub struct UpgradeIntentMessage {
    /// current subgraph deployment hash
    pub deployment: String,
    /// subgraph id shared by both versions of the subgraph deployment
    pub subgraph_id: String,
    /// deployment hash of the new version
    pub new_hash: String,
    pub nonce: u64,
    /// sender, expected to be the subgraph owner
    pub graph_account: String,
}

/// Mathematical value of an [`UpgradeIntentMessage`].
pub struct UpgradeIntentView {
    pub deployment: Seq<char>,
    pub subgraph_id: Seq<char>,
    pub new_hash: Seq<char>,
    pub nonce: u64,
    pub graph_account: Seq<char>,
}

impl View for UpgradeIntentMessage {
    type V = UpgradeIntentView;

    open spec fn view(&self) -> UpgradeIntentView {
        UpgradeIntentView {
            deployment: self.deployment@,
            subgraph_id: self.subgraph_id@,
            new_hash: self.new_hash@,
            nonce: self.nonce,
            graph_account: self.graph_account@,
        }
    }
}

impl Clone for UpgradeIntentMessage {
    fn clone(&self) -> (r: Self)
        ensures
            r == *self,
    {
        UpgradeIntentMessage {
            deployment: self.deployment.clone(),
            subgraph_id: self.subgraph_id.clone(),
            new_hash: self.new_hash.clone(),
            nonce: self.nonce,
            graph_account: self.graph_account.clone(),
        }
    }
}

/// The typed body of an envelope.
#[derive(Debug, PartialEq, Eq)]
pub enum Payload {
    PublicPoi(PublicPoiMessage),
    UpgradeIntent(UpgradeIntentMessage),
    Simple(SimpleMessage),
}

/// Mathematical value of a [`Payload`].
pub enum PayloadView {
    PublicPoi(PublicPoiView),
    UpgradeIntent(UpgradeIntentView),
    Simple(SimpleView),
}

impl View for Payload {
    type V = PayloadView;

    open spec fn view(&self) -> PayloadView {
        match self {
            Payload::PublicPoi(m) => PayloadView::PublicPoi(m@),
            Payload::UpgradeIntent(m) => PayloadView::UpgradeIntent(m@),
            Payload::Simple(m) => PayloadView::Simple(m@),
        }
    }
}

impl Clone for Payload {
    fn clone(&self) -> (r: Self)
        ensures
            r == *self,
    {
        match self {
            Payload::PublicPoi(m) => Payload::PublicPoi(m.clone()),
            Payload::UpgradeIntent(m) => Payload::UpgradeIntent(m.clone()),
            Payload::Simple(m) => Payload::Simple(m.clone()),
        }
    }
}

/// The signed outer record that the transport validates and delivers.
#[derive(Debug, PartialEq, Eq)]
pub struct GraphcastMessage {
    /// topic identifier, typically a subgraph deployment hash
    pub identifier: String,
    pub payload: Payload,
    /// per-sender time hint, in seconds since the epoch
    pub nonce: u64,
    /// the sender's on-chain account
    pub graph_account: String,
    pub signature: String,
}

/// Mathematical value of a [`GraphcastMessage`].
pub struct GraphcastMessageView {
    pub identifier: Seq<char>,
    pub payload: PayloadView,
    pub nonce: u64,
    pub graph_account: Seq<char>,
    pub signature: Seq<char>,
}

impl View for GraphcastMessage {
    type V = GraphcastMessageView;

    open spec fn view(&self) -> GraphcastMessageView {
        GraphcastMessageView {
            identifier: self.identifier@,
            payload: self.payload@,
            nonce: self.nonce,
            graph_account: self.graph_account@,
            signature: self.signature@,
        }
    }
}

impl Clone for GraphcastMessage {
    fn clone(&self) -> (r: Self)
        ensures
            r == *self,
    {
        GraphcastMessage {
            identifier: self.identifier.clone(),
            payload: self.payload.clone(),
            nonce: self.nonce,
            graph_account: self.graph_account.clone(),
            signature: self.signature.clone(),
        }
    }
}

impl PublicPoiView {
    /// The payload repeats the envelope's nonce, sender and identifier.
    pub open spec fn agrees_with(self, outer: GraphcastMessageView) -> bool {
        &&& self.nonce == outer.nonce
        &&& self.graph_account == outer.graph_account
        &&& self.identifier == outer.identifier
    }
}

impl SimpleView {
    /// The payload repeats the envelope's identifier.
    pub open spec fn agrees_with(self, outer: GraphcastMessageView) -> bool {
        self.identifier == outer.identifier
    }
}

impl UpgradeIntentView {
    /// The payload repeats the envelope's nonce and sender.
    pub open spec fn agrees_with(self, outer: GraphcastMessageView) -> bool {
        &&& self.nonce == outer.nonce
        &&& self.graph_account == outer.graph_account
    }
}

impl PayloadView {
    /// The nonce that the payload carries; 0 where it carries none.
    pub open spec fn spec_nonce(self) -> u64 {
        match self {
            PayloadView::PublicPoi(m) => m.nonce,
            PayloadView::UpgradeIntent(m) => m.nonce,
            PayloadView::Simple(_) => 0,
        }
    }

    /// The sender that the payload carries; empty where it carries none.
    pub open spec fn spec_account(self) -> Seq<char> {
        match self {
            PayloadView::PublicPoi(m) => m.graph_account,
            PayloadView::UpgradeIntent(m) => m.graph_account,
            PayloadView::Simple(_) => Seq::empty(),
        }
    }

    /// The fields that the payload repeats equal the envelope's.
    pub open spec fn agrees_with(self, outer: GraphcastMessageView) -> bool {
        match self {
            PayloadView::PublicPoi(m) => m.agrees_with(outer),
            PayloadView::UpgradeIntent(m) => m.agrees_with(outer),
            PayloadView::Simple(m) => m.agrees_with(outer),
        }
    }
}

impl GraphcastMessageView {
    /// The envelope and the payload it carries agree on every field they share.
    pub open spec fn consistent(self) -> bool {
        self.payload.agrees_with(self)
    }
}

impl PublicPoiMessage {
    /// Checks the fields that this payload shares with `outer`: nonce, sender
    /// and identifier must all be equal.
    pub fn valid_outer(&self, outer: &GraphcastMessage) -> (r: Result<&Self, MessageError>)
        ensures
            r is Ok <==> self@.agrees_with(outer@),
            r is Ok ==> r->Ok_0 == self,
            r is Err ==> r->Err_0 == (MessageError::InvalidFields {
                nonce_matches: self.nonce == outer.nonce,
                account_matches: self.graph_account@ == outer.graph_account@,
                identifier_matches: self.identifier@ == outer.identifier@,
            }),
    {
        let nonce_matches = self.nonce == outer.nonce;
        let account_matches = self.graph_account == outer.graph_account;
        let identifier_matches = self.identifier == outer.identifier;
        if nonce_matches && account_matches && identifier_matches {
            Ok(self)
        } else {
            Err(MessageError::InvalidFields { nonce_matches, account_matches, identifier_matches })
        }
    }
}

impl SimpleMessage {
    /// Checks the field that this payload shares with `outer`: the identifier.
    pub fn valid_outer(&self, outer: &GraphcastMessage) -> (r: Result<&Self, MessageError>)
        ensures
            r is Ok <==> self@.agrees_with(outer@),
            r is Ok ==> r->Ok_0 == self,
            r is Err ==> r->Err_0 == (MessageError::InvalidFields {
                nonce_matches: true,
                account_matches: true,
                identifier_matches: false,
            }),
    {
        if self.identifier == outer.identifier {
            Ok(self)
        } else {
            Err(
                MessageError::InvalidFields {
                    nonce_matches: true,
                    account_matches: true,
                    identifier_matches: false,
                },
            )
        }
    }
}

impl UpgradeIntentMessage {
    /// Checks the fields that this payload shares with `outer`: nonce and sender.
    pub fn valid_outer(&self, outer: &GraphcastMessage) -> (r: Result<&Self, MessageError>)
        ensures
            r is Ok <==> self@.agrees_with(outer@),
            r is Ok ==> r->Ok_0 == self,
            r is Err ==> r->Err_0 == (MessageError::InvalidFields {
                nonce_matches: self.nonce == outer.nonce,
                account_matches: self.graph_account@ == outer.graph_account@,
                identifier_matches: true,
            }),
    {
        let nonce_matches = self.nonce == outer.nonce;
        let account_matches = self.graph_account == outer.graph_account;
        if nonce_matches && account_matches {
            Ok(self)
        } else {
            Err(MessageError::InvalidFields { nonce_matches, account_matches, identifier_matches: true })
        }
    }
}

impl GraphcastMessage {
    /// Checks the payload against this envelope, whichever kind it is. The
    /// error tells for each shared field whether it agreed.
    pub fn valid_payload(&self) -> (r: Result<(), MessageError>)
        ensures
            r is Ok <==> self@.consistent(),
            r is Err ==> r->Err_0 == (MessageError::InvalidFields {
                nonce_matches: self.payload is Simple || self@.payload.spec_nonce() == self.nonce,
                account_matches: self.payload is Simple || self@.payload.spec_account()
                    == self.graph_account@,
                identifier_matches: match self@.payload {
                    PayloadView::PublicPoi(m) => m.identifier == self.identifier@,
                    PayloadView::UpgradeIntent(_) => true,
                    PayloadView::Simple(_) => false,
                },
            }),
    {
        match &self.payload {
            Payload::PublicPoi(m) => match m.valid_outer(self) {
                Ok(_) => Ok(()),
                Err(e) => Err(e),
            },
            Payload::UpgradeIntent(m) => match m.valid_outer(self) {
                Ok(_) => Ok(()),
                Err(e) => Err(e),
            },
            Payload::Simple(m) => match m.valid_outer(self) {
                Ok(_) => Ok(()),
                Err(e) => Err(e),
            },
        }
    }
}

} // verus!
