use vstd::prelude::*;

verus! {

/// A fixed-width overlay-network address. This persona only stores, compares
/// and echoes addresses, so a machine word stands for one.
pub type XorName = u64;

/// Identifier of one logical client operation, chosen by the originator and
/// globally unique per operation.
pub type MessageId = u64;

/// The sender or recipient of a network message, as far as this persona
/// needs to distinguish them.
#[derive(Clone, Copy, PartialEq, Eq, Structural, Debug)]
pub enum Authority {
    /// A client, reachable through its proxy node.
    Client { client_name: XorName, proxy_node_name: XorName },
    /// The group of nodes managing a client's account.
    ClientManager(XorName),
    /// The group of nodes managing a piece of content, addressed by the
    /// content's own name.
    NaeManager(XorName),
}

impl Authority {
    /// The address this authority is routed by.
    pub open spec fn spec_name(self) -> XorName {
        match self {
            Authority::Client { client_name, .. } => client_name,
            Authority::ClientManager(name) => name,
            Authority::NaeManager(name) => name,
        }
    }

    /// The address this authority is routed by.
    pub fn name(&self) -> (r: XorName)
        ensures
            r == self.spec_name(),
    {
        match self {
            Authority::Client { client_name, .. } => *client_name,
            Authority::ClientManager(name) => *name,
            Authority::NaeManager(name) => *name,
        }
    }
}

/// The payload of a put request, reduced to what account management reads:
/// the content's own address, and for structured content its type tag.
#[derive(Clone, Copy, PartialEq, Eq, Structural, Debug)]
pub enum Data {
    /// Content-addressed immutable content.
    Immutable { name: XorName },
    /// Mutable structured content with a type discriminator.
    Structured { name: XorName, type_tag: u64 },
    /// Any other content kind; reaching this persona with one is an upstream
    /// demuxing defect.
    Plain { name: XorName },
}

impl Data {
    /// The content address, which the forwarded put is routed by.
    pub open spec fn spec_name(self) -> XorName {
        match self {
            Data::Immutable { name } => name,
            Data::Structured { name, .. } => name,
            Data::Plain { name } => name,
        }
    }

    /// The content address, which the forwarded put is routed by.
    pub fn name(&self) -> (r: XorName)
        ensures
            r == self.spec_name(),
    {
        match self {
            Data::Immutable { name } => *name,
            Data::Structured { name, .. } => *name,
            Data::Plain { name } => *name,
        }
    }
}

/// The content of an inbound request handled by this persona.
#[derive(Clone, Copy, PartialEq, Eq, Structural, Debug)]
pub enum RequestContent {
    /// A write request for the carried payload, tagged with its operation
    /// identifier.
    Put(Data, MessageId),
}

/// A complete inbound request: where it came from, which authority of ours
/// it addresses, and what it asks for.
#[derive(Clone, Copy, PartialEq, Eq, Structural, Debug)]
pub struct RequestMessage {
    pub src: Authority,
    pub dst: Authority,
    pub content: RequestContent,
}

/// The answer the routing layer gives when asked whether this node is still
/// in the close group responsible for an address.
#[derive(Clone, Copy, PartialEq, Eq, Structural, Debug)]
pub enum MembershipVerdict {
    /// This node remains responsible for the address.
    StillResponsible,
    /// Responsibility has moved away from this node.
    NoLongerResponsible,
    /// The query itself failed; ownership cannot be confirmed.
    QueryFailed,
}

/// An outbound message this persona hands to the routing layer. Handlers
/// append these instead of sending; the surrounding node performs the sends.
#[derive(Clone, PartialEq, Eq, Debug)]
pub enum Action {
    /// Forward an accepted put toward the group managing the content.
    ForwardPut { src: Authority, dst: Authority, data: Data, message_id: MessageId },
    /// Report a completed put back to the client, with a digest of the
    /// original request.
    SendPutSuccess { src: Authority, dst: Authority, message_hash: Vec<u8>, message_id: MessageId },
    /// Report a failed put back to the client, echoing the original request
    /// and the encoded error.
    SendPutFailure {
        src: Authority,
        dst: Authority,
        request: RequestMessage,
        external_error_indicator: Vec<u8>,
        message_id: MessageId,
    },
    /// Broadcast an account snapshot to the close group sharing
    /// responsibility for the client.
    SendRefresh { src: Authority, serialised_refresh: Vec<u8> },
    /// Record of an anomaly for the operator's log: a forwarded put was
    /// registered under an identifier that still held a pending request,
    /// which it replaced.
    ReportDuplicateRegistration { message_id: MessageId, prior_request: RequestMessage },
}

} // verus!
