//! What the control plane reads of recorded transactions.

use crate::controlApi::repeatControl::{LocationView, ReplayLocation};
use crate::text::copyText;
use vstd::prelude::*;

verus! {

/// The protocols of recorded transactions.
#[derive(Clone, Copy, Debug, PartialEq, Eq, Structural)]
pub enum TransactionProtocol {
    Http,
    Https,
    Ws,
    Wss,
    Tunnel,
    Socks,
}

/// The scheme under which a transaction's location is matched; a tunnel counts as secure HTTP.
pub open spec fn protocolScheme(protocol: TransactionProtocol) -> Seq<char> {
    match protocol {
        TransactionProtocol::Http => "http"@,
        TransactionProtocol::Https => "https"@,
        TransactionProtocol::Ws => "ws"@,
        TransactionProtocol::Wss => "wss"@,
        TransactionProtocol::Tunnel => "https"@,
        TransactionProtocol::Socks => "socks"@,
    }
}

impl TransactionProtocol {
    /// The scheme under which a transaction's location is matched.
    pub fn scheme(&self) -> (result: &'static str)
        ensures
            result@ == protocolScheme(*self),
    {
        match self {
            TransactionProtocol::Http => "http",
            TransactionProtocol::Https => "https",
            TransactionProtocol::Ws => "ws",
            TransactionProtocol::Wss => "wss",
            TransactionProtocol::Tunnel => "https",
            TransactionProtocol::Socks => "socks",
        }
    }
}

/// Where a recorded transaction went.
#[derive(Debug)]
pub struct TransactionAddress {
    pub protocol: TransactionProtocol,
    pub host: String,
    pub port: u16,
    pub path: String,
    pub query: String,
    pub urlDisplay: String,
}

/// The location under which a recorded transaction is matched.
pub fn transactionLocation(transaction: &TransactionAddress) -> (result: ReplayLocation)
    ensures
        result@ == (LocationView {
            protocol: protocolScheme(transaction.protocol),
            host: transaction.host@,
            port: transaction.port,
            path: transaction.path@,
            query: transaction.query@,
            display: transaction.urlDisplay@,
        }),
{
    ReplayLocation {
        protocol: copyText(transaction.protocol.scheme()),
        host: copyText(transaction.host.as_str()),
        port: transaction.port,
        path: copyText(transaction.path.as_str()),
        query: copyText(transaction.query.as_str()),
        display: copyText(transaction.urlDisplay.as_str()),
    }
}

/// A transaction is named by the scheme of its protocol; a tunnel carries traffic of the secure web.
pub proof fn lawProtocolHasItsScheme(protocol: TransactionProtocol)
    ensures
        protocol is Http <==> protocolScheme(protocol) == "http"@,
        protocol is Https || protocol is Tunnel <==> protocolScheme(protocol) == "https"@,
        protocol is Ws <==> protocolScheme(protocol) == "ws"@,
        protocol is Wss <==> protocolScheme(protocol) == "wss"@,
        protocol is Socks <==> protocolScheme(protocol) == "socks"@,
{
    reveal_strlit("http");
    reveal_strlit("https");
    reveal_strlit("ws");
    reveal_strlit("wss");
    reveal_strlit("socks");
    assert("http"@.len() == 4 && "https"@.len() == 5 && "ws"@.len() == 2 && "wss"@.len() == 3
        && "https"@[0] == 'h' && "socks"@[0] == 's');
}

} // verus!
