//! Errors of BFD.

use vstd::prelude::*;

use crate::bfd::network::PacketInfo;
use crate::ip::IpAddr;
use crate::text::{join, owned};

verus! {

/// An error of the operating system: what it says, and what each error behind
/// it says.
pub struct SystemError {
    pub text: String,
    pub sources: Vec<String>,
}

/// BFD errors.
pub enum Error {
    // I/O errors
    IoError(IoError),
    // Inter-task communication
    SessionIdNotFound(u64),
    // Packet input
    UdpInvalidSourceAddr(IpAddr),
    UdpPacketDecodeError(SystemError),
    SessionNoMatch(PacketInfo, u32),
    InvalidFlags(u8),
    InvalidYourDiscriminator(u32),
    AuthError,
}

/// BFD I/O errors.
pub enum IoError {
    UdpSocketError(SystemError),
    UdpRecvError(SystemError),
    UdpSendError(SystemError),
    UdpRecvMissingSourceAddr,
    UdpRecvMissingAncillaryData,
}

impl From<IoError> for Error {
    fn from(error: IoError) -> (r: Error) {
        Error::IoError(error)
    }
}

impl vstd::std_specs::convert::FromSpecImpl<IoError> for Error {
    open spec fn obeys_from_spec() -> bool {
        true
    }

    open spec fn from_spec(error: IoError) -> Error {
        Error::IoError(error)
    }
}

/// An error, followed by those behind it, each in the brackets of the one
/// before.
pub open spec fn with_sources(text: Seq<char>, sources: Seq<String>) -> Seq<char>
    decreases sources.len(),
{
    if sources.len() == 0 {
        text
    } else {
        text + " ("@ + with_sources(sources[0]@, sources.skip(1)) + ")"@
    }
}

fn with_source(text: &String, sources: &Vec<String>, n: usize) -> (r: String)
    requires
        n <= sources@.len(),
    ensures
        r@ == with_sources(text@, sources@.skip(n as int)),
    decreases sources@.len() - n,
{
    if n == sources.len() {
        text.clone()
    } else {
        let rest = with_source(&sources[n], sources, n + 1);
        let mut r = join(text.as_str(), " (");
        r.append(rest.as_str());
        r.append(")");
        proof {
            assert(sources@.skip(n as int)[0] == sources@[n as int]);
            assert(sources@.skip(n as int).skip(1) =~= sources@.skip(n + 1));
        }
        r
    }
}

/// What else is logged with the message of an error.
pub enum Detail {
    SessionId(u64),
    Address(IpAddr),
    Error(String),
    Unmatched(PacketInfo, u32),
    Flags(u8),
    Discriminator(u32),
}

pub enum DetailView {
    SessionId(u64),
    Address(IpAddr),
    Error(Seq<char>),
    Unmatched(PacketInfo, u32),
    Flags(u8),
    Discriminator(u32),
}

impl View for Detail {
    type V = DetailView;

    open spec fn view(&self) -> DetailView {
        match *self {
            Detail::SessionId(id) => DetailView::SessionId(id),
            Detail::Address(addr) => DetailView::Address(addr),
            Detail::Error(text) => DetailView::Error(text@),
            Detail::Unmatched(info, discr) => DetailView::Unmatched(info, discr),
            Detail::Flags(flags) => DetailView::Flags(flags),
            Detail::Discriminator(discr) => DetailView::Discriminator(discr),
        }
    }
}

/// A warning.
pub struct LogRecord {
    pub message: String,
    pub detail: Option<Detail>,
}

pub open spec fn detail_view(d: Option<Detail>) -> Option<DetailView> {
    match d {
        Some(d) => Some(d@),
        None => None,
    }
}

impl SystemError {
    pub open spec fn full_text(self) -> Seq<char> {
        with_sources(self.text@, self.sources@)
    }

    /// What the error says, with what is behind it.
    pub fn describe(&self) -> (r: String)
        ensures
            r@ == self.full_text(),
    {
        let r = with_source(&self.text, &self.sources, 0);
        assert(self.sources@.skip(0) =~= self.sources@);
        r
    }
}

impl IoError {
    /// The text that describes the error.
    pub open spec fn text(self) -> Seq<char> {
        match self {
            IoError::UdpSocketError(_) => "failed to create UDP socket"@,
            IoError::UdpRecvError(_) => "failed to receive UDP packet"@,
            IoError::UdpSendError(_) => "failed to send UDP packet"@,
            IoError::UdpRecvMissingSourceAddr => "failed to retrieve source address from received packet"@,
            IoError::UdpRecvMissingAncillaryData => "failed to retrieve ancillary data from received packet"@,
        }
    }

    pub fn message(&self) -> (r: String)
        ensures
            r@ == self.text(),
    {
        match self {
            IoError::UdpSocketError(_) => owned("failed to create UDP socket"),
            IoError::UdpRecvError(_) => owned("failed to receive UDP packet"),
            IoError::UdpSendError(_) => owned("failed to send UDP packet"),
            IoError::UdpRecvMissingSourceAddr => owned("failed to retrieve source address from received packet"),
            IoError::UdpRecvMissingAncillaryData => owned("failed to retrieve ancillary data from received packet"),
        }
    }

    /// What is logged besides the message: the error behind this one.
    pub open spec fn detail(self) -> Option<DetailView> {
        match self {
            IoError::UdpSocketError(error) | IoError::UdpRecvError(error) | IoError::UdpSendError(error) => Some(
                DetailView::Error(error.full_text()),
            ),
            _ => None,
        }
    }

    /// The warning about the error.
    pub fn log(&self) -> (r: LogRecord)
        ensures
            r.message@ == self.text(),
            detail_view(r.detail) == self.detail(),
    {
        let detail = match self {
            IoError::UdpSocketError(error) => Some(Detail::Error(error.describe())),
            IoError::UdpRecvError(error) => Some(Detail::Error(error.describe())),
            IoError::UdpSendError(error) => Some(Detail::Error(error.describe())),
            _ => None,
        };
        LogRecord { message: self.message(), detail }
    }
}

impl Error {
    /// The text that describes the error.
    pub open spec fn text(self) -> Seq<char> {
        match self {
            Error::IoError(error) => error.text(),
            Error::SessionIdNotFound(_) => "session ID not found"@,
            Error::UdpInvalidSourceAddr(_) => "invalid source address"@,
            Error::UdpPacketDecodeError(_) => "failed to decode packet"@,
            Error::SessionNoMatch(..) => "failed to find session"@,
            Error::InvalidFlags(_) => "received invalid flags"@,
            Error::InvalidYourDiscriminator(_) => "received invalid Your Discriminator"@,
            Error::AuthError => "failed to authenticate packet"@,
        }
    }

    pub fn message(&self) -> (r: String)
        ensures
            r@ == self.text(),
    {
        match self {
            Error::IoError(error) => error.message(),
            Error::SessionIdNotFound(_) => owned("session ID not found"),
            Error::UdpInvalidSourceAddr(_) => owned("invalid source address"),
            Error::UdpPacketDecodeError(_) => owned("failed to decode packet"),
            Error::SessionNoMatch(..) => owned("failed to find session"),
            Error::InvalidFlags(_) => owned("received invalid flags"),
            Error::InvalidYourDiscriminator(_) => owned("received invalid Your Discriminator"),
            Error::AuthError => owned("failed to authenticate packet"),
        }
    }

    /// What is logged besides the message.
    pub open spec fn detail(self) -> Option<DetailView> {
        match self {
            Error::IoError(error) => error.detail(),
            Error::SessionIdNotFound(sess_id) => Some(DetailView::SessionId(sess_id)),
            Error::UdpInvalidSourceAddr(addr) => Some(DetailView::Address(addr)),
            Error::UdpPacketDecodeError(error) => Some(DetailView::Error(error.full_text())),
            Error::SessionNoMatch(packet_info, your_discr) => Some(DetailView::Unmatched(packet_info, your_discr)),
            Error::InvalidFlags(flags) => Some(DetailView::Flags(flags)),
            Error::InvalidYourDiscriminator(discr) => Some(DetailView::Discriminator(discr)),
            Error::AuthError => None,
        }
    }

    /// The warning about the error.
    pub fn log(&self) -> (r: LogRecord)
        ensures
            r.message@ == self.text(),
            detail_view(r.detail) == self.detail(),
    {
        let detail = match self {
            Error::IoError(error) => {
                return error.log();
            },
            Error::SessionIdNotFound(sess_id) => Some(Detail::SessionId(*sess_id)),
            Error::UdpInvalidSourceAddr(addr) => Some(Detail::Address(*addr)),
            Error::UdpPacketDecodeError(error) => Some(Detail::Error(error.describe())),
            Error::SessionNoMatch(packet_info, your_discr) => Some(Detail::Unmatched(*packet_info, *your_discr)),
            Error::InvalidFlags(flags) => Some(Detail::Flags(*flags)),
            Error::InvalidYourDiscriminator(discr) => Some(Detail::Discriminator(*discr)),
            Error::AuthError => None,
        };
        LogRecord { message: self.message(), detail }
    }
}

/// Why the address could not be bound.
pub open spec fn bind_reason(in_use: bool, holder: Option<Seq<char>>, error: Seq<char>) -> Seq<char> {
    if in_use {
        match holder {
            Some(holder) => "address in use (held by "@ + holder + ")"@,
            None => "address in use (holder unknown)"@,
        }
    } else {
        error
    }
}

/// The report of a failed bind of a BFD Rx socket.
///
/// Without an Rx socket the daemon transmits BFD control packets that no one
/// answers into a session that can never come up, and it detects no failure at
/// all: a liveness protocol that reports nothing is worse than an absent one.
/// There is no recovery path either, since the address is held by someone else.
/// So this is fatal, and the message names the port and, if the address is in
/// use, the process the kernel gave it to, since only that process can release
/// it.
pub fn rx_bind_failure(sockaddr: &String, in_use: bool, holder: Option<String>, error: &String) -> (r: String)
    ensures
        r@ == "bfd: cannot bind udp "@ + sockaddr@ + ": "@ + bind_reason(
            in_use,
            crate::text::opt_text(holder),
            error@,
        ),
{
    let reason = if in_use {
        match &holder {
            Some(holder) => {
                let mut reason = join("address in use (held by ", holder.as_str());
                reason.append(")");
                reason
            },
            None => owned("address in use (holder unknown)"),
        }
    } else {
        error.clone()
    };
    let mut r = join("bfd: cannot bind udp ", sockaddr.as_str());
    r.append(": ");
    r.append(reason.as_str());
    r
}

} // verus!
