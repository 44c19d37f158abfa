use vstd::prelude::*;

use crate::colors::{color_error_text, ColorParseError};
use crate::text::{collect_chars, digits_of, digits_vec};
use vstd::string::StringExecFns;

verus! {

/// What went wrong while a relay handled a packet. Errors that came from the
/// transport or a library carry its message.
#[derive(Debug)]
pub enum PacketHandlingError {
    Other(String),
    WrongCryptoBoxState,
    EncryptionError,
    DecryptionError,
    IOError(String),
    MalformedMessage,
    MalformedLoginAttempt,
    MalformedCiphertext,
    MalformedPacketStructure(String),
    NoHandler(u16),
    WebRequestError(String),
    UnexpectedPlayerData,
    SystemTimeError(String),
    SocketSendFailed(String),
    SocketWouldBlock,
    UnexpectedCentralResponse,
    ColorParseFailed(ColorParseError),
    Ratelimited,
    DangerousAllocation(usize),
}

impl From<ColorParseError> for PacketHandlingError {
    fn from(value: ColorParseError) -> (r: PacketHandlingError) {
        PacketHandlingError::ColorParseFailed(value)
    }
}

impl vstd::std_specs::convert::FromSpecImpl<ColorParseError> for PacketHandlingError {
    open spec fn obeys_from_spec() -> bool {
        true
    }

    open spec fn from_spec(v: ColorParseError) -> PacketHandlingError {
        PacketHandlingError::ColorParseFailed(v)
    }
}

fn unsigned_text(n: u64) -> (r: String)
    ensures
        r@ == digits_of(n as nat),
{
    let v = digits_vec(n);
    collect_chars(v.as_slice())
}

fn joined(head: &str, tail: &str) -> (r: String)
    ensures
        r@ == head@ + tail@,
{
    let mut out = String::from_str(head);
    out.append(tail);
    out
}

/// The sentence that describes a packet handling error.
pub open spec fn packet_error_text(e: PacketHandlingError) -> Seq<char> {
    match e {
        PacketHandlingError::Other(msg) => msg@,
        PacketHandlingError::IOError(msg) => "IO Error: "@ + msg@,
        PacketHandlingError::WrongCryptoBoxState => "wrong crypto box state for the given operation"@,
        PacketHandlingError::EncryptionError => "Encryption failed"@,
        PacketHandlingError::DecryptionError => "Decryption failed"@,
        PacketHandlingError::MalformedCiphertext => "malformed ciphertext in an encrypted packet"@,
        PacketHandlingError::MalformedMessage => "malformed message structure"@,
        PacketHandlingError::MalformedLoginAttempt => "malformed login attempt"@,
        PacketHandlingError::MalformedPacketStructure(err) => "could not decode a packet: "@ + err@,
        PacketHandlingError::NoHandler(id) => "no packet handler for packet ID "@ + digits_of(id as nat),
        PacketHandlingError::WebRequestError(msg) => "web request error: "@ + msg@,
        PacketHandlingError::UnexpectedPlayerData => "received PlayerDataPacket or SyncPlayerMetadataPacket when not in a level"@,
        PacketHandlingError::SystemTimeError(msg) => "system time error: "@ + msg@,
        PacketHandlingError::SocketSendFailed(err) => "socket send failed: "@ + err@,
        PacketHandlingError::SocketWouldBlock => "could not do a non-blocking operation on the socket as it would block"@,
        PacketHandlingError::UnexpectedCentralResponse => "got unexpected response from the central server"@,
        PacketHandlingError::ColorParseFailed(err) => "failed to parse a color: "@ + color_error_text(err),
        PacketHandlingError::Ratelimited => "client is sending way too many packets per second"@,
        PacketHandlingError::DangerousAllocation(size) => "attempted to allocate "@ + digits_of(size as nat)
            + " bytes on the stack - that has a potential for a stack overflow!"@,
    }
}

impl PacketHandlingError {
    /// A sentence describing the error.
    pub fn message(&self) -> (r: String)
        ensures
            r@ == packet_error_text(*self),
    {
        match self {
            PacketHandlingError::Other(msg) => msg.clone(),
            PacketHandlingError::IOError(msg) => joined("IO Error: ", msg.as_str()),
            PacketHandlingError::WrongCryptoBoxState => String::from_str("wrong crypto box state for the given operation"),
            PacketHandlingError::EncryptionError => String::from_str("Encryption failed"),
            PacketHandlingError::DecryptionError => String::from_str("Decryption failed"),
            PacketHandlingError::MalformedCiphertext => String::from_str("malformed ciphertext in an encrypted packet"),
            PacketHandlingError::MalformedMessage => String::from_str("malformed message structure"),
            PacketHandlingError::MalformedLoginAttempt => String::from_str("malformed login attempt"),
            PacketHandlingError::MalformedPacketStructure(err) => joined("could not decode a packet: ", err.as_str()),
            PacketHandlingError::NoHandler(id) => {
                let n = unsigned_text(*id as u64);
                joined("no packet handler for packet ID ", n.as_str())
            },
            PacketHandlingError::WebRequestError(msg) => joined("web request error: ", msg.as_str()),
            PacketHandlingError::UnexpectedPlayerData => String::from_str("received PlayerDataPacket or SyncPlayerMetadataPacket when not in a level"),
            PacketHandlingError::SystemTimeError(msg) => joined("system time error: ", msg.as_str()),
            PacketHandlingError::SocketSendFailed(err) => joined("socket send failed: ", err.as_str()),
            PacketHandlingError::SocketWouldBlock => String::from_str("could not do a non-blocking operation on the socket as it would block"),
            PacketHandlingError::UnexpectedCentralResponse => String::from_str("got unexpected response from the central server"),
            PacketHandlingError::ColorParseFailed(err) => {
                let m = err.message();
                joined("failed to parse a color: ", m.as_str())
            },
            PacketHandlingError::Ratelimited => String::from_str("client is sending way too many packets per second"),
            PacketHandlingError::DangerousAllocation(size) => {
                let n = unsigned_text(*size as u64);
                let mut out = String::from_str("attempted to allocate ");
                out.append(n.as_str());
                out.append(" bytes on the stack - that has a potential for a stack overflow!");
                proof {
                    assert(out@ =~= packet_error_text(*self));
                }
                out
            },
        }
    }
}

/// The error kinds that carry no payload.
pub open spec fn payload_free(e: PacketHandlingError) -> bool {
    match e {
        PacketHandlingError::WrongCryptoBoxState | PacketHandlingError::EncryptionError
        | PacketHandlingError::DecryptionError | PacketHandlingError::MalformedMessage
        | PacketHandlingError::MalformedLoginAttempt | PacketHandlingError::MalformedCiphertext
        | PacketHandlingError::UnexpectedPlayerData | PacketHandlingError::SocketWouldBlock
        | PacketHandlingError::UnexpectedCentralResponse | PacketHandlingError::Ratelimited => true,
        _ => false,
    }
}

/// Error kinds without payload are told apart by their text, and none of
/// those texts is empty.
pub proof fn lemma_kinds_have_distinct_texts(e1: PacketHandlingError, e2: PacketHandlingError)
    requires
        payload_free(e1),
        payload_free(e2),
        e1 != e2,
    ensures
        packet_error_text(e1) != packet_error_text(e2),
        packet_error_text(e1).len() > 0,
{
    reveal_strlit("wrong crypto box state for the given operation");
    reveal_strlit("Encryption failed");
    reveal_strlit("Decryption failed");
    reveal_strlit("malformed ciphertext in an encrypted packet");
    reveal_strlit("malformed message structure");
    reveal_strlit("malformed login attempt");
    reveal_strlit("received PlayerDataPacket or SyncPlayerMetadataPacket when not in a level");
    reveal_strlit("could not do a non-blocking operation on the socket as it would block");
    reveal_strlit("got unexpected response from the central server");
    reveal_strlit("client is sending way too many packets per second");
    if packet_error_text(e1) == packet_error_text(e2) {
        assert(packet_error_text(e1).len() == packet_error_text(e2).len());
        assert(packet_error_text(e1)[0] == packet_error_text(e2)[0]);
        assert(packet_error_text(e1)[1] == packet_error_text(e2)[1]);
        assert(packet_error_text(e1)[2] == packet_error_text(e2)[2]);
    }
}

} // verus!
