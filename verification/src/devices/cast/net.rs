//! Cast messages on the wire: a length, then the fields of the message.

use vstd::prelude::*;

use crate::devices::cast::media::split_authority;
use crate::devices::cast::protocol::CastFrame;
use crate::devices::cast::session::CastChannelError;
use crate::text::{cat3, debug_text, decimal_text};

verus! {

/// The longest message that is accepted, in bytes.
pub const MAX_FRAME_LEN: usize = 65_536;

/// The protocol version.
pub const CASTV2_1_0: i32 = 0;

/// The type of a text payload.
pub const PAYLOAD_STRING: i32 = 0;

/// The fields of a message on the wire.
#[derive(Debug, PartialEq, Eq)]
pub struct WireCastMessage {
    /// The protocol version.
    pub protocol_version: Option<i32>,
    /// Who sends it.
    pub source_id: Option<String>,
    /// Who is to get it.
    pub destination_id: Option<String>,
    /// The namespace.
    pub namespace: Option<String>,
    /// The type of the payload.
    pub payload_type: Option<i32>,
    /// A text payload.
    pub payload_utf8: Option<String>,
    /// A binary payload.
    pub payload_binary: Option<Vec<u8>>,
}

/// The fields of a message. Every field that the protocol requires is there,
/// also where it has its default value.
pub fn to_wire(frame: &CastFrame) -> (r: WireCastMessage)
    ensures
        r.protocol_version == Some(0i32),
        crate::text::text_opt(r.source_id) == Some(frame.source@),
        crate::text::text_opt(r.destination_id) == Some(frame.destination@),
        crate::text::text_opt(r.namespace) == Some(frame.namespace@),
        r.payload_type == Some(0i32),
        crate::text::text_opt(r.payload_utf8) == Some(frame.payload@),
        r.payload_binary is None,
{
    WireCastMessage {
        protocol_version: Some(CASTV2_1_0),
        source_id: Some(frame.source.clone()),
        destination_id: Some(frame.destination.clone()),
        namespace: Some(frame.namespace.clone()),
        payload_type: Some(PAYLOAD_STRING),
        payload_utf8: Some(frame.payload.clone()),
        payload_binary: None,
    }
}

/// The message of some fields. A missing text is empty, and a binary payload
/// is not looked at.
pub open spec fn frame_of(m: WireCastMessage) -> crate::devices::cast::protocol::FrameView {
    crate::devices::cast::protocol::FrameView {
        namespace: or_empty(crate::text::text_opt(m.namespace)),
        source: or_empty(crate::text::text_opt(m.source_id)),
        destination: or_empty(crate::text::text_opt(m.destination_id)),
        payload: or_empty(crate::text::text_opt(m.payload_utf8)),
    }
}

/// A text, or the empty one.
pub open spec fn or_empty(t: Option<Seq<char>>) -> Seq<char> {
    match t {
        Some(s) => s,
        None => Seq::empty(),
    }
}

fn text_or_empty(t: Option<String>) -> (r: String)
    ensures
        r@ == or_empty(crate::text::text_opt(t)),
{
    match t {
        Some(s) => s,
        None => {
            let s = String::new();
            assert(s@ =~= Seq::<char>::empty());
            s
        },
    }
}

/// The message of some fields.
pub fn from_wire(m: WireCastMessage) -> (r: CastFrame)
    ensures
        r@ == frame_of(m),
{
    CastFrame {
        namespace: text_or_empty(m.namespace),
        source: text_or_empty(m.source_id),
        destination: text_or_empty(m.destination_id),
        payload: text_or_empty(m.payload_utf8),
    }
}

/// The number whose big-endian bytes these are.
pub open spec fn big_endian(b: Seq<u8>) -> nat {
    (b[0] * 0x100_0000 + b[1] * 0x1_0000 + b[2] * 0x100 + b[3]) as nat
}

/// The length that goes before a message.
pub fn frame_prefix(len: usize) -> (r: Result<[u8; 4], CastChannelError>)
    ensures
        match r {
            Ok(b) => len <= u32::MAX && big_endian(b@) == len,
            Err(e) => len > u32::MAX && e.message@
                == "cast frame exceeds the u32 length prefix"@,
        },
{
    if len as u64 > u32::MAX as u64 {
        return Err(CastChannelError::new("cast frame exceeds the u32 length prefix"));
    }
    let n: u64 = len as u64;
    let a: u64 = n / 0x100_0000;
    let b: u64 = (n / 0x1_0000) % 0x100;
    let c: u64 = (n / 0x100) % 0x100;
    let d: u64 = n % 0x100;
    assert(a * 0x100_0000 + b * 0x1_0000 + c * 0x100 + d == n && a < 0x100) by (nonlinear_arith)
        requires
            n <= 0xffff_ffff,
            a == n / 0x100_0000,
            b == (n / 0x1_0000) % 0x100,
            c == (n / 0x100) % 0x100,
            d == n % 0x100,
    ;
    Ok([a as u8, b as u8, c as u8, d as u8])
}

/// The length that stands before a message. One that is too long is refused.
pub fn frame_length(prefix: [u8; 4]) -> (r: Result<usize, CastChannelError>)
    ensures
        match r {
            Ok(n) => n == big_endian(prefix@) && n <= 65_536,
            Err(e) => big_endian(prefix@) > 65_536 && e.message@ == "cast frame of "@
                + crate::text::decimal(big_endian(prefix@)) + " bytes exceeds the 65536-byte frame bound"@,
        },
{
    let n: u64 = prefix[0] as u64 * 0x100_0000 + prefix[1] as u64 * 0x1_0000 + prefix[2] as u64
        * 0x100 + prefix[3] as u64;
    if n > MAX_FRAME_LEN as u64 {
        let digits = decimal_text(n);
        return Err(
            CastChannelError {
                message: cat3(
                    "cast frame of ",
                    digits.as_str(),
                    " bytes exceeds the 65536-byte frame bound",
                ),
            },
        );
    }
    Ok(n as usize)
}

/// The host and the port to dial for an authority.
pub fn dial_authority(authority: &str) -> (r: Result<(String, u16), CastChannelError>)
    ensures
        match r {
            Ok(p) => crate::devices::cast::media::authority_of(authority@) == Some(
                (p.0@, p.1 as nat),
            ),
            Err(e) => crate::devices::cast::media::authority_of(authority@) is None && e.message@
                == "cast authority "@ + crate::text::debug_of(authority@)
                + " is not a valid host[:port]"@,
        },
{
    match split_authority(authority) {
        Some(p) => Ok(p),
        None => {
            let q = debug_text(authority);
            Err(
                CastChannelError {
                    message: cat3("cast authority ", q.as_str(), " is not a valid host[:port]"),
                },
            )
        },
    }
}

// ---- Laws --------------------------------------------------------------------

/// A message is read back from its fields as it was written.
pub proof fn law_wire_round_trip(frame: CastFrame, m: WireCastMessage)
    requires
        crate::text::text_opt(m.source_id) == Some(frame.source@),
        crate::text::text_opt(m.destination_id) == Some(frame.destination@),
        crate::text::text_opt(m.namespace) == Some(frame.namespace@),
        crate::text::text_opt(m.payload_utf8) == Some(frame.payload@),
    ensures
        frame_of(m) == frame@,
{
}

/// Four bytes stand for one length only, so a length that was written is the
/// length that is read.
pub proof fn law_prefix_is_unambiguous(a: Seq<u8>, b: Seq<u8>)
    requires
        a.len() == 4,
        b.len() == 4,
        big_endian(a) == big_endian(b),
    ensures
        a == b,
{
    assert(a[0] == b[0]);
    assert(a[1] == b[1]);
    assert(a[2] == b[2]);
    assert(a[3] == b[3]);
    assert(a =~= b);
}

} // verus!
