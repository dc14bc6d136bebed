//! Addresses and ports as texts.

use crate::peer::SocketAddr;
use crate::text::{decimal, digits, parse_number, number, NumberError};
use vstd::prelude::*;

verus! {

/// The address and port of one side of a relay, the key of its account.
pub open spec fn session_text(ip: Seq<char>, port: u16) -> Seq<char> {
    ip + ":"@ + digits(port as nat)
}

/// Writes the key of a session's account.
pub fn session_id(ip: &str, port: u16) -> (out: String)
    ensures
        out@ == session_text(ip@, port),
{
    let mut out = ip.to_owned();
    out.append(":");
    out.append(decimal(port as u64).as_str());
    out
}

/// Reads the port that the server listens on.
pub fn parse_port(text: &str) -> (out: Result<u16, NumberError>)
    ensures
        match out {
            Ok(port) => number(text@, u16::MAX as nat) == Ok::<nat, NumberError>(port as nat),
            Err(e) => number(text@, u16::MAX as nat) == Err::<nat, NumberError>(e),
        },
{
    match parse_number(text, u16::MAX as u64) {
        Ok(port) => Ok(port as u16),
        Err(e) => Err(e),
    }
}

/// The port for websockets: the second after the port for plain connections.
pub fn websocket_port(port: u16) -> (out: u16)
    requires
        port + 2 <= u16::MAX,
    ensures
        out == port + 2,
{
    port + 2
}

/// The address that a websocket's session goes by: the one that a forwarding proxy names, and
/// where it names none, or none that can be read, the caller's.
pub fn session_addr(named: Option<SocketAddr>, caller: SocketAddr) -> (out: SocketAddr)
    ensures
        out == (match named {
            Some(addr) => addr,
            None => caller,
        }),
{
    match named {
        Some(addr) => addr,
        None => caller,
    }
}

/// A byte of a header that can be read as text.
pub open spec fn visible(b: u8) -> bool {
    32 <= b < 127 || b == 9
}

/// The text of a header, if each of its bytes can be read.
pub open spec fn header_text(bytes: Seq<u8>) -> Option<Seq<char>> {
    if forall|i: int| 0 <= i < bytes.len() ==> visible(#[trigger] bytes[i]) {
        Some(Seq::new(bytes.len(), |i: int| bytes[i] as char))
    } else {
        None
    }
}

/// The text of the socket address, with port zero, that a forwarding proxy names: by the header
/// `X-Real-IP`, and only where there is none by `X-Forwarded-For`.
pub open spec fn forwarded_text(real_ip: Option<Seq<u8>>, forwarded_for: Option<Seq<u8>>) -> Option<
    Seq<char>,
> {
    let header = if real_ip is Some {
        real_ip
    } else {
        forwarded_for
    };
    match header {
        None => None,
        Some(bytes) => match header_text(bytes) {
            None => None,
            Some(ip) => if ip.contains('.') {
                Some(ip + ":0"@)
            } else {
                Some("["@ + ip + "]:0"@)
            },
        },
    }
}

/// Reads a header as text.
pub fn read_header(bytes: &[u8]) -> (out: Option<String>)
    ensures
        match out {
            Some(text) => header_text(bytes@) == Some(text@),
            None => header_text(bytes@) is None,
        },
{
    let mut out = String::new();
    for i in 0..bytes.len()
        invariant
            forall|k: int| 0 <= k < i ==> visible(#[trigger] bytes@[k]),
            out@ == Seq::new(i as nat, |k: int| bytes@[k] as char),
    {
        let b: u8 = bytes[i];
        if !((32 <= b && b < 127) || b == 9) {
            assert(!visible(bytes@[i as int]));
            return None;
        }
        out.push(b as char);
    }
    Some(out)
}

fn has_dot(text: &str) -> (yes: bool)
    ensures
        yes == text@.contains('.'),
{
    let mut yes = false;
    for c in it: text.chars()
        invariant
            it.seq() == text@,
            yes == text@.take(it.index() as int).contains('.'),
    {
        let ghost read = text@.take(it.index() as int);
        let ghost next = text@.take(it.index() as int + 1);
        assert(next == read.push(c));
        proof {
            if read.contains('.') {
                let k = choose|k: int| 0 <= k < read.len() && read[k] == '.';
                assert(next[k] == '.');
            }
            assert(next[it.index() as int] == c);
        }
        if c == '.' {
            yes = true;
        }
    }
    assert(text@.take(text@.len() as int) == text@);
    yes
}

/// The socket address that a forwarding proxy names, as a text to be read; none where it names
/// none.
pub fn forwarded_addr(real_ip: Option<&[u8]>, forwarded_for: Option<&[u8]>) -> (out: Option<String>)
    ensures
        (match out { Some(text) => Some(text@), None => None }) == forwarded_text(
            (match real_ip { Some(b) => Some(b@), None => None }),
            (match forwarded_for { Some(b) => Some(b@), None => None }),
        ),
{
    let header = match real_ip {
        Some(bytes) => Some(bytes),
        None => forwarded_for,
    };
    match header {
        None => None,
        Some(bytes) => match read_header(bytes) {
            None => None,
            Some(ip) => {
                let mut out = String::new();
                if has_dot(ip.as_str()) {
                    out.append(ip.as_str());
                    out.append(":0");
                    assert(out@ == ip@ + ":0"@);
                } else {
                    out.append("[");
                    out.append(ip.as_str());
                    out.append("]:0");
                    assert(out@ == "["@ + ip@ + "]:0"@);
                }
                Some(out)
            },
        },
    }
}

} // verus!
