//! Laws of addresses, ports and the data of websockets.

use crate::peer::SocketAddr;
use crate::relay_server::address::{
    forwarded_addr, header_text, parse_port, read_header, session_addr, session_id, visible,
    websocket_port,
};
use crate::relay_server::frame::{frame_bytes, WsItem};
use crate::text::{digits, lemma_digits_injective, parse_number, NumberError};
use vstd::prelude::*;

verus! {

/// The key of an account is the address, a colon and the port.
pub proof fn lemma_key_of_an_account(ip: &str, port: u16, out: String)
    requires
        call_ensures(session_id, (ip, port), out),
    ensures
        out@ == ip@.push(':') + digits(port as nat),
{
    reveal_strlit(":");
    assert(ip@ + ":"@ =~= ip@.push(':'));
}

/// Two ports of one address never share an account.
pub proof fn lemma_ports_have_accounts_of_their_own(
    ip: &str,
    port: u16,
    other: u16,
    out: String,
    out_other: String,
)
    requires
        call_ensures(session_id, (ip, port), out),
        call_ensures(session_id, (ip, other), out_other),
        port != other,
    ensures
        out@ != out_other@,
{
    lemma_key_of_an_account(ip, port, out);
    lemma_key_of_an_account(ip, other, out_other);
    let front = ip@.push(':');
    if out@ == out_other@ {
        let (a, b) = (digits(port as nat), digits(other as nat));
        assert((front + a).skip(front.len() as int) =~= a);
        assert((front + b).skip(front.len() as int) =~= b);
        lemma_digits_injective(port as nat, other as nat);
    }
}

/// A port is read like any number, up to the highest port.
pub proof fn lemma_ports_are_read(
    text: &str,
    read: Result<u64, NumberError>,
    out: Result<u16, NumberError>,
)
    requires
        call_ensures(parse_number, (text, 65535), read),
        call_ensures(parse_port, (text,), out),
    ensures
        match read {
            Ok(n) => out matches Ok(port) && port == n,
            Err(e) => out == Err::<u16, NumberError>(e),
        },
{
}

/// Websockets have the second port after the plain one.
pub proof fn lemma_port_for_websockets(port: u16, out: u16)
    requires
        call_ensures(websocket_port, (port,), out),
    ensures
        out - port == 2,
{
}

/// A header is read if each of its bytes is a printable character of ASCII or a tab, and then
/// character by character.
pub proof fn lemma_headers_are_read(bytes: &[u8], out: Option<String>)
    requires
        call_ensures(read_header, (bytes,), out),
    ensures
        out is Some <==> forall|i: int|
            0 <= i < bytes@.len() ==> (32 <= #[trigger] bytes@[i] <= 126 || bytes@[i] == 9),
        out matches Some(text) ==> text@.len() == bytes@.len() && forall|i: int|
            0 <= i < bytes@.len() ==> #[trigger] text@[i] == bytes@[i] as char,
{
    if out is Some {
        assert forall|i: int| 0 <= i < bytes@.len() implies (32 <= #[trigger] bytes@[i] <= 126
            || bytes@[i] == 9) by {
            assert(visible(bytes@[i]));
        }
    } else {
        assert(header_text(bytes@) is None);
        let i = choose|i: int| 0 <= i < bytes@.len() && !visible(#[trigger] bytes@[i]);
        assert(!(32 <= bytes@[i] <= 126 || bytes@[i] == 9));
    }
}

/// A proxy names an address by the first of its two headers that is there, if that one can be read:
/// one with a dot is followed by port zero, and any other is put into brackets before.
pub proof fn lemma_what_a_proxy_names(
    real_ip: Option<&[u8]>,
    forwarded_for: Option<&[u8]>,
    bytes: &[u8],
    read: Option<String>,
    out: Option<String>,
)
    requires
        call_ensures(forwarded_addr, (real_ip, forwarded_for), out),
        call_ensures(read_header, (bytes,), read),
        real_ip == Some(bytes) || real_ip is None && forwarded_for == Some(bytes),
    ensures
        out is Some == read is Some,
        read matches Some(ip) ==> {
            &&& ip@.contains('.') ==> out->0@ == ip@.push(':').push('0')
            &&& !ip@.contains('.') ==> out->0@ == (seq!['['] + ip@).push(']').push(':').push('0')
        },
{
    reveal_strlit(":0");
    reveal_strlit("[");
    reveal_strlit("]:0");
    if let Some(ip) = read {
        assert(ip@ + ":0"@ =~= ip@.push(':').push('0'));
        assert("["@ + ip@ + "]:0"@ =~= (seq!['['] + ip@).push(']').push(':').push('0'));
    }
}

/// Without either header a proxy names nothing.
pub proof fn lemma_no_proxy_names_nothing(out: Option<String>)
    requires
        call_ensures(forwarded_addr, (None::<&[u8]>, None::<&[u8]>), out),
    ensures
        out is None,
{
}

/// The address of a session is the one that is named, and the caller's where none is.
pub proof fn lemma_address_of_a_session(
    named: Option<SocketAddr>,
    caller: SocketAddr,
    out: SocketAddr,
)
    requires
        call_ensures(session_addr, (named, caller), out),
    ensures
        named is None ==> out == caller,
        named is Some ==> Some(out) == named,
{
}

/// Only what is sent as data is data.
pub proof fn lemma_data_of_a_websocket(item: WsItem, out: Vec<u8>)
    requires
        call_ensures(frame_bytes, (item,), out),
    ensures
        item matches WsItem::Binary(bytes) ==> out@ == bytes@,
        item is Other ==> out@.len() == 0,
{
}

} // verus!
