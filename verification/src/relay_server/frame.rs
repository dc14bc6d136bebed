//! The data of a websocket.

use vstd::prelude::*;

verus! {

/// An item that came over a websocket.
pub enum WsItem {
    /// Data.
    Binary(Vec<u8>),
    /// Anything else, such as a text or a ping.
    Other,
}

/// The data of an item, which is empty where the item is none.
pub fn frame_bytes(item: WsItem) -> (out: Vec<u8>)
    ensures
        out@ == (match item {
            WsItem::Binary(bytes) => bytes@,
            WsItem::Other => Seq::<u8>::empty(),
        }),
{
    match item {
        WsItem::Binary(bytes) => bytes,
        WsItem::Other => Vec::new(),
    }
}

} // verus!
