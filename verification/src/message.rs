//! The closed set of protocol messages and their serialized shape.
//!
//! Every message travels as one ordered sequence whose first element names
//! the kind. `wire_items` gives each message its sequence; `parse_items`
//! reads a sequence back, and the two are proved inverse.

use vstd::prelude::*;

use crate::cbor::{CborItem, CborVal, items_view};
use crate::errors::ProtocolError;
use crate::storage::clone_string;

verus! {

/// One protocol message.
#[derive(Debug)]
pub enum Message {
    /// Announces a transfer: a file's hash and its chunk count.
    Sync { hash: String, num_chunks: u32 },
    /// A receiver's declaration of the chunks it still needs, ascending.
    SyncNack { hash: String, missing: Vec<u32> },
    /// A single chunk payload.
    Chunk { hash: String, index: u32, bytes: Vec<u8> },
    /// All chunks received, reassembled and verified.
    Ack { hash: String },
    /// Fatal failure; abandon the transfer.
    Nak { hash: String, reason: String },
    /// Ask the peer to stage its local file and reply with a sync.
    Import { path: String },
    /// Finalize: write the assembled file at the peer.
    Export { hash: String, path: String, mode: u32 },
    /// The export completed successfully.
    Done { hash: String },
}

/// A protocol message, as contracts and proofs see it.
pub enum MessageView {
    /// Announces a transfer.
    Sync { hash: Seq<char>, num_chunks: u32 },
    /// The chunks a receiver still needs.
    SyncNack { hash: Seq<char>, missing: Seq<u32> },
    /// A single chunk payload.
    Chunk { hash: Seq<char>, index: u32, bytes: Seq<u8> },
    /// All chunks received and verified.
    Ack { hash: Seq<char> },
    /// Fatal failure.
    Nak { hash: Seq<char>, reason: Seq<char> },
    /// Ask the peer to stage a local file.
    Import { path: Seq<char> },
    /// Finalize at the peer.
    Export { hash: Seq<char>, path: Seq<char>, mode: u32 },
    /// The export completed.
    Done { hash: Seq<char> },
}

impl View for Message {
    type V = MessageView;

    open spec fn view(&self) -> MessageView {
        match self {
            Message::Sync { hash, num_chunks } => MessageView::Sync {
                hash: hash@,
                num_chunks: *num_chunks,
            },
            Message::SyncNack { hash, missing } => MessageView::SyncNack {
                hash: hash@,
                missing: missing@,
            },
            Message::Chunk { hash, index, bytes } => MessageView::Chunk {
                hash: hash@,
                index: *index,
                bytes: bytes@,
            },
            Message::Ack { hash } => MessageView::Ack { hash: hash@ },
            Message::Nak { hash, reason } => MessageView::Nak { hash: hash@, reason: reason@ },
            Message::Import { path } => MessageView::Import { path: path@ },
            Message::Export { hash, path, mode } => MessageView::Export {
                hash: hash@,
                path: path@,
                mode: *mode,
            },
            Message::Done { hash } => MessageView::Done { hash: hash@ },
        }
    }
}

/// A list of chunk indices widened for the wire.
pub open spec fn widen_list(v: Seq<u32>) -> Seq<u64> {
    v.map_values(|x: u32| x as u64)
}

/// A wire list read back as chunk indices.
pub open spec fn narrow_list(v: Seq<u64>) -> Seq<u32> {
    v.map_values(|x: u64| x as u32)
}

/// Every wire integer is small enough for a chunk index.
pub open spec fn fits_u32(v: Seq<u64>) -> bool {
    forall|i: int| 0 <= i < v.len() ==> v[i] <= u32::MAX
}

/// The ordered sequence a message travels as.
pub open spec fn wire_items(m: MessageView) -> Seq<CborVal> {
    match m {
        MessageView::Sync { hash, num_chunks } => seq![
            CborVal::Text("sync"@),
            CborVal::Text(hash),
            CborVal::Int(num_chunks as u64),
        ],
        MessageView::SyncNack { hash, missing } => seq![
            CborVal::Text("sync"@),
            CborVal::Text(hash),
            CborVal::IntList(widen_list(missing)),
        ],
        MessageView::Chunk { hash, index, bytes } => seq![
            CborVal::Text("chunk"@),
            CborVal::Text(hash),
            CborVal::Int(index as u64),
            CborVal::Bytes(bytes),
        ],
        MessageView::Ack { hash } => seq![CborVal::Text("ack"@), CborVal::Text(hash)],
        MessageView::Nak { hash, reason } => seq![
            CborVal::Text("nak"@),
            CborVal::Text(hash),
            CborVal::Text(reason),
        ],
        MessageView::Import { path } => seq![CborVal::Text("import"@), CborVal::Text(path)],
        MessageView::Export { hash, path, mode } => seq![
            CborVal::Text("export"@),
            CborVal::Text(hash),
            CborVal::Text(path),
            CborVal::Int(mode as u64),
        ],
        MessageView::Done { hash } => seq![CborVal::Text("done"@), CborVal::Text(hash)],
    }
}

/// Reads a message from an ordered sequence, if it has one of the eight
/// shapes of the closed set.
pub open spec fn parse_items(items: Seq<CborVal>) -> Option<MessageView> {
    if items.len() < 2 {
        None
    } else if !(items[0] is Text) || !(items[1] is Text) {
        None
    } else {
        let k = items[0]->Text_0;
        let h = items[1]->Text_0;
        if k == "sync"@ {
            if items.len() == 3 && items[2] is Int && items[2]->Int_0 <= u32::MAX {
                Some(MessageView::Sync { hash: h, num_chunks: items[2]->Int_0 as u32 })
            } else if items.len() == 3 && items[2] is IntList && fits_u32(items[2]->IntList_0) {
                Some(MessageView::SyncNack { hash: h, missing: narrow_list(items[2]->IntList_0) })
            } else {
                None
            }
        } else if k == "chunk"@ {
            if items.len() == 4 && items[2] is Int && items[2]->Int_0 <= u32::MAX && items[3]
                is Bytes {
                Some(
                    MessageView::Chunk {
                        hash: h,
                        index: items[2]->Int_0 as u32,
                        bytes: items[3]->Bytes_0,
                    },
                )
            } else {
                None
            }
        } else if k == "ack"@ {
            if items.len() == 2 {
                Some(MessageView::Ack { hash: h })
            } else {
                None
            }
        } else if k == "nak"@ {
            if items.len() == 3 && items[2] is Text {
                Some(MessageView::Nak { hash: h, reason: items[2]->Text_0 })
            } else {
                None
            }
        } else if k == "import"@ {
            if items.len() == 2 {
                Some(MessageView::Import { path: h })
            } else {
                None
            }
        } else if k == "export"@ {
            if items.len() == 4 && items[2] is Text && items[3] is Int && items[3]->Int_0
                <= u32::MAX {
                Some(
                    MessageView::Export {
                        hash: h,
                        path: items[2]->Text_0,
                        mode: items[3]->Int_0 as u32,
                    },
                )
            } else {
                None
            }
        } else if k == "done"@ {
            if items.len() == 2 {
                Some(MessageView::Done { hash: h })
            } else {
                None
            }
        } else {
            None
        }
    }
}

/// Relies on str's `==` (PartialEq::eq): true exactly when the two strings
/// hold the same characters.
#[verifier::external_body]
pub fn str_eq(a: &str, b: &str) -> (r: bool)
    ensures
        r == (a@ == b@),
{
    a == b
}

/// Chunk indices widened for the wire.
fn widen_indices(v: &Vec<u32>) -> (r: Vec<u64>)
    ensures
        r@ == widen_list(v@),
{
    let mut out: Vec<u64> = Vec::new();
    let mut i: usize = 0;
    while i < v.len()
        invariant
            i <= v@.len(),
            out@ == widen_list(v@.take(i as int)),
        decreases v@.len() - i,
    {
        out.push(v[i] as u64);
        proof {
            assert(out@ =~= widen_list(v@.take(i + 1)));
        }
        i = i + 1;
    }
    proof {
        assert(v@.take(v@.len() as int) =~= v@);
    }
    out
}

/// Wire integers read back as chunk indices, when they all fit.
fn narrow_indices(v: &Vec<u64>) -> (r: Option<Vec<u32>>)
    ensures
        r matches Some(mv) ==> fits_u32(v@) && mv@ == narrow_list(v@),
        r is None ==> !fits_u32(v@),
{
    let mut out: Vec<u32> = Vec::new();
    let mut i: usize = 0;
    while i < v.len()
        invariant
            i <= v@.len(),
            forall|j: int| 0 <= j < i ==> v@[j] <= u32::MAX,
            out@ == narrow_list(v@.take(i as int)),
        decreases v@.len() - i,
    {
        let x = v[i];
        if x > u32::MAX as u64 {
            return None;
        }
        out.push(x as u32);
        proof {
            assert(out@ =~= narrow_list(v@.take(i + 1)));
        }
        i = i + 1;
    }
    proof {
        assert(v@.take(v@.len() as int) =~= v@);
    }
    Some(out)
}

/// A copy of a byte vector.
fn clone_bytes(v: &Vec<u8>) -> (r: Vec<u8>)
    ensures
        r@ == v@,
{
    crate::store::copy_bytes(v)
}

impl Message {
    /// The ordered sequence this message travels as.
    pub fn to_items(&self) -> (r: Vec<CborItem>)
        ensures
            items_view(r@) == wire_items(self@),
    {
        let mut out: Vec<CborItem> = Vec::new();
        match self {
            Message::Sync { hash, num_chunks } => {
                out.push(CborItem::Text(str_to_string("sync")));
                out.push(CborItem::Text(clone_string(hash)));
                out.push(CborItem::Int(*num_chunks as u64));
            },
            Message::SyncNack { hash, missing } => {
                out.push(CborItem::Text(str_to_string("sync")));
                out.push(CborItem::Text(clone_string(hash)));
                out.push(CborItem::IntList(widen_indices(missing)));
            },
            Message::Chunk { hash, index, bytes } => {
                out.push(CborItem::Text(str_to_string("chunk")));
                out.push(CborItem::Text(clone_string(hash)));
                out.push(CborItem::Int(*index as u64));
                out.push(CborItem::Bytes(clone_bytes(bytes)));
            },
            Message::Ack { hash } => {
                out.push(CborItem::Text(str_to_string("ack")));
                out.push(CborItem::Text(clone_string(hash)));
            },
            Message::Nak { hash, reason } => {
                out.push(CborItem::Text(str_to_string("nak")));
                out.push(CborItem::Text(clone_string(hash)));
                out.push(CborItem::Text(clone_string(reason)));
            },
            Message::Import { path } => {
                out.push(CborItem::Text(str_to_string("import")));
                out.push(CborItem::Text(clone_string(path)));
            },
            Message::Export { hash, path, mode } => {
                out.push(CborItem::Text(str_to_string("export")));
                out.push(CborItem::Text(clone_string(hash)));
                out.push(CborItem::Text(clone_string(path)));
                out.push(CborItem::Int(*mode as u64));
            },
            Message::Done { hash } => {
                out.push(CborItem::Text(str_to_string("done")));
                out.push(CborItem::Text(clone_string(hash)));
            },
        }
        proof {
            assert(items_view(out@) =~= wire_items(self@));
        }
        out
    }

    /// Reads a message from an ordered sequence; fails on any shape outside
    /// the closed set.
    pub fn from_items(items: &Vec<CborItem>) -> (r: Result<Message, ProtocolError>)
        ensures
            r matches Ok(m) ==> parse_items(items_view(items@)) == Some(m@),
            r matches Err(e) ==> parse_items(items_view(items@)) is None && e
                == ProtocolError::BadFrame,
    {
        if items.len() < 2 {
            return Err(ProtocolError::BadFrame);
        }
        let kind = match &items[0] {
            CborItem::Text(s) => s,
            _ => {
                return Err(ProtocolError::BadFrame);
            },
        };
        let second = match &items[1] {
            CborItem::Text(s) => s,
            _ => {
                return Err(ProtocolError::BadFrame);
            },
        };
        if str_eq(kind.as_str(), "sync") {
            if items.len() != 3 {
                return Err(ProtocolError::BadFrame);
            }
            match &items[2] {
                CborItem::Int(n) => {
                    if *n <= u32::MAX as u64 {
                        Ok(Message::Sync { hash: clone_string(second), num_chunks: *n as u32 })
                    } else {
                        Err(ProtocolError::BadFrame)
                    }
                },
                CborItem::IntList(v) => {
                    match narrow_indices(v) {
                        Some(missing) => Ok(
                            Message::SyncNack { hash: clone_string(second), missing },
                        ),
                        None => Err(ProtocolError::BadFrame),
                    }
                },
                _ => Err(ProtocolError::BadFrame),
            }
        } else if str_eq(kind.as_str(), "chunk") {
            if items.len() != 4 {
                return Err(ProtocolError::BadFrame);
            }
            let index = match &items[2] {
                CborItem::Int(n) => {
                    if *n <= u32::MAX as u64 {
                        *n as u32
                    } else {
                        return Err(ProtocolError::BadFrame);
                    }
                },
                _ => {
                    return Err(ProtocolError::BadFrame);
                },
            };
            match &items[3] {
                CborItem::Bytes(b) => Ok(
                    Message::Chunk { hash: clone_string(second), index, bytes: clone_bytes(b) },
                ),
                _ => Err(ProtocolError::BadFrame),
            }
        } else if str_eq(kind.as_str(), "ack") {
            if items.len() == 2 {
                Ok(Message::Ack { hash: clone_string(second) })
            } else {
                Err(ProtocolError::BadFrame)
            }
        } else if str_eq(kind.as_str(), "nak") {
            if items.len() != 3 {
                return Err(ProtocolError::BadFrame);
            }
            match &items[2] {
                CborItem::Text(reason) => Ok(
                    Message::Nak { hash: clone_string(second), reason: clone_string(reason) },
                ),
                _ => Err(ProtocolError::BadFrame),
            }
        } else if str_eq(kind.as_str(), "import") {
            if items.len() == 2 {
                Ok(Message::Import { path: clone_string(second) })
            } else {
                Err(ProtocolError::BadFrame)
            }
        } else if str_eq(kind.as_str(), "export") {
            if items.len() != 4 {
                return Err(ProtocolError::BadFrame);
            }
            let path = match &items[2] {
                CborItem::Text(p) => p,
                _ => {
                    return Err(ProtocolError::BadFrame);
                },
            };
            match &items[3] {
                CborItem::Int(n) => {
                    if *n <= u32::MAX as u64 {
                        Ok(
                            Message::Export {
                                hash: clone_string(second),
                                path: clone_string(path),
                                mode: *n as u32,
                            },
                        )
                    } else {
                        Err(ProtocolError::BadFrame)
                    }
                },
                _ => Err(ProtocolError::BadFrame),
            }
        } else if str_eq(kind.as_str(), "done") {
            if items.len() == 2 {
                Ok(Message::Done { hash: clone_string(second) })
            } else {
                Err(ProtocolError::BadFrame)
            }
        } else {
            Err(ProtocolError::BadFrame)
        }
    }
}

/// A `String` holding the characters of a literal.
pub fn str_to_string(s: &str) -> (r: String)
    ensures
        r@ == s@,
{
    s.to_owned()
}

/// Reading back the sequence a message travels as yields the message: the
/// wire shape and the parser are inverses over the whole closed set.
pub proof fn lemma_wire_round_trip(m: MessageView)
    ensures
        parse_items(wire_items(m)) == Some(m),
{
    reveal_strlit("sync");
    reveal_strlit("chunk");
    reveal_strlit("ack");
    reveal_strlit("nak");
    reveal_strlit("import");
    reveal_strlit("export");
    reveal_strlit("done");
    assert("sync"@.len() == 4 && "sync"@[0] == 's');
    assert("chunk"@.len() == 5 && "chunk"@[0] == 'c');
    assert("ack"@.len() == 3 && "ack"@[0] == 'a');
    assert("nak"@.len() == 3 && "nak"@[0] == 'n');
    assert("import"@.len() == 6 && "import"@[0] == 'i');
    assert("export"@.len() == 6 && "export"@[0] == 'e');
    assert("done"@.len() == 4 && "done"@[0] == 'd');
    let items = wire_items(m);
    match m {
        MessageView::Sync { hash, num_chunks } => {
            assert(items.len() == 3);
            assert(items[0] == CborVal::Text("sync"@));
            assert(items[1] == CborVal::Text(hash));
            assert(items[2] == CborVal::Int(num_chunks as u64));
            assert(parse_items(items) == Some(m));
        },
        MessageView::SyncNack { hash, missing } => {
            assert(items.len() == 3);
            assert(items[0] == CborVal::Text("sync"@));
            assert(items[1] == CborVal::Text(hash));
            assert(items[2] == CborVal::IntList(widen_list(missing)));
            assert(fits_u32(widen_list(missing)));
            assert(narrow_list(widen_list(missing)) =~= missing);
            assert(parse_items(items) == Some(m));
        },
        MessageView::Chunk { hash, index, bytes } => {
            assert(items.len() == 4);
            assert(items[0] == CborVal::Text("chunk"@));
            assert(items[1] == CborVal::Text(hash));
            assert(items[2] == CborVal::Int(index as u64));
            assert(items[3] == CborVal::Bytes(bytes));
            assert(parse_items(items) == Some(m));
        },
        MessageView::Ack { hash } => {
            assert(items.len() == 2);
            assert(items[0] == CborVal::Text("ack"@));
            assert(items[1] == CborVal::Text(hash));
            assert(parse_items(items) == Some(m));
        },
        MessageView::Nak { hash, reason } => {
            assert(items.len() == 3);
            assert(items[0] == CborVal::Text("nak"@));
            assert(items[1] == CborVal::Text(hash));
            assert(items[2] == CborVal::Text(reason));
            assert(parse_items(items) == Some(m));
        },
        MessageView::Import { path } => {
            assert(items.len() == 2);
            assert(items[0] == CborVal::Text("import"@));
            assert(items[1] == CborVal::Text(path));
            assert(parse_items(items) == Some(m));
        },
        MessageView::Export { hash, path, mode } => {
            assert(items.len() == 4);
            assert(items[0] == CborVal::Text("export"@));
            assert(items[1] == CborVal::Text(hash));
            assert(items[2] == CborVal::Text(path));
            assert(items[3] == CborVal::Int(mode as u64));
            assert(parse_items(items) == Some(m));
        },
        MessageView::Done { hash } => {
            assert(items.len() == 2);
            assert(items[0] == CborVal::Text("done"@));
            assert(items[1] == CborVal::Text(hash));
            assert(parse_items(items) == Some(m));
        },
    }
}

} // verus!
