//! The byte framing of the TCP Raft transport.
//!
//! Every message on a connection is one frame: a lead byte (the RPC tag of
//! a request, the status of a reply), the body's length as a big-endian
//! 32-bit number, and the body, which is the rkyv archive of the message's
//! JSON text. The connection handling, the JSON of the Raft messages and
//! the calls into Raft stay with the caller; this module builds and checks
//! the bytes and makes the decisions in between.
use std::collections::BTreeMap;

use vstd::prelude::*;

verus! {

broadcast use vstd::laws_cmp::group_laws_cmp;

/// Lead byte of an AppendEntries request.
pub const TAG_APPEND_ENTRIES: u8 = 1;

/// Lead byte of a Vote request.
pub const TAG_VOTE: u8 = 2;

/// Lead byte of an InstallSnapshot request.
pub const TAG_INSTALL_SNAPSHOT: u8 = 3;

/// Lead byte of a successful reply.
pub const STATUS_OK: u8 = 0;

/// Lead byte of a failed reply.
pub const STATUS_ERR: u8 = 1;

// ---------------------------------------------------------------------
// The archive of a body
// ---------------------------------------------------------------------

/// The four little-endian bytes of `n`.
pub open spec fn le_bytes(n: u32) -> Seq<u8> {
    seq![
        (n % 0x100) as u8,
        (n / 0x100 % 0x100) as u8,
        (n / 0x1_0000 % 0x100) as u8,
        (n / 0x100_0000) as u8,
    ]
}

/// The bytes of the rkyv archive of a byte string `json` (at most 2 GiB):
/// the bytes themselves, zeros up to a multiple of four, then the archived
/// vector, a relative pointer back to the start (a 32-bit offset, minus
/// the padded length) and the length, both little-endian.
pub open spec fn rkyv_archive(json: Seq<u8>) -> Seq<u8> {
    let n = json.len();
    let pad = ((4 - n % 4) % 4) as nat;
    let root = n + pad;
    json + Seq::new(pad, |i: int| 0u8) + le_bytes(((0x1_0000_0000 - root) % 0x1_0000_0000) as u32)
        + le_bytes(n as u32)
}

/// The bytes that the rkyv archive `body` holds (what reading it gives
/// when the reading succeeds).
pub uninterp spec fn rkyv_unarchive(body: Seq<u8>) -> Seq<u8>;

/// Whether `rkyv` can archive `json`: the archive's root points back to
/// the bytes with a 32-bit offset, so at most 2 GiB of them (beyond that
/// `rkyv::to_bytes` panics).
pub open spec fn archivable(json: Seq<u8>) -> bool {
    json.len() <= 0x8000_0000
}

/// Archives `json` with `rkyv::to_bytes`, which succeeds on every byte
/// string it archives: the writer (an `AlignedVec`) and the arena allocator
/// never fail, and the bytes are copied as they are. The bytes are the
/// archive of `json` as `rkyv_archive` spells it out, and, as rkyv's
/// round trip promises, the archive holds `json`.
#[verifier::external_body]
fn archive_bytes(json: &Vec<u8>) -> (r: Result<Vec<u8>, String>)
    requires
        archivable(json@),
    ensures
        r is Ok,
        r matches Ok(b) ==> b@ == rkyv_archive(json@),
        r matches Ok(b) ==> rkyv_unarchive(b@) == json@,
{
    rkyv::to_bytes::<rancor::Error>(json).map(|b| b.to_vec()).map_err(|e| e.to_string())
}

/// Reads an archive with `rkyv::from_bytes`, which validates it first. On
/// success the bytes are those the archive holds; whether validation
/// passes also depends on where the buffer lies in memory, so when it
/// fails, and with what text, is not described.
#[verifier::external_body]
fn unarchive_bytes(body: &Vec<u8>) -> (r: Result<Vec<u8>, String>)
    ensures
        r matches Ok(b) ==> b@ == rkyv_unarchive(body@),
{
    rkyv::from_bytes::<Vec<u8>, rancor::Error>(body).map_err(|e| e.to_string())
}

// ---------------------------------------------------------------------
// Frames
// ---------------------------------------------------------------------

/// The four big-endian bytes of `n`.
pub open spec fn be_bytes(n: u32) -> Seq<u8> {
    seq![
        (n / 0x100_0000) as u8,
        (n / 0x1_0000 % 0x100) as u8,
        (n / 0x100 % 0x100) as u8,
        (n % 0x100) as u8,
    ]
}

/// The number whose big-endian bytes are `b0 b1 b2 b3`.
pub open spec fn be_value(b0: u8, b1: u8, b2: u8, b3: u8) -> int {
    b0 * 0x100_0000 + b1 * 0x1_0000 + b2 * 0x100 + b3
}

/// The length field of a body: its length, truncated to 32 bits.
pub open spec fn length_field(body: Seq<u8>) -> u32 {
    (body.len() % 0x1_0000_0000) as u32
}

/// A frame: the lead byte, the length field, the body.
pub open spec fn frame(lead: u8, body: Seq<u8>) -> Seq<u8> {
    seq![lead] + be_bytes(length_field(body)) + body
}

/// Builds a frame around `body`.
pub fn frame_bytes(lead: u8, body: &Vec<u8>) -> (r: Vec<u8>)
    ensures
        r@ == frame(lead, body@),
{
    let n: u32 = (body.len() as u64 % 0x1_0000_0000) as u32;
    let mut r: Vec<u8> = Vec::new();
    r.push(lead);
    r.push((n / 0x100_0000) as u8);
    r.push((n / 0x1_0000 % 0x100) as u8);
    r.push((n / 0x100 % 0x100) as u8);
    r.push((n % 0x100) as u8);
    let ghost head = r@;
    for i in 0..body.len()
        invariant
            r@ == head + body@.take(i as int),
    {
        r.push(body[i]);
        proof {
            assert(body@.take(i + 1) =~= body@.take(i as int).push(body@[i as int]));
            assert(r@ =~= head + body@.take(i + 1));
        }
    }
    proof {
        assert(body@.take(body@.len() as int) =~= body@);
        assert(head =~= seq![lead] + be_bytes(length_field(body@)));
    }
    r
}

/// The lead byte and body length that a frame's first five bytes announce,
/// if there are five.
pub open spec fn header_of(bytes: Seq<u8>) -> Option<(u8, int)> {
    if bytes.len() < 5 {
        None
    } else {
        Some((bytes[0], be_value(bytes[1], bytes[2], bytes[3], bytes[4])))
    }
}

/// Reads the lead byte and the body length from a frame's first five bytes.
pub fn read_header(bytes: &Vec<u8>) -> (r: Option<(u8, u32)>)
    ensures
        match r {
            Some((lead, n)) => header_of(bytes@) == Some((lead, n as int)),
            None => header_of(bytes@) is None,
        },
{
    if bytes.len() < 5 {
        return None;
    }
    let n: u32 = bytes[1] as u32 * 0x100_0000 + bytes[2] as u32 * 0x1_0000 + bytes[3] as u32
        * 0x100 + bytes[4] as u32;
    Some((bytes[0], n))
}

/// The four big-endian bytes of a number read back as that number.
pub proof fn lemma_be_roundtrip(n: u32)
    ensures
        be_value(be_bytes(n)[0], be_bytes(n)[1], be_bytes(n)[2], be_bytes(n)[3]) == n,
{
    let b = be_bytes(n);
    assert(b[0] == n / 0x100_0000);
    assert(b[1] == n / 0x1_0000 % 0x100);
    assert(b[2] == n / 0x100 % 0x100);
    assert(b[3] == n % 0x100);
    assert(n == (n / 0x100_0000) * 0x100_0000 + (n / 0x1_0000 % 0x100) * 0x1_0000 + (n / 0x100
        % 0x100) * 0x100 + n % 0x100) by (nonlinear_arith);
}

/// A frame's header announces the lead byte it was built with and the
/// length of its body, and the body follows the header: what a sender
/// frames is what a receiver reads back (for bodies shorter than 4 GiB).
pub proof fn lemma_frame_header_roundtrip(lead: u8, body: Seq<u8>)
    requires
        body.len() < 0x1_0000_0000,
    ensures
        header_of(frame(lead, body)) == Some((lead, body.len() as int)),
        frame(lead, body).subrange(5, frame(lead, body).len() as int) == body,
{
    let f = frame(lead, body);
    let n = length_field(body);
    assert(n == body.len());
    lemma_be_roundtrip(n);
    assert(f[1] == be_bytes(n)[0]);
    assert(f[2] == be_bytes(n)[1]);
    assert(f[3] == be_bytes(n)[2]);
    assert(f[4] == be_bytes(n)[3]);
    assert(f.subrange(5, f.len() as int) =~= body);
}

// ---------------------------------------------------------------------
// Requests
// ---------------------------------------------------------------------

/// The three Raft RPCs the transport carries.
#[derive(Clone, Copy, Debug, PartialEq, Eq, Structural)]
pub enum RpcKind {
    AppendEntries,
    Vote,
    InstallSnapshot,
}

/// The lead byte of a request of each kind.
pub open spec fn kind_tag(k: RpcKind) -> u8 {
    match k {
        RpcKind::AppendEntries => TAG_APPEND_ENTRIES,
        RpcKind::Vote => TAG_VOTE,
        RpcKind::InstallSnapshot => TAG_INSTALL_SNAPSHOT,
    }
}

impl RpcKind {
    /// The lead byte of a request of this kind.
    pub fn tag(&self) -> (t: u8)
        ensures
            t == kind_tag(*self),
    {
        match self {
            RpcKind::AppendEntries => TAG_APPEND_ENTRIES,
            RpcKind::Vote => TAG_VOTE,
            RpcKind::InstallSnapshot => TAG_INSTALL_SNAPSHOT,
        }
    }

    /// The kind of request a lead byte announces, if any.
    pub fn from_tag(tag: u8) -> (r: Option<RpcKind>)
        ensures
            match r {
                Some(k) => kind_tag(k) == tag,
                None => tag != TAG_APPEND_ENTRIES && tag != TAG_VOTE && tag != TAG_INSTALL_SNAPSHOT,
            },
    {
        if tag == TAG_APPEND_ENTRIES {
            Some(RpcKind::AppendEntries)
        } else if tag == TAG_VOTE {
            Some(RpcKind::Vote)
        } else if tag == TAG_INSTALL_SNAPSHOT {
            Some(RpcKind::InstallSnapshot)
        } else {
            None
        }
    }
}

/// All three kinds of request take one path: each travels under a tag of
/// its own, and a server reads that tag back as the same kind. (Which
/// replies a client accepts is `answers`, for every kind alike.)
pub proof fn lemma_kind_tag_roundtrip(k: RpcKind, k2: RpcKind)
    ensures
        RpcKind::from_tag_spec(kind_tag(k)) == Some(k),
        kind_tag(k) == kind_tag(k2) ==> k == k2,
{
}

/// Frames the JSON text of a request: its kind's tag, then its archive.
pub fn request_frame(kind: RpcKind, json: &Vec<u8>) -> (r: Result<Vec<u8>, String>)
    requires
        archivable(json@),
    ensures
        r matches Ok(f) && f@ == frame(kind_tag(kind), rkyv_archive(json@)),
        rkyv_unarchive(rkyv_archive(json@)) == json@,
{
    match archive_bytes(json) {
        Ok(body) => Ok(frame_bytes(kind.tag(), &body)),
        Err(e) => Err(e),
    }
}

/// Frames the JSON text of a reply: its status, then its archive.
pub fn reply_frame(status: u8, json: &Vec<u8>) -> (r: Result<Vec<u8>, String>)
    requires
        archivable(json@),
    ensures
        r matches Ok(f) && f@ == frame(status, rkyv_archive(json@)),
        rkyv_unarchive(rkyv_archive(json@)) == json@,
{
    match archive_bytes(json) {
        Ok(body) => Ok(frame_bytes(status, &body)),
        Err(e) => Err(e),
    }
}

/// Reads the JSON text out of a frame's body.
pub fn frame_json(body: &Vec<u8>) -> (r: Result<Vec<u8>, String>)
    ensures
        r matches Ok(j) ==> j@ == rkyv_unarchive(body@),
{
    unarchive_bytes(body)
}

/// What a server does with a request frame it has read.
#[derive(Debug)]
pub enum ServeAction {
    /// Answer with a failed reply carrying this message, and go on with the
    /// next frame.
    Reject(String),
    /// Hand the request's JSON text to Raft as a request of this kind.
    Handle(RpcKind, Vec<u8>),
}

/// Decides what a server does with a request of a known kind once its
/// body has been read: the JSON text that came out of the archive is
/// handed to Raft, and a body that did not read back is rejected with the
/// reason the reading gave.
pub fn serve_decision(kind: RpcKind, read: Result<Vec<u8>, String>) -> (r: ServeAction)
    ensures
        match read {
            Ok(json) => r == ServeAction::Handle(kind, json),
            Err(e) => r == ServeAction::Reject(e),
        },
{
    match read {
        Ok(json) => ServeAction::Handle(kind, json),
        Err(e) => ServeAction::Reject(e),
    }
}

/// Decides what a server does with a request frame: a frame whose tag is
/// not one of the three kinds is rejected with `unknown tag`; for a known
/// kind the body is read as an archive and `serve_decision` decides.
pub fn serve_frame(tag: u8, body: &Vec<u8>) -> (r: ServeAction)
    ensures
        RpcKind::from_tag_spec(tag) is None ==> (r matches ServeAction::Reject(m) && m@
            == "unknown tag"@),
        RpcKind::from_tag_spec(tag) matches Some(k) ==> match r {
            ServeAction::Handle(k2, json) => k2 == k && json@ == rkyv_unarchive(body@),
            ServeAction::Reject(_) => true,
        },
{
    match RpcKind::from_tag(tag) {
        None => ServeAction::Reject(String::from_str("unknown tag")),
        Some(k) => serve_decision(k, frame_json(body)),
    }
}

impl RpcKind {
    /// The kind of request a lead byte announces, if any.
    pub open spec fn from_tag_spec(tag: u8) -> Option<RpcKind> {
        if tag == TAG_APPEND_ENTRIES {
            Some(RpcKind::AppendEntries)
        } else if tag == TAG_VOTE {
            Some(RpcKind::Vote)
        } else if tag == TAG_INSTALL_SNAPSHOT {
            Some(RpcKind::InstallSnapshot)
        } else {
            None
        }
    }
}

/// The status byte of a server's reply to a request that Raft answered
/// (`true`) or refused (`false`).
pub fn reply_status(answered: bool) -> (s: u8)
    ensures
        s == (if answered {
            STATUS_OK
        } else {
            STATUS_ERR
        }),
{
    if answered {
        STATUS_OK
    } else {
        STATUS_ERR
    }
}

// ---------------------------------------------------------------------
// Replies
// ---------------------------------------------------------------------

/// A reply as it travels: the answer to one of the three RPCs, or an
/// error text.
#[derive(Debug)]
pub enum WireResponse<A, V, S> {
    AppendEntries(A),
    Vote(V),
    InstallSnapshot(S),
    /// The error text of a failed request.
    Failure(String),
}

/// Whether a reply answers a request of kind `k`.
pub open spec fn answers<A, V, S>(r: WireResponse<A, V, S>, k: RpcKind) -> bool {
    match k {
        RpcKind::AppendEntries => r is AppendEntries,
        RpcKind::Vote => r is Vote,
        RpcKind::InstallSnapshot => r is InstallSnapshot,
    }
}

/// Checks a reply to a request of kind `want`: a failed status gives the
/// reply's error text (or `remote error` when it carries none), a reply
/// that does not answer the request gives `unexpected response type`, and
/// anything else is accepted.
pub fn accept_reply<A, V, S>(status: u8, resp: WireResponse<A, V, S>, want: RpcKind) -> (r: Result<
    WireResponse<A, V, S>,
    String,
>)
    ensures
        status == STATUS_ERR ==> match r {
            Err(m) => match resp {
                WireResponse::Failure(s) => m@ == s@,
                _ => m@ == "remote error"@,
            },
            Ok(_) => false,
        },
        status != STATUS_ERR ==> (if answers(resp, want) {
            r == Ok::<WireResponse<A, V, S>, String>(resp)
        } else {
            r matches Err(m) && m@ == "unexpected response type"@
        }),
{
    if status == STATUS_ERR {
        return match resp {
            WireResponse::Failure(s) => Err(s),
            _ => Err(String::from_str("remote error")),
        };
    }
    let ok = match (&resp, want) {
        (WireResponse::AppendEntries(_), RpcKind::AppendEntries) => true,
        (WireResponse::Vote(_), RpcKind::Vote) => true,
        (WireResponse::InstallSnapshot(_), RpcKind::InstallSnapshot) => true,
        _ => false,
    };
    if ok {
        Ok(resp)
    } else {
        Err(String::from_str("unexpected response type"))
    }
}

// ---------------------------------------------------------------------
// Peers
// ---------------------------------------------------------------------

/// Makes a connection to each peer from the address its membership entry
/// advertises.
#[derive(Clone, Copy, Debug, Default)]
pub struct TcpNetworkFactory;

impl TcpNetworkFactory {
    /// A new factory.
    pub fn new() -> (f: TcpNetworkFactory) {
        TcpNetworkFactory
    }

    /// The connection to the peer advertised at `addr`.
    pub fn new_client(&self, addr: String) -> (n: TcpNetwork)
        ensures
            n.addr() == addr@,
    {
        TcpNetwork { addr }
    }
}

/// The connection to one peer: the `host:port` it is reached at.
#[derive(Debug)]
pub struct TcpNetwork {
    addr: String,
}

impl TcpNetwork {
    /// The address the peer is reached at.
    pub closed spec fn addr(&self) -> Seq<char> {
        self.addr@
    }

    /// The address the peer is reached at.
    pub fn address(&self) -> (a: &String)
        ensures
            a@ == self.addr(),
    {
        &self.addr
    }
}

/// The address book a cluster is initialized with: each member's ID and
/// the `host:port` its Raft RPC server listens on (a later entry for the
/// same ID wins).
pub open spec fn address_book(entries: Seq<(u64, String)>) -> Map<u64, String>
    decreases entries.len(),
{
    if entries.len() == 0 {
        Map::empty()
    } else {
        address_book(entries.drop_last()).insert(entries.last().0, entries.last().1)
    }
}

/// Builds the address book of a cluster from its members.
pub fn tcp_nodes(entries: Vec<(u64, String)>) -> (r: BTreeMap<u64, String>)
    ensures
        r@ == address_book(entries@),
{
    let mut r: BTreeMap<u64, String> = BTreeMap::new();
    let mut rest = entries;
    let ghost all = rest@;
    let total = rest.len();
    let mut n: usize = 0;
    while rest.len() > 0
        invariant
            all.len() == total,
            n + rest@.len() == all.len(),
            rest@ == all.subrange(n as int, all.len() as int),
            r@ == address_book(all.take(n as int)),
        decreases rest@.len(),
    {
        let (id, addr) = rest.remove(0);
        proof {
            assert(rest@ =~= all.subrange(n + 1, all.len() as int));
            assert(all.take(n + 1).drop_last() =~= all.take(n as int));
            assert(all.take(n + 1).last() == all[n as int]);
        }
        r.insert(id, addr);
        n = n + 1;
    }
    proof {
        assert(all.take(n as int) =~= all);
    }
    r
}

} // verus!
