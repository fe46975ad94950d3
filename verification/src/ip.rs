//! The verified core of interface enumeration.
//!
//! The operating system reports configured interfaces as a list of raw
//! records: a name, and optionally a socket-address region whose first
//! field is a family discriminant. The unverified shell walks that list
//! and hands each link over as a [`RawNode`] of plain values; everything
//! from there on — reading the discriminant, decoding the big-endian
//! address bytes, assembling owned records — happens here and is verified.

use vstd::prelude::*;

verus! {

/// A decoded IP address: four IPv4 octets or eight IPv6 groups, most
/// significant first in both cases.
#[derive(Clone, Copy, Debug, PartialEq, Eq, Structural)]
pub enum Address {
    V4(u8, u8, u8, u8),
    V6(u16, u16, u16, u16, u16, u16, u16, u16),
}

/// One interface together with one of its addresses, owning copies of
/// both; no reference into OS memory survives enumeration.
#[derive(Debug)]
pub struct Interface {
    pub name: String,
    pub addr: Address,
}

impl View for Interface {
    type V = (Seq<char>, Address);

    open spec fn view(&self) -> (Seq<char>, Address) {
        (self.name@, self.addr)
    }
}

impl Clone for Interface {
    fn clone(&self) -> (r: Self)
        ensures
            r == *self,
    {
        Interface { name: self.name.clone(), addr: self.addr }
    }
}

impl PartialEq for Interface {
    fn eq(&self, other: &Self) -> (r: bool) {
        self.name == other.name && self.addr == other.addr
    }
}

impl vstd::std_specs::cmp::PartialEqSpecImpl for Interface {
    open spec fn obeys_eq_spec() -> bool {
        true
    }

    open spec fn eq_spec(&self, other: &Interface) -> bool {
        self.name@ == other.name@ && self.addr == other.addr
    }
}

/// The single fatal failure of enumeration: the operating-system query
/// itself reported its failure sentinel, so nothing was allocated.
#[derive(Clone, Copy, Debug, PartialEq, Eq, Structural)]
pub enum InterfaceError {
    QueryFailed,
}

/// A raw socket-address region as one list node reports it: the family
/// discriminant, and the bytes of the address field exactly as they sit
/// in memory — network (big-endian) order, independent of the host.
pub struct RawSockaddr {
    pub family: u16,
    pub addr_bytes: Vec<u8>,
}

/// One link of the OS-reported list: the interface name as the narrow
/// byte string it was stored as (terminator excluded), and the raw
/// address region when the node carries one.
pub struct RawNode {
    pub name: Vec<u8>,
    pub addr: Option<RawSockaddr>,
}

/// Splits a 32-bit IPv4 address, read as big-endian, into its four
/// octets, most significant first.
pub open spec fn spec_ipv4(raw: u32) -> Address {
    Address::V4(
        ((raw >> 24) & 0xff) as u8,
        ((raw >> 16) & 0xff) as u8,
        ((raw >> 8) & 0xff) as u8,
        (raw & 0xff) as u8,
    )
}

/// The `i`-th 16-bit IPv6 group of a byte sequence in network order:
/// bytes `2i` and `2i + 1`, the first of the pair most significant.
pub open spec fn spec_group(b: Seq<u8>, i: int) -> u16 {
    ((b[2 * i] as u16) << 8) | (b[2 * i + 1] as u16)
}

/// Groups sixteen network-order bytes into the eight IPv6 groups.
pub open spec fn spec_ipv6(b: Seq<u8>) -> Address {
    Address::V6(
        spec_group(b, 0),
        spec_group(b, 1),
        spec_group(b, 2),
        spec_group(b, 3),
        spec_group(b, 4),
        spec_group(b, 5),
        spec_group(b, 6),
        spec_group(b, 7),
    )
}

/// Decodes the 32-bit IPv4 address field. The field holds the address
/// in big-endian ("network") order, so the most significant byte of
/// `raw` is the first octet, whatever the host's native order is.
pub fn decode_ipv4(raw: u32) -> (r: Address)
    ensures
        r == spec_ipv4(raw),
{
    proof {
        assert((raw >> 24) & 0xff < 256 && (raw >> 16) & 0xff < 256 && (raw >> 8) & 0xff < 256
            && raw & 0xff < 256) by (bit_vector);
    }
    let a = ((raw >> 24) & 0xff) as u8;
    let b = ((raw >> 16) & 0xff) as u8;
    let c = ((raw >> 8) & 0xff) as u8;
    let d = (raw & 0xff) as u8;
    Address::V4(a, b, c, d)
}

/// Decodes a 16-byte IPv6 address in network order into eight 16-bit
/// groups: bytes 0 and 1 form the first group (byte 0 most significant),
/// through bytes 14 and 15 for the last.
pub fn decode_ipv6(bytes: &Vec<u8>) -> (r: Address)
    requires
        bytes@.len() == 16,
    ensures
        r == spec_ipv6(bytes@),
{
    let a = ((bytes[0] as u16) << 8) | (bytes[1] as u16);
    let b = ((bytes[2] as u16) << 8) | (bytes[3] as u16);
    let c = ((bytes[4] as u16) << 8) | (bytes[5] as u16);
    let d = ((bytes[6] as u16) << 8) | (bytes[7] as u16);
    let e = ((bytes[8] as u16) << 8) | (bytes[9] as u16);
    let f = ((bytes[10] as u16) << 8) | (bytes[11] as u16);
    let g = ((bytes[12] as u16) << 8) | (bytes[13] as u16);
    let h = ((bytes[14] as u16) << 8) | (bytes[15] as u16);
    Address::V6(a, b, c, d, e, f, g, h)
}

/// What [`lossy_name`] returns: the text that the platform's lossy UTF-8
/// conversion makes of a byte string. A function of the bytes alone.
pub uninterp spec fn utf8_lossy(bytes: Seq<u8>) -> Seq<char>;

/// Converts a raw interface name to an owned string. Invalid byte
/// sequences are substituted, never an error.
///
/// Relies on `String::from_utf8_lossy`: the result depends on the bytes
/// alone; invalid sequences become replacement characters rather than
/// disappearing, so the result is empty exactly when the input is.
#[verifier::external_body]
fn lossy_name(bytes: &Vec<u8>) -> (r: String)
    ensures
        r@ == utf8_lossy(bytes@),
        r@.len() == 0 <==> bytes@.len() == 0,
{
    String::from_utf8_lossy(bytes.as_slice()).into_owned()
}

/// What one raw socket-address region decodes to under the two known
/// family discriminants `af4` and `af6`: an IPv4 address from a 4-byte
/// field, an IPv6 address from a 16-byte field, nothing for any other
/// discriminant or extent. No byte beyond the confirmed layout's extent
/// is given a meaning.
pub open spec fn spec_decode_sockaddr(sa: RawSockaddr, af4: u16, af6: u16) -> Option<Address> {
    if sa.family == af4 {
        if sa.addr_bytes@.len() == 4 {
            Some(Address::V4(sa.addr_bytes@[0], sa.addr_bytes@[1], sa.addr_bytes@[2], sa.addr_bytes@[3]))
        } else {
            None
        }
    } else if sa.family == af6 {
        if sa.addr_bytes@.len() == 16 {
            Some(spec_ipv6(sa.addr_bytes@))
        } else {
            None
        }
    } else {
        None
    }
}

/// The record one node contributes, if any: its decoded address paired
/// with its name converted to text. A node with an absent address region
/// or an unrecognized family contributes nothing.
pub open spec fn spec_record_of(n: RawNode, af4: u16, af6: u16) -> Option<(Seq<char>, Address)> {
    match n.addr {
        Option::None => None,
        Option::Some(sa) => match spec_decode_sockaddr(sa, af4, af6) {
            Option::None => None,
            Option::Some(a) => Some((utf8_lossy(n.name@), a)),
        },
    }
}

/// The records of a whole node list, in traversal order, skipping every
/// node that contributes nothing.
pub open spec fn spec_records(nodes: Seq<RawNode>, af4: u16, af6: u16) -> Seq<(Seq<char>, Address)> {
    nodes.filter_map(|n: RawNode| spec_record_of(n, af4, af6))
}

/// The views of a sequence of assembled records.
pub open spec fn spec_views(recs: Seq<Interface>) -> Seq<(Seq<char>, Address)> {
    recs.map_values(|rec: Interface| rec@)
}

/// Reassembling a big-endian 32-bit value from four bytes and splitting
/// it again gives the bytes back.
proof fn lemma_be32_octets(b0: u8, b1: u8, b2: u8, b3: u8)
    ensures
        spec_ipv4(
            ((b0 as u32) << 24) | ((b1 as u32) << 16) | ((b2 as u32) << 8) | (b3 as u32),
        ) == Address::V4(b0, b1, b2, b3),
{
    let raw: u32 = ((b0 as u32) << 24) | ((b1 as u32) << 16) | ((b2 as u32) << 8) | (b3 as u32);
    assert(((raw >> 24) & 0xff) as u8 == b0 && ((raw >> 16) & 0xff) as u8 == b1 && ((raw >> 8)
        & 0xff) as u8 == b2 && (raw & 0xff) as u8 == b3) by (bit_vector)
        requires
            raw == ((b0 as u32) << 24) | ((b1 as u32) << 16) | ((b2 as u32) << 8) | (b3 as u32),
    ;
}

/// Reads one node: inspects the family discriminant first, routes to the
/// matching decoder, and pairs the result with the converted name. Nodes
/// with no address region, an unrecognized family, or an address field of
/// the wrong extent yield `None` — a skip, never an error.
pub fn decode_node(node: &RawNode, af4: u16, af6: u16) -> (r: Option<Interface>)
    ensures
        (match r {
            Option::Some(rec) => spec_record_of(*node, af4, af6) == Some(rec@),
            Option::None => spec_record_of(*node, af4, af6) is None,
        }),
        (r matches Some(rec) ==> (node.name@.len() > 0 ==> rec.name@.len() > 0)),
{
    match &node.addr {
        Option::None => None,
        Option::Some(sa) => {
            if sa.family == af4 {
                if sa.addr_bytes.len() == 4 {
                    let raw: u32 = ((sa.addr_bytes[0] as u32) << 24) | ((sa.addr_bytes[1] as u32)
                        << 16) | ((sa.addr_bytes[2] as u32) << 8) | (sa.addr_bytes[3] as u32);
                    let addr = decode_ipv4(raw);
                    proof {
                        lemma_be32_octets(
                            sa.addr_bytes@[0],
                            sa.addr_bytes@[1],
                            sa.addr_bytes@[2],
                            sa.addr_bytes@[3],
                        );
                    }
                    Some(Interface { name: lossy_name(&node.name), addr })
                } else {
                    None
                }
            } else if sa.family == af6 {
                if sa.addr_bytes.len() == 16 {
                    let addr = decode_ipv6(&sa.addr_bytes);
                    Some(Interface { name: lossy_name(&node.name), addr })
                } else {
                    None
                }
            } else {
                None
            }
        },
    }
}

/// Assembles the records of every node in traversal order: exactly the
/// nodes that decode, each as its name paired with its address.
pub fn collect_interfaces(nodes: &Vec<RawNode>, af4: u16, af6: u16) -> (r: Vec<Interface>)
    ensures
        spec_views(r@) == spec_records(nodes@, af4, af6),
        (forall|i: int| 0 <= i < nodes@.len() ==> nodes@[i].name@.len() > 0) ==> (forall|j: int|
            0 <= j < r@.len() ==> (#[trigger] r@[j]).name@.len() > 0),
{
    let ghost f = |n: RawNode| spec_record_of(n, af4, af6);
    let mut out: Vec<Interface> = Vec::new();
    let mut i: usize = 0;
    proof {
        assert(nodes@.take(0int).filter_map(f) =~= Seq::<(Seq<char>, Address)>::empty());
        assert(spec_views(out@) =~= Seq::<(Seq<char>, Address)>::empty());
    }
    while i < nodes.len()
        invariant
            i <= nodes@.len(),
            spec_views(out@) == nodes@.take(i as int).filter_map(f),
            f == (|n: RawNode| spec_record_of(n, af4, af6)),
            (forall|k: int| 0 <= k < nodes@.len() ==> nodes@[k].name@.len() > 0) ==> (forall|
                j: int,
            | 0 <= j < out@.len() ==> (#[trigger] out@[j]).name@.len() > 0),
        decreases nodes@.len() - i,
    {
        let rec = decode_node(&nodes[i], af4, af6);
        proof {
            nodes@.lemma_filter_map_take_succ(f, i as int);
        }
        match rec {
            Option::Some(rec) => {
                proof {
                    assert(spec_views(out@.push(rec)) =~= spec_views(out@).push(rec@));
                }
                out.push(rec);
            },
            Option::None => {
                proof {
                    assert(nodes@.take(i as int).filter_map(f) + Seq::<(
                        Seq<char>,
                        Address,
                    )>::empty() =~= nodes@.take(i as int).filter_map(f));
                }
            },
        }
        i = i + 1;
    }
    proof {
        assert(nodes@.take(nodes@.len() as int) =~= nodes@);
    }
    out
}

/// The one exposed operation of the core. The caller performs the OS
/// query and hands its outcome in: `None` when the query reported its
/// failure sentinel (nothing was allocated), `Some` with the plain copy
/// of every list node otherwise. `af4` and `af6` are the platform's
/// IPv4 and IPv6 family discriminants.
///
/// Failure of the query is the single error; every irregular node is
/// skipped, so enumeration of an allocated list always succeeds.
pub fn get_if_addresses(query: Option<Vec<RawNode>>, af4: u16, af6: u16) -> (r: Result<
    Vec<Interface>,
    InterfaceError,
>)
    ensures
        (match query {
            Option::None => r == Err::<Vec<Interface>, InterfaceError>(InterfaceError::QueryFailed),
            Option::Some(nodes) => (r matches Ok(recs) && spec_views(recs@) == spec_records(
                nodes@,
                af4,
                af6,
            )),
        }),
        (match query {
            Option::Some(nodes) => (forall|i: int|
                0 <= i < nodes@.len() ==> nodes@[i].name@.len() > 0) ==> (r matches Ok(recs)
                && forall|j: int| 0 <= j < recs@.len() ==> (#[trigger] recs@[j]).name@.len() > 0),
            Option::None => true,
        }),
{
    match query {
        Option::None => Err(InterfaceError::QueryFailed),
        Option::Some(nodes) => Ok(collect_interfaces(&nodes, af4, af6)),
    }
}

/// If some element of a sequence maps to a value under `f`, then
/// `filter_map` keeps that value.
proof fn lemma_filter_map_contains_fwd<A, B>(s: Seq<A>, f: spec_fn(A) -> Option<B>, t: A)
    requires
        s.contains(t),
        f(t) is Some,
    ensures
        s.filter_map(f).contains(f(t)->Some_0),
    decreases s.len(),
{
    let rest = s.drop_last();
    let out = s.filter_map(f);
    if t == s.last() {
        assert(out =~= rest.filter_map(f) + seq![f(t)->Some_0]);
        assert(out[out.len() - 1] == f(t)->Some_0);
    } else {
        let i = choose|i: int| 0 <= i < s.len() && s[i] == t;
        assert(rest[i] == t);
        lemma_filter_map_contains_fwd(rest, f, t);
        let j = choose|j: int| 0 <= j < rest.filter_map(f).len() && rest.filter_map(f)[j] == f(
            t,
        )->Some_0;
        assert(out[j] == f(t)->Some_0);
    }
}

/// One direction of the idempotence law, applied pointwise: a record of
/// the first node list is a record of the second, when both lists hold
/// the same nodes in any order.
proof fn lemma_record_carries_over(
    a: Seq<RawNode>,
    b: Seq<RawNode>,
    af4: u16,
    af6: u16,
    x: (Seq<char>, Address),
)
    requires
        a.to_multiset() == b.to_multiset(),
        spec_records(a, af4, af6).contains(x),
    ensures
        spec_records(b, af4, af6).contains(x),
{
    let f = |n: RawNode| spec_record_of(n, af4, af6);
    a.lemma_filter_map_contains(f, x);
    let t = choose|t: RawNode| #[trigger] a.contains(t) && f(t) == Some(x);
    vstd::seq_lib::to_multiset_contains(a, t);
    vstd::seq_lib::to_multiset_contains(b, t);
    lemma_filter_map_contains_fwd(b, f, t);
}

/// Idempotence of enumeration: two queries of an unchanged system hand
/// back the same nodes, though the OS may link them in any order; the
/// two record lists are then equal as sets of (name, address) pairs.
pub proof fn lemma_same_nodes_same_record_set(
    nodes1: Seq<RawNode>,
    nodes2: Seq<RawNode>,
    af4: u16,
    af6: u16,
)
    requires
        nodes1.to_multiset() == nodes2.to_multiset(),
    ensures
        spec_records(nodes1, af4, af6).to_set() == spec_records(nodes2, af4, af6).to_set(),
{
    let r1 = spec_records(nodes1, af4, af6);
    let r2 = spec_records(nodes2, af4, af6);
    assert forall|x: (Seq<char>, Address)| r1.contains(x) implies r2.contains(x) by {
        lemma_record_carries_over(nodes1, nodes2, af4, af6, x);
    }
    assert forall|x: (Seq<char>, Address)| r2.contains(x) implies r1.contains(x) by {
        lemma_record_carries_over(nodes2, nodes1, af4, af6, x);
    }
    assert(r1.to_set() =~= r2.to_set());
}

/// A node with an unrecognized family discriminant contributes no
/// record — and no error.
pub proof fn lemma_unrecognized_family_skipped(n: RawNode, af4: u16, af6: u16)
    requires
        n.addr matches Some(sa) && sa.family != af4 && sa.family != af6,
    ensures
        spec_record_of(n, af4, af6) is None,
{
}

/// A node with an absent address region contributes no record; no field
/// of a region it does not have is ever read.
pub proof fn lemma_absent_address_skipped(n: RawNode, af4: u16, af6: u16)
    requires
        n.addr is None,
    ensures
        spec_record_of(n, af4, af6) is None,
{
}

/// Removing a node that contributes nothing — absent address region,
/// unrecognized family, malformed extent — leaves the record list
/// unchanged, wherever in the list it stood.
pub proof fn lemma_skipped_node_omitted(
    pre: Seq<RawNode>,
    n: RawNode,
    post: Seq<RawNode>,
    af4: u16,
    af6: u16,
)
    requires
        spec_record_of(n, af4, af6) is None,
    ensures
        spec_records(pre + seq![n] + post, af4, af6) == spec_records(pre + post, af4, af6),
    decreases post.len(),
{
    let f = |m: RawNode| spec_record_of(m, af4, af6);
    let with_n = pre + seq![n] + post;
    let without_n = pre + post;
    if post.len() == 0 {
        assert(without_n =~= pre);
        assert(with_n.last() == n);
        assert(with_n.drop_last() =~= pre);
        assert(with_n.filter_map(f) == pre.filter_map(f));
    } else {
        assert(with_n.last() == post.last());
        assert(without_n.last() == post.last());
        assert(with_n.drop_last() =~= pre + seq![n] + post.drop_last());
        assert(without_n.drop_last() =~= pre + post.drop_last());
        lemma_skipped_node_omitted(pre, n, post.drop_last(), af4, af6);
    }
}

/// Which records a caller-side display filter keeps: IPv4 addresses
/// outside the loopback block (first octet 127); IPv6 records are
/// dropped altogether.
pub open spec fn spec_keep_non_loopback_v4(rec: (Seq<char>, Address)) -> bool {
    match rec.1 {
        Address::V4(a, _b, _c, _d) => a != 127,
        Address::V6(_a, _b, _c, _d, _e, _f, _g, _h) => false,
    }
}

/// The caller-side filter over an enumeration result: keeps exactly the
/// non-loopback IPv4 records, in order.
pub fn non_loopback_v4(records: &Vec<Interface>) -> (r: Vec<Interface>)
    ensures
        spec_views(r@) == spec_views(records@).filter(|rec| spec_keep_non_loopback_v4(rec)),
{
    let ghost p = |rec: (Seq<char>, Address)| spec_keep_non_loopback_v4(rec);
    let mut out: Vec<Interface> = Vec::new();
    let mut i: usize = 0;
    proof {
        assert(spec_views(records@.take(0int)).filter(p) =~= Seq::<(Seq<char>, Address)>::empty());
        assert(spec_views(out@) =~= Seq::<(Seq<char>, Address)>::empty());
    }
    while i < records.len()
        invariant
            i <= records@.len(),
            spec_views(out@) == spec_views(records@.take(i as int)).filter(p),
            p == (|rec: (Seq<char>, Address)| spec_keep_non_loopback_v4(rec)),
        decreases records@.len() - i,
    {
        let keep = match records[i].addr {
            Address::V4(a, _b, _c, _d) => a != 127,
            Address::V6(..) => false,
        };
        proof {
            assert(spec_views(records@.take(i + 1 as int)) =~= spec_views(
                records@.take(i as int),
            ).push(records@[i as int]@));
            spec_views(records@.take(i as int)).lemma_filter_push(records@[i as int]@, p);
        }
        if keep {
            proof {
                assert(spec_views(out@.push(records@[i as int])) =~= spec_views(out@).push(
                    records@[i as int]@,
                ));
            }
            let rec = records[i].clone();
            out.push(rec);
        }
        i = i + 1;
    }
    proof {
        assert(records@.take(records@.len() as int) =~= records@);
    }
    out
}

} // verus!
