//! The node entities: the persisted `NodeSpec` record with its key, the
//! external API projection of it, and the live read-side types composed
//! alongside it.

use crate::codec::read_pairs;
use crate::codec::read_str;
use crate::codec::read_u64;
use crate::codec::spec_encode_pairs;
use crate::codec::spec_encode_str;
use crate::codec::spec_take_pairs;
use crate::codec::spec_take_str;
use crate::codec::spec_take_u64;
use crate::codec::lemma_encode_pairs_push;
use crate::codec::lemma_take_pairs_round_trip;
use crate::codec::lemma_take_str_round_trip;
use crate::codec::lemma_take_u64_round_trip;
use crate::codec::write_str;
use crate::codec::write_u64;
use crate::labels::LabelSeq;
use crate::labels::NodeLabels;
use crate::labels::labels_map;
use crate::labels::unique_keys;
use crate::store::DecodeError;
use crate::store::ObjectKey;
use crate::store::StorableObject;
use crate::store::StorableObjectType;
use crate::store::UuidString;
use vstd::bytes::spec_u64_to_le_bytes;
use vstd::prelude::*;
use vstd::std_specs::cmp::PartialEqSpec;
use vstd::utf8::encode_utf8;

verus! {

/// Identity of a storage node: an opaque, stable string.
#[derive(Debug)]
pub struct NodeId {
    text: String,
}

impl View for NodeId {
    type V = Seq<char>;

    closed spec fn view(&self) -> Seq<char> {
        self.text@
    }
}

impl NodeId {
    /// Wrap a string as a node identity.
    pub fn new(text: String) -> (r: NodeId)
        ensures
            r@ == text@,
    {
        NodeId { text }
    }

    /// The identity as borrowed text.
    pub fn as_str(&self) -> (r: &str)
        ensures
            r@ == self@,
    {
        self.text.as_str()
    }

    /// The identity as owned text.
    pub fn as_string(&self) -> (r: String)
        ensures
            r@ == self@,
    {
        self.text.clone()
    }
}

impl Clone for NodeId {
    /// A cloned identity denotes the same string.
    fn clone(&self) -> (r: Self)
        ensures
            r@ == self@,
    {
        NodeId { text: self.text.clone() }
    }
}

impl vstd::std_specs::cmp::PartialEqSpecImpl for NodeId {
    open spec fn obeys_eq_spec() -> bool {
        true
    }

    open spec fn eq_spec(&self, other: &NodeId) -> bool {
        self@ == other@
    }
}

impl PartialEq for NodeId {
    /// Identities are equal exactly when their strings are.
    fn eq(&self, other: &NodeId) -> (r: bool) {
        self.text.eq(&other.text)
    }
}

/// What a `NodeSpec` holds, mathematically: its identity and endpoint as
/// character sequences and its labels as a key/value pair sequence.
pub ghost struct NodeSpecView {
    pub id: Seq<char>,
    pub endpoint: Seq<char>,
    pub labels: LabelSeq,
}

impl NodeSpecView {
    /// A view a machine-held record can have: unique label keys and fields
    /// whose byte lengths fit the encoding's eight-byte counts.
    pub open spec fn wf(self) -> bool {
        &&& unique_keys(self.labels)
        &&& encode_utf8(self.id).len() <= u64::MAX
        &&& encode_utf8(self.endpoint).len() <= u64::MAX
        &&& self.labels.len() <= u64::MAX
        &&& forall|i: int|
            0 <= i < self.labels.len() ==> encode_utf8(#[trigger] self.labels[i].0).len()
                <= u64::MAX && encode_utf8(self.labels[i].1).len() <= u64::MAX
    }
}

/// The persisted specification of a storage node: identity, the endpoint of
/// its control service, and operator labels.
#[derive(Debug)]
pub struct NodeSpec {
    /// Node identification.
    id: NodeId,
    /// Endpoint of the node's control service.
    endpoint: String,
    /// Node labels.
    labels: NodeLabels,
}

impl View for NodeSpec {
    type V = NodeSpecView;

    closed spec fn view(&self) -> NodeSpecView {
        NodeSpecView { id: self.id@, endpoint: self.endpoint@, labels: self.labels@ }
    }
}

/// The bytes a node specification is stored as: identity and endpoint as
/// text fields, then the labels as a counted pair list.
pub open spec fn spec_encode_node(v: NodeSpecView) -> Seq<u8> {
    spec_encode_str(v.id) + spec_encode_str(v.endpoint) + spec_u64_to_le_bytes(
        v.labels.len() as u64,
    ) + spec_encode_pairs(v.labels)
}

/// What stored bytes decode to: the unique record they encode, or nothing.
/// Trailing bytes and repeated label keys are corrupt, not ignored.
pub open spec fn spec_decode_node(b: Seq<u8>) -> Option<NodeSpecView> {
    match spec_take_str(b) {
        Some((id, r1)) => match spec_take_str(r1) {
            Some((endpoint, r2)) => match spec_take_u64(r2) {
                Some((n, r3)) => match spec_take_pairs(r3, n as nat) {
                    Some((labels, r4)) => if r4.len() == 0 && unique_keys(labels) {
                        Some(NodeSpecView { id, endpoint, labels })
                    } else {
                        None
                    },
                    None => None,
                },
                None => None,
            },
            None => None,
        },
        None => None,
    }
}

/// Round trip of the storage encoding: decoding an encoded record returns
/// exactly that record.
pub proof fn lemma_node_round_trip(v: NodeSpecView)
    requires
        v.wf(),
    ensures
        spec_decode_node(spec_encode_node(v)) == Some(v),
{
    let e_id = spec_encode_str(v.id);
    let e_ep = spec_encode_str(v.endpoint);
    let cnt = spec_u64_to_le_bytes(v.labels.len() as u64);
    let e_ps = spec_encode_pairs(v.labels);
    assert(spec_encode_node(v) =~= e_id + (e_ep + (cnt + e_ps)));
    lemma_take_str_round_trip(v.id, e_ep + (cnt + e_ps));
    lemma_take_str_round_trip(v.endpoint, cnt + e_ps);
    lemma_take_u64_round_trip(v.labels.len() as u64, e_ps);
    lemma_take_pairs_round_trip(v.labels, Seq::empty());
    assert(e_ps + Seq::<u8>::empty() =~= e_ps);
}

impl NodeSpec {
    /// A new node specification; a total constructor, no validation: the
    /// endpoint is stored as given.
    pub fn new(id: NodeId, endpoint: String, labels: NodeLabels) -> (r: NodeSpec)
        ensures
            r@.id == id@,
            r@.endpoint == endpoint@,
            r@.labels == labels@,
    {
        NodeSpec { id, endpoint, labels }
    }

    /// Node identification.
    pub fn id(&self) -> (r: &NodeId)
        ensures
            r@ == self@.id,
    {
        &self.id
    }

    /// The endpoint of the node's control service.
    pub fn endpoint(&self) -> (r: &str)
        ensures
            r@ == self@.endpoint,
    {
        self.endpoint.as_str()
    }

    /// Replace the endpoint, as on reconnect under a new address; identity
    /// and labels are untouched.  No validation: the value is stored as
    /// given.
    pub fn set_endpoint(&mut self, endpoint: String)
        ensures
            final(self)@.endpoint == endpoint@,
            final(self)@.id == old(self)@.id,
            final(self)@.labels == old(self)@.labels,
    {
        self.endpoint = endpoint;
    }

    /// The operator labels.
    pub fn labels(&self) -> (r: &NodeLabels)
        ensures
            r@ == self@.labels,
    {
        &self.labels
    }
}

impl UuidString for NodeSpec {
    open spec fn spec_uuid(&self) -> Seq<char> {
        self@.id
    }

    fn uuid_as_string(&self) -> (s: String) {
        self.id.as_string()
    }
}

/// Key used by the store to uniquely identify a `NodeSpec` record: it wraps
/// exactly the record's identity and nothing else.
#[derive(Debug)]
pub struct NodeSpecKey {
    id: NodeId,
}

impl View for NodeSpecKey {
    type V = Seq<char>;

    closed spec fn view(&self) -> Seq<char> {
        self.id@
    }
}

impl NodeSpecKey {
    /// Key a record by a borrowed identity; the key owns its own copy.
    pub fn from_id(id: &NodeId) -> (r: NodeSpecKey)
        ensures
            r@ == id@,
    {
        NodeSpecKey { id: id.clone() }
    }
}

impl ObjectKey for NodeSpecKey {
    open spec fn spec_key_type(&self) -> StorableObjectType {
        StorableObjectType::NodeSpec
    }

    open spec fn spec_key_uuid(&self) -> Seq<char> {
        self@
    }

    fn key_type(&self) -> (t: StorableObjectType) {
        StorableObjectType::NodeSpec
    }

    fn key_uuid(&self) -> (s: String) {
        self.id.as_string()
    }
}

/// Whatever constructed a `NodeSpecKey`, its category is the node
/// specification tag; keys never cross entity kinds.
pub proof fn lemma_key_type_constant(k: NodeSpecKey)
    ensures
        k.spec_key_type() == StorableObjectType::NodeSpec,
{
}

/// A node specification is addressed by its identity alone: the key it
/// derives carries exactly the record's `id` string.
pub proof fn lemma_key_addresses_by_id(n: NodeSpec)
    ensures
        n.spec_key_uuid() == n@.id,
        n.spec_key_type() == StorableObjectType::NodeSpec,
{
}

impl StorableObject for NodeSpec {
    type Key = NodeSpecKey;

    open spec fn spec_decoded(bytes: Seq<u8>) -> Option<NodeSpecView> {
        spec_decode_node(bytes)
    }

    open spec fn spec_key_type(&self) -> StorableObjectType {
        StorableObjectType::NodeSpec
    }

    open spec fn spec_key_uuid(&self) -> Seq<char> {
        self@.id
    }

    fn key(&self) -> (k: NodeSpecKey) {
        NodeSpecKey { id: self.id.clone() }
    }

    fn serialize(&self) -> (bytes: Vec<u8>)
        ensures
            bytes@ == spec_encode_node(self@),
    {
        let mut out: Vec<u8> = Vec::new();
        write_str(&mut out, &self.id.text);
        write_str(&mut out, &self.endpoint);
        let entries = self.labels.entries();
        let n = entries.len();
        write_u64(&mut out, n as u64);
        let ghost ls = self@.labels;
        let ghost head = out@;
        for i in 0..n
            invariant
                n == ls.len(),
                n == entries@.len(),
                forall|j: int|
                    0 <= j < n ==> entries@[j].0@ == ls[j].0 && entries@[j].1@ == ls[j].1,
                out@ == head + spec_encode_pairs(ls.take(i as int)),
                forall|j: int|
                    0 <= j < i ==> encode_utf8(#[trigger] ls[j].0).len() <= u64::MAX && encode_utf8(
                        ls[j].1,
                    ).len() <= u64::MAX,
        {
            write_str(&mut out, &entries[i].0);
            write_str(&mut out, &entries[i].1);
            proof {
                lemma_encode_pairs_push(ls.take(i as int), ls[i as int]);
                assert(ls.take(i + 1) =~= ls.take(i as int).push(ls[i as int]));
                assert(out@ =~= head + spec_encode_pairs(ls.take(i + 1)));
            }
        }
        proof {
            use_type_invariant(&self.labels);
            assert(ls.take(n as int) =~= ls);
            assert(out@ =~= spec_encode_node(self@));
            assert(self@.wf());
            lemma_node_round_trip(self@);
        }
        out
    }

    fn deserialize(bytes: &[u8]) -> (r: Result<NodeSpec, DecodeError>) {
        proof {
            assert(bytes@.skip(0) =~= bytes@);
        }
        let (id_text, p1) = match read_str(bytes, 0) {
            Some(x) => x,
            None => {
                return Err(DecodeError::Corrupt);
            },
        };
        let (endpoint, p2) = match read_str(bytes, p1) {
            Some(x) => x,
            None => {
                return Err(DecodeError::Corrupt);
            },
        };
        let (n, p3) = match read_u64(bytes, p2) {
            Some(x) => x,
            None => {
                return Err(DecodeError::Corrupt);
            },
        };
        let (pairs, p4) = match read_pairs(bytes, p3, n) {
            Some(x) => x,
            None => {
                return Err(DecodeError::Corrupt);
            },
        };
        if p4 != bytes.len() {
            proof {
                assert(bytes@.skip(p4 as int).len() > 0);
            }
            return Err(DecodeError::Corrupt);
        }
        proof {
            assert(bytes@.skip(p4 as int).len() == 0);
        }
        let labels = match NodeLabels::from_pairs(pairs) {
            Some(l) => l,
            None => {
                return Err(DecodeError::Corrupt);
            },
        };
        Ok(NodeSpec { id: NodeId { text: id_text }, endpoint, labels })
    }
}

impl vstd::std_specs::cmp::PartialEqSpecImpl for NodeSpec {
    open spec fn obeys_eq_spec() -> bool {
        true
    }

    open spec fn eq_spec(&self, other: &NodeSpec) -> bool {
        self@.id == other@.id && self@.endpoint == other@.endpoint && labels_map(self@.labels)
            == labels_map(other@.labels)
    }
}

impl PartialEq for NodeSpec {
    /// Structural equality: the identities, endpoints and label maps all
    /// agree; differing in any one makes the records unequal.
    fn eq(&self, other: &NodeSpec) -> (r: bool) {
        self.id.eq(&other.id) && self.endpoint.eq(&other.endpoint) && self.labels.eq(&other.labels)
    }
}

/// Equality of node specifications is structural, field for field, with
/// labels compared as maps: two records with equal identity, endpoint and
/// label map are equal, and differing in any one of them makes them unequal.
pub proof fn lemma_eq_is_structural(a: NodeSpec, b: NodeSpec)
    ensures
        a.eq_spec(&b) <==> (a@.id == b@.id && a@.endpoint == b@.endpoint && labels_map(a@.labels)
            == labels_map(b@.labels)),
{
}

impl Default for NodeSpec {
    /// The default record: empty identity, empty endpoint, no labels.
    fn default() -> (r: NodeSpec)
        ensures
            r@.id == Seq::<char>::empty(),
            r@.endpoint == Seq::<char>::empty(),
            r@.labels == LabelSeq::empty(),
    {
        NodeSpec { id: NodeId { text: String::new() }, endpoint: String::new(), labels: NodeLabels::new() }
    }
}

/// What the external API's node-specification shape holds: identity and
/// endpoint only; the external schema has no label field.
pub ghost struct ApiNodeSpecView {
    pub id: Seq<char>,
    pub grpc_endpoint: Seq<char>,
}

/// The external API's node-specification shape.
#[derive(Debug)]
pub struct ApiNodeSpec {
    /// Node identification.
    pub id: String,
    /// Endpoint of the node's control service.
    pub grpc_endpoint: String,
}

impl View for ApiNodeSpec {
    type V = ApiNodeSpecView;

    open spec fn view(&self) -> ApiNodeSpecView {
        ApiNodeSpecView { id: self.id@, grpc_endpoint: self.grpc_endpoint@ }
    }
}

/// The external projection of a record: identity and endpoint carried over,
/// labels dropped.
pub open spec fn to_external_view(v: NodeSpecView) -> ApiNodeSpecView {
    ApiNodeSpecView { id: v.id, grpc_endpoint: v.endpoint }
}

/// The record an external shape reconstructs: identity and endpoint carried
/// over, labels empty, since the external shape has none to offer.
pub open spec fn from_external_view(a: ApiNodeSpecView) -> NodeSpecView {
    NodeSpecView { id: a.id, endpoint: a.grpc_endpoint, labels: LabelSeq::empty() }
}

/// Crossing to the external schema and back keeps identity and endpoint but
/// never the labels: the result's labels are empty whatever the original
/// carried.  Callers needing labels preserved must not round-trip through
/// the external shape.
pub proof fn lemma_external_round_trip_drops_labels(v: NodeSpecView)
    ensures
        from_external_view(to_external_view(v)).id == v.id,
        from_external_view(to_external_view(v)).endpoint == v.endpoint,
        from_external_view(to_external_view(v)).labels == LabelSeq::empty(),
{
}

impl NodeSpec {
    /// Project to the external API shape.  Lossy: labels are dropped, the
    /// external schema having no label field.
    pub fn to_external(&self) -> (r: ApiNodeSpec)
        ensures
            r@ == to_external_view(self@),
    {
        ApiNodeSpec { id: self.id.as_string(), grpc_endpoint: self.endpoint.clone() }
    }

    /// Adopt an external API shape as a record.  Labels come back empty:
    /// the external shape carries none to restore.
    pub fn from_external(src: ApiNodeSpec) -> (r: NodeSpec)
        ensures
            r@ == from_external_view(src@),
    {
        let r = NodeSpec {
            id: NodeId { text: src.id },
            endpoint: src.grpc_endpoint,
            labels: NodeLabels::new(),
        };
        proof {
            assert(r@ =~= from_external_view(src@));
        }
        r
    }
}

/// Operational status of a node as the runtime reports it.
#[derive(Clone, Copy, Debug, PartialEq, Eq, Structural)]
pub enum NodeStatus {
    /// No report yet.
    Unknown,
    /// The node answers on its endpoint.
    Online,
    /// The node stopped answering.
    Offline,
}

/// The live report on a node from the runtime: its identity, the endpoint
/// it answers on, and its status.  A read-side view, never persisted under
/// the key scheme of this crate.
#[derive(Debug)]
pub struct RuntimeNodeState {
    /// Node identification.
    pub id: NodeId,
    /// Endpoint the node currently answers on.
    pub grpc_endpoint: String,
    /// Deemed status of the node.
    pub status: NodeStatus,
}

/// A node as presented by the control plane: the live report composed with
/// the operator labels of its persisted specification.
#[derive(Debug)]
pub struct Node {
    /// Node information.
    node: RuntimeNodeState,
    /// Node labels.
    labels: NodeLabels,
}

impl Node {
    /// Compose a live report with labels.
    pub fn new(node: RuntimeNodeState, labels: NodeLabels) -> (r: Node)
        ensures
            r.spec_node() == node,
            r.spec_labels()@ == labels@,
    {
        Node { node, labels }
    }

    /// The live report.
    pub closed spec fn spec_node(&self) -> RuntimeNodeState {
        self.node
    }

    /// The labels.
    pub closed spec fn spec_labels(&self) -> NodeLabels {
        self.labels
    }

    /// Node information.
    pub fn node(&self) -> (r: &RuntimeNodeState)
        ensures
            *r == self.spec_node(),
    {
        &self.node
    }

    /// Node labels.
    pub fn labels(&self) -> (r: &NodeLabels)
        ensures
            *r == self.spec_labels(),
    {
        &self.labels
    }
}

/// The live status alone, composed alongside the persisted specification
/// but independent of its lifecycle.
#[derive(Debug)]
pub struct NodeState {
    /// Node information.
    pub node: RuntimeNodeState,
}

} // verus!
