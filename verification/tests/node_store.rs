use node_store::store::DecodeError;
use node_store::store::ObjectKey;
use node_store::store::StorableObject;
use node_store::store::StorableObjectType;
use node_store::store::UuidString;
use node_store::Node;
use node_store::NodeId;
use node_store::NodeLabels;
use node_store::NodeSpec;
use node_store::NodeSpecKey;
use node_store::NodeStatus;
use node_store::RuntimeNodeState;

fn labels_from(pairs: &[(&str, &str)]) -> NodeLabels {
    let mut labels = NodeLabels::new();
    for (k, v) in pairs {
        labels.insert(k.to_string(), v.to_string());
    }
    labels
}

fn sample_spec() -> NodeSpec {
    NodeSpec::new(
        NodeId::new("node-1".to_string()),
        "10.0.0.5:10124".to_string(),
        labels_from(&[("zone", "a")]),
    )
}

#[test]
fn key_uuid_equals_id_string() {
    let spec = sample_spec();
    assert_eq!(spec.key().key_uuid(), "node-1".to_string());
    assert_eq!(spec.uuid_as_string(), "node-1".to_string());
}

#[test]
fn serialize_round_trip() {
    let spec = sample_spec();
    let bytes = spec.serialize();
    let back = NodeSpec::deserialize(&bytes);
    assert_eq!(back, Ok(sample_spec()));
}

#[test]
fn serialize_round_trip_empty_fields() {
    let spec = NodeSpec::new(NodeId::new(String::new()), String::new(), NodeLabels::new());
    let bytes = spec.serialize();
    let back = NodeSpec::deserialize(&bytes).unwrap();
    assert_eq!(
        back,
        NodeSpec::new(NodeId::new(String::new()), String::new(), NodeLabels::new())
    );
}

#[test]
fn serialize_round_trip_multibyte_text() {
    let spec = NodeSpec::new(
        NodeId::new("nœud-1".to_string()),
        "höst:10124".to_string(),
        labels_from(&[("zøne", "ä"), ("rack", "12")]),
    );
    let bytes = spec.serialize();
    let back = NodeSpec::deserialize(&bytes).unwrap();
    assert_eq!(back.id().as_str(), "nœud-1");
    assert_eq!(back.endpoint(), "höst:10124");
    assert_eq!(back.labels().get("zøne"), Some(&"ä".to_string()));
}

#[test]
fn external_round_trip_loses_labels() {
    let spec = sample_spec();
    let external = spec.to_external();
    let back = NodeSpec::from_external(external);
    assert!(!spec.labels().is_empty());
    assert!(back.labels().is_empty());
    assert_eq!(back.id().as_str(), "node-1");
    assert_eq!(back.endpoint(), "10.0.0.5:10124");
}

#[test]
fn key_type_constant_on_every_construction_path() {
    let spec = sample_spec();
    assert_eq!(spec.key().key_type(), StorableObjectType::NodeSpec);
    let id = NodeId::new("other".to_string());
    assert_eq!(NodeSpecKey::from_id(&id).key_type(), StorableObjectType::NodeSpec);
    assert_eq!(NodeSpecKey::from_id(&id).key_uuid(), "other".to_string());
}

#[test]
fn set_endpoint_changes_only_the_endpoint() {
    let mut spec = sample_spec();
    spec.set_endpoint("10.0.0.9:10124".to_string());
    assert_eq!(spec.endpoint(), "10.0.0.9:10124");
    assert_eq!(spec.id().as_str(), "node-1");
    assert_eq!(spec.labels().get("zone"), Some(&"a".to_string()));
    assert_eq!(spec.labels().len(), 1);
}

#[test]
fn equality_is_structural() {
    let a = sample_spec();
    let b = sample_spec();
    assert_eq!(a, b);
    let other_id = NodeSpec::new(
        NodeId::new("node-2".to_string()),
        "10.0.0.5:10124".to_string(),
        labels_from(&[("zone", "a")]),
    );
    assert_ne!(a, other_id);
    let other_endpoint = NodeSpec::new(
        NodeId::new("node-1".to_string()),
        "10.0.0.6:10124".to_string(),
        labels_from(&[("zone", "a")]),
    );
    assert_ne!(a, other_endpoint);
    let other_labels = NodeSpec::new(
        NodeId::new("node-1".to_string()),
        "10.0.0.5:10124".to_string(),
        labels_from(&[("zone", "b")]),
    );
    assert_ne!(a, other_labels);
}

#[test]
fn equality_of_labels_ignores_insertion_order() {
    let a = NodeSpec::new(
        NodeId::new("n".to_string()),
        "e".to_string(),
        labels_from(&[("zone", "a"), ("rack", "7")]),
    );
    let b = NodeSpec::new(
        NodeId::new("n".to_string()),
        "e".to_string(),
        labels_from(&[("rack", "7"), ("zone", "a")]),
    );
    assert_eq!(a, b);
}

#[test]
fn scenario_node_one() {
    let spec = sample_spec();
    assert_eq!(spec.key().key_uuid(), "node-1".to_string());
    let external = spec.to_external();
    assert_eq!(external.id, "node-1".to_string());
    assert_eq!(external.grpc_endpoint, "10.0.0.5:10124".to_string());
    let back = NodeSpec::from_external(external);
    assert_eq!(back.id().as_str(), "node-1");
    assert_eq!(back.endpoint(), "10.0.0.5:10124");
    assert!(back.labels().is_empty());
}

#[test]
fn labels_insert_replaces_existing_key() {
    let mut labels = labels_from(&[("zone", "a")]);
    labels.insert("zone".to_string(), "b".to_string());
    assert_eq!(labels.len(), 1);
    assert_eq!(labels.get("zone"), Some(&"b".to_string()));
    labels.insert("rack".to_string(), "7".to_string());
    assert_eq!(labels.len(), 2);
    assert_eq!(labels.get("rack"), Some(&"7".to_string()));
    assert_eq!(labels.get("absent"), None);
}

#[test]
fn labels_from_pairs_rejects_duplicates() {
    let unique = vec![
        ("zone".to_string(), "a".to_string()),
        ("rack".to_string(), "7".to_string()),
    ];
    assert!(NodeLabels::from_pairs(unique).is_some());
    let duplicated = vec![
        ("zone".to_string(), "a".to_string()),
        ("zone".to_string(), "b".to_string()),
    ];
    assert!(NodeLabels::from_pairs(duplicated).is_none());
}

fn encode_text_field(out: &mut Vec<u8>, text: &[u8]) {
    out.extend_from_slice(&(text.len() as u64).to_le_bytes());
    out.extend_from_slice(text);
}

#[test]
fn deserialize_rejects_empty_input() {
    assert_eq!(NodeSpec::deserialize(&[]), Err(DecodeError::Corrupt));
}

#[test]
fn deserialize_rejects_truncation() {
    let bytes = sample_spec().serialize();
    for cut in 0..bytes.len() {
        let r = NodeSpec::deserialize(&bytes[..cut]);
        assert_eq!(r, Err(DecodeError::Corrupt));
    }
}

#[test]
fn deserialize_rejects_trailing_bytes() {
    let mut bytes = sample_spec().serialize();
    bytes.push(0);
    assert_eq!(NodeSpec::deserialize(&bytes), Err(DecodeError::Corrupt));
}

#[test]
fn deserialize_rejects_invalid_utf8() {
    let mut bytes = Vec::new();
    encode_text_field(&mut bytes, &[0xff]);
    encode_text_field(&mut bytes, b"endpoint");
    bytes.extend_from_slice(&0u64.to_le_bytes());
    assert_eq!(NodeSpec::deserialize(&bytes), Err(DecodeError::Corrupt));
}

#[test]
fn deserialize_rejects_duplicate_label_keys() {
    let mut bytes = Vec::new();
    encode_text_field(&mut bytes, b"node-1");
    encode_text_field(&mut bytes, b"10.0.0.5:10124");
    bytes.extend_from_slice(&2u64.to_le_bytes());
    encode_text_field(&mut bytes, b"zone");
    encode_text_field(&mut bytes, b"a");
    encode_text_field(&mut bytes, b"zone");
    encode_text_field(&mut bytes, b"b");
    assert_eq!(NodeSpec::deserialize(&bytes), Err(DecodeError::Corrupt));
}

#[test]
fn deserialize_accepts_hand_built_record() {
    let mut bytes = Vec::new();
    encode_text_field(&mut bytes, b"node-1");
    encode_text_field(&mut bytes, b"10.0.0.5:10124");
    bytes.extend_from_slice(&1u64.to_le_bytes());
    encode_text_field(&mut bytes, b"zone");
    encode_text_field(&mut bytes, b"a");
    assert_eq!(NodeSpec::deserialize(&bytes), Ok(sample_spec()));
}

#[test]
fn default_spec_is_empty() {
    let spec = NodeSpec::default();
    assert_eq!(spec.id().as_str(), "");
    assert_eq!(spec.endpoint(), "");
    assert!(spec.labels().is_empty());
}

#[test]
fn node_composes_live_state_with_labels() {
    let state = RuntimeNodeState {
        id: NodeId::new("node-1".to_string()),
        grpc_endpoint: "10.0.0.5:10124".to_string(),
        status: NodeStatus::Online,
    };
    let node = Node::new(state, labels_from(&[("zone", "a")]));
    assert_eq!(node.node().id.as_str(), "node-1");
    assert_eq!(node.node().status, NodeStatus::Online);
    assert_eq!(node.labels().get("zone"), Some(&"a".to_string()));
}

#[test]
fn labels_duplicate_is_equal() {
    let labels = labels_from(&[("zone", "a"), ("rack", "7")]);
    let copy = labels.duplicate();
    assert_eq!(copy.len(), 2);
    assert!(labels == copy);
}

#[test]
fn node_id_equality_and_text() {
    let a = NodeId::new("node-1".to_string());
    let b = a.clone();
    assert_eq!(a, b);
    assert_ne!(a, NodeId::new("node-2".to_string()));
    assert_eq!(a.as_string(), "node-1".to_string());
}
