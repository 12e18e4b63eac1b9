use hackernews::hydrate::hydrate_island;
use hackernews::island::decode_payload;
use hackernews::island::encode_payload;
use hackernews::island::IslandPayload;
use hackernews::island::Prop;
use hackernews::reactive::CellStore;

fn slider_payload() -> IslandPayload {
    IslandPayload {
        tag: 7,
        props: vec![
            Prop { name: b"initial_position".to_vec(), value: vec![1] },
            Prop { name: b"style".to_vec(), value: Vec::new() },
        ],
    }
}

fn assert_payload_eq(a: &IslandPayload, b: &IslandPayload) {
    assert_eq!(a.tag, b.tag);
    assert_eq!(a.props.len(), b.props.len());
    for (pa, pb) in a.props.iter().zip(b.props.iter()) {
        assert_eq!(pa.name, pb.name);
        assert_eq!(pa.value, pb.value);
    }
}

#[test]
fn payload_round_trips_field_for_field() {
    let p = slider_payload();
    let bytes = encode_payload(&p);
    let q = decode_payload(&bytes).expect("valid encoding decodes");
    assert_payload_eq(&p, &q);
    // And byte-for-byte: re-encoding the decoded payload gives the same wire
    // bytes.
    assert_eq!(encode_payload(&q), bytes);
}

#[test]
fn empty_payload_round_trips() {
    let p = IslandPayload { tag: 0, props: Vec::new() };
    let bytes = encode_payload(&p);
    assert_eq!(bytes.len(), 16);
    let q = decode_payload(&bytes).expect("valid encoding decodes");
    assert_payload_eq(&p, &q);
}

#[test]
fn tag_is_low_little_endian_word() {
    let p = IslandPayload { tag: 0x0102, props: Vec::new() };
    let bytes = encode_payload(&p);
    assert_eq!(&bytes[0..8], &[0x02, 0x01, 0, 0, 0, 0, 0, 0]);
    // One prop follows the two header words.
    let q = IslandPayload { tag: 0, props: vec![Prop { name: vec![b'x'], value: vec![9] }] };
    let qb = encode_payload(&q);
    assert_eq!(qb[8], 1); // prop count
    assert_eq!(qb[16], 1); // name length
    assert_eq!(qb[24], b'x');
}

#[test]
fn malformed_payloads_are_rejected() {
    let p = slider_payload();
    let bytes = encode_payload(&p);
    let mut truncated = bytes.clone();
    truncated.pop();
    assert!(decode_payload(&truncated).is_none());
    let mut trailing = bytes.clone();
    trailing.push(0);
    assert!(decode_payload(&trailing).is_none());
    assert!(decode_payload(&vec![1, 2, 3]).is_none());
}

#[test]
fn islands_hydrate_independently() {
    let mut st = CellStore::new();
    let a = hydrate_island(&mut st, 0, &slider_payload()).expect("hydrates");
    let b = hydrate_island(&mut st, 0, &slider_payload()).expect("hydrates");
    assert_eq!(a.cells.len(), 2);
    assert_eq!(b.cells.len(), 2);
    // Mutating state inside island a notifies a's render computation and
    // nothing of island b, and the other way round.
    let notified = st.write(a.cells[0], 123).unwrap();
    assert!(notified.contains(&a.comp));
    assert!(!notified.contains(&b.comp));
    let notified_b = st.write(b.cells[1], 4).unwrap();
    assert!(notified_b.contains(&b.comp));
    assert!(!notified_b.contains(&a.comp));
}

#[test]
fn hydration_seeds_cells_from_props_alone() {
    let mut st = CellStore::new();
    let p = IslandPayload {
        tag: 1,
        props: vec![
            Prop { name: b"count".to_vec(), value: vec![5] },
            Prop { name: b"word".to_vec(), value: vec![0x02, 0x01, 0, 0, 0, 0, 0, 0, 0xff] },
        ],
    };
    let isl = hydrate_island(&mut st, 0, &p).expect("hydrates");
    assert_eq!(st.read(isl.cells[0]).unwrap(), 5);
    // Only the 8-byte little-endian prefix seeds the cell.
    assert_eq!(st.read(isl.cells[1]).unwrap(), 0x0102);
}
