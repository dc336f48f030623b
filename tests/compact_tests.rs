use cairo_air::compact::{decode_compact, encode_compact};

fn elem(seed: u8) -> [u8; 32] {
    let mut a = [0u8; 32];
    for (i, b) in a.iter_mut().enumerate() {
        *b = seed.wrapping_add(i as u8);
    }
    a
}

#[test]
fn empty_proof_is_only_a_header() {
    let bytes = encode_compact(&Vec::new()).unwrap();
    assert_eq!(bytes, vec![0u8]);
    assert_eq!(decode_compact(&bytes), Some(Vec::new()));
}

#[test]
fn one_element_is_count_then_bytes() {
    let e = elem(5);
    let bytes = encode_compact(&vec![e]).unwrap();
    assert_eq!(bytes.len(), 33);
    assert_eq!(bytes[0], 1);
    assert_eq!(&bytes[1..], &e[..]);
}

#[test]
fn count_prefix_widths() {
    let b = encode_compact(&vec![elem(0); 250]).unwrap();
    assert_eq!(b[0], 250);
    assert_eq!(b.len(), 1 + 250 * 32);
    let b = encode_compact(&vec![elem(0); 251]).unwrap();
    assert_eq!(&b[..3], &[251, 251, 0]);
    assert_eq!(b.len(), 3 + 251 * 32);
    let b = encode_compact(&vec![elem(0); 65536]).unwrap();
    assert_eq!(&b[..5], &[252, 0, 0, 1, 0]);
    assert_eq!(b.len(), 5 + 65536 * 32);
}

#[test]
fn compact_round_trip() {
    for n in [0usize, 1, 2, 250, 251, 300, 70000] {
        let elems: Vec<[u8; 32]> = (0..n).map(|i| elem(i as u8)).collect();
        let bytes = encode_compact(&elems).unwrap();
        assert_eq!(decode_compact(&bytes), Some(elems));
    }
}

#[test]
fn malformed_encodings_are_refused() {
    assert_eq!(decode_compact(&[]), None);
    assert_eq!(decode_compact(&[1]), None);
    assert_eq!(decode_compact(&[0, 7]), None);
    assert_eq!(decode_compact(&[251, 1]), None);
    assert_eq!(decode_compact(&[254, 0, 0]), None);
    let mut bytes = encode_compact(&vec![elem(1), elem(2)]).unwrap();
    bytes.pop();
    assert_eq!(decode_compact(&bytes), None);
}

#[test]
fn long_prefix_forms_decode() {
    let mut bytes = vec![253, 1, 0, 0, 0, 0, 0, 0, 0];
    bytes.extend_from_slice(&elem(3));
    assert_eq!(decode_compact(&bytes), Some(vec![elem(3)]));
    let mut bytes = vec![251, 1, 0];
    bytes.extend_from_slice(&elem(4));
    assert_eq!(decode_compact(&bytes), Some(vec![elem(4)]));
}
