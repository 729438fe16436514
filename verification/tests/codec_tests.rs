use isolate_boot::codec::{ImageError, decode_sections, encode_sections};
use isolate_boot::registry::{ExtensionDescriptor, compose};
use isolate_boot::snapshot::{build, parse_snapshot_image, snapshot_image};

#[test]
fn sections_round_trip() {
    let sections: Vec<Vec<u8>> = vec![vec![1, 2, 3], vec![], vec![255, 0, 127]];
    let image = encode_sections(&sections);
    let back = decode_sections(&image).ok().unwrap();
    assert_eq!(back, sections);
}

#[test]
fn empty_section_list_round_trips() {
    let sections: Vec<Vec<u8>> = Vec::new();
    let image = encode_sections(&sections);
    assert_eq!(image, vec![0u8, 0, 0, 0]);
    let back = decode_sections(&image).ok().unwrap();
    assert!(back.is_empty());
}

#[test]
fn exact_layout_of_one_section() {
    let sections: Vec<Vec<u8>> = vec![vec![0xaa, 0xbb]];
    let image = encode_sections(&sections);
    assert_eq!(image, vec![1u8, 0, 0, 0, 2, 0, 0, 0, 0xaa, 0xbb]);
}

#[test]
fn malformed_images_are_rejected() {
    // Too short for a count word.
    assert_eq!(decode_sections(&vec![1u8, 0]).err(), Some(ImageError::Malformed));
    // Count says one section, no length word follows.
    assert_eq!(decode_sections(&vec![1u8, 0, 0, 0]).err(), Some(ImageError::Malformed));
    // Length word larger than the remaining bytes.
    assert_eq!(
        decode_sections(&vec![1u8, 0, 0, 0, 9, 0, 0, 0, 1]).err(),
        Some(ImageError::Malformed)
    );
    // Trailing bytes after the recorded sections.
    assert_eq!(
        decode_sections(&vec![0u8, 0, 0, 0, 5]).err(),
        Some(ImageError::Malformed)
    );
}

#[test]
fn snapshot_image_round_trips_at_the_byte_level() {
    let descs = vec![
        ExtensionDescriptor {
            name: "base".to_string(),
            deps: Vec::new(),
            sources: vec!["globalThis.base = 1;".to_string()],
            op_names: vec!["op_base".to_string()],
            init_requests: Vec::new(),
        },
        ExtensionDescriptor {
            name: "console".to_string(),
            deps: vec!["base".to_string()],
            sources: vec!["console = {};".to_string()],
            op_names: Vec::new(),
            init_requests: Vec::new(),
        },
    ];
    let registry = compose(descs).ok().unwrap();
    let snap = build(&registry).ok().unwrap();
    let image = snapshot_image(&snap);
    let raw = parse_snapshot_image(&image).ok().unwrap();
    assert_eq!(raw.fingerprint, vec![b"base".to_vec(), b"console".to_vec()]);
    assert_eq!(
        raw.bindings,
        vec![b"globalThis.base = 1;".to_vec(), b"console = {};".to_vec()]
    );
}

#[test]
fn a_clipped_snapshot_image_is_rejected() {
    let snap = isolate_boot::snapshot::load(
        vec!["base".to_string()],
        vec!["x".to_string()],
    );
    let mut image = snapshot_image(&snap);
    image.pop();
    assert!(parse_snapshot_image(&image).is_err());
}
