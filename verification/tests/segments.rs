use nimbis_storage::segment::NimbisSegmentExtractor;
use nimbis_storage::segment::Segment;
use nimbis_storage::segment::SegmentTarget;

#[test]
fn segment_keys_are_one_byte_prefixes_over_existing_payloads() {
	let payload = b"\x00\x04user\x00\x05field".to_vec();
	let encoded = Segment::Hash.wrap(&payload);

	assert_eq!(encoded, b"h\x00\x04user\x00\x05field".to_vec());
	assert_eq!(Segment::Hash.strip(&encoded), Some(payload));
	assert_eq!(Segment::SetType.strip(&encoded), None);
}

#[test]
fn segment_extractor_routes_by_first_byte() {
	let extractor = NimbisSegmentExtractor;

	assert_eq!(extractor.name(), "nimbis-storage-segment-v1");
	assert_eq!(
		extractor.prefix_len(&SegmentTarget::Point(b"h\x00\x04user".to_vec())),
		Some(1)
	);
	assert_eq!(extractor.prefix_len(&SegmentTarget::Prefix(b"h".to_vec())), Some(1));
	assert_eq!(extractor.prefix_len(&SegmentTarget::Prefix(Vec::new())), None);
}

#[test]
fn every_segment_has_its_own_prefix() {
	let all = [Segment::Meta, Segment::Hash, Segment::List, Segment::SetType, Segment::ZSet];
	let prefixes: Vec<u8> = all.iter().map(|s| s.prefix()).collect();
	assert_eq!(prefixes, b"mhlSz".to_vec());
	for s in all {
		let wrapped = s.wrap(b"p");
		for o in all {
			if o == s {
				assert_eq!(o.strip(&wrapped), Some(b"p".to_vec()));
			} else {
				assert_eq!(o.strip(&wrapped), None);
			}
		}
	}
	assert_eq!(Segment::Meta.strip(b""), None);
	assert_eq!(Segment::Meta.strip(b"m"), Some(Vec::new()));
}
