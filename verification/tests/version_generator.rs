use nimbis_storage::version::next_version;
use nimbis_storage::version::VersionGenerator;

#[test]
fn test_version_monotonicity() {
	let generator = VersionGenerator::new();
	let mut prev = 0;
	for _ in 0..1000 {
		let v = generator.next();
		assert!(v > prev, "Version should be strictly increasing");
		prev = v;
	}
}

#[test]
fn test_version_layout_uses_11_bit_counter() {
	let generator = VersionGenerator::new();
	let version = generator.next();

	assert_ne!(version >> 11, 0);
	assert_eq!(
		version & !VersionGenerator::COUNTER_MASK,
		(version >> 11) << 11
	);
}

#[test]
fn next_version_falls_back_to_the_successor_when_the_clock_stalls() {
	let last = (1000u64 << 11) | 5;
	assert_eq!(next_version(last, 1000), (1000 << 11) | 6);
	assert_eq!(next_version(last, 999), last + 1);
	assert_eq!(next_version(last, 2000), (2000 << 11) | 6);
	let full_counter = (1000u64 << 11) | 0x7FF;
	assert_eq!(next_version(full_counter, 1000), full_counter + 1);
}
