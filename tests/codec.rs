use pyama_rust::{
    decode_array, decode_samples, encode_payload, encode_samples, estimate_file_size, validate_parts, Array6D,
    ArrayError, ArrayGenerator, ArrayMetadata, Dimensions, MicroscopyMetadata,
};

/// Two time points, two uniform channels at 50 and 150 with additive noise
/// of amplitude 5, 8 by 8 frames.
fn minimal_array() -> Array6D {
    let dims = Dimensions::new_2d(2, 1, 2, 8, 8);
    let names = vec!["Test1".to_string(), "Test2".to_string()];
    let noise_level = 5.0f32;
    ArrayGenerator::generate(
        dims,
        names,
        0.65f64.to_bits(),
        1.0f64.to_bits(),
        "uint16".to_string(),
        |_t, _p, _z, c, _y, _x| {
            let base = if c == 0 { 50.0f32 } else { 150.0f32 };
            let noise = (fastrand::f32() - 0.5) * 2.0 * noise_level;
            (base + noise).max(0.0).to_bits()
        },
    )
    .unwrap()
}

#[test]
fn test_file_size_estimation() {
    let array = minimal_array();
    let file_size = estimate_file_size(&array);

    // Should be reasonable size (data + metadata overhead)
    let expected_data_size = array.memory_usage();
    assert!(file_size > expected_data_size); // Should include metadata overhead
    assert!(file_size > 1024); // Should be at least 1KB due to metadata
}

#[test]
fn file_size_estimate_is_exact() {
    let array = minimal_array();
    assert_eq!(estimate_file_size(&array), 1024 + 2048);
}

#[test]
fn test_metadata_content() {
    let array = minimal_array();
    let metadata = ArrayMetadata::from(&array);

    // Check metadata fields
    assert_eq!(metadata.dimensions.time, 2);
    assert_eq!(metadata.dimensions.channel, 2);
    assert_eq!(metadata.format_version, "1.0");
    assert!(!metadata.created_at.is_empty());
    assert_eq!(metadata.channel_names.len(), 2);
}

#[test]
fn metadata_copies_the_container() {
    let array = minimal_array();
    let metadata = ArrayMetadata::from(&array);
    assert_eq!(metadata.dimensions, *array.dimensions());
    assert_eq!(metadata.channel_names, vec!["Test1".to_string(), "Test2".to_string()]);
    assert_eq!(f64::from_bits(metadata.pixel_size_um), 0.65);
    assert_eq!(f64::from_bits(metadata.time_interval_s), 1.0);
    assert_eq!(metadata.data_type, "uint16");
    assert_eq!(metadata.created_at, "2024-01-01T00:00:00Z");
}

#[test]
fn samples_encode_little_endian() {
    assert_eq!(encode_samples(&[0x0403_0201, 0xA0B0_C0D0]), vec![1, 2, 3, 4, 0xD0, 0xC0, 0xB0, 0xA0]);
    assert_eq!(encode_samples(&[1.0f32.to_bits()]), 1.0f32.to_le_bytes().to_vec());
    assert_eq!(decode_samples(&[1, 2, 3, 4, 0xD0, 0xC0, 0xB0, 0xA0]), vec![0x0403_0201, 0xA0B0_C0D0]);
    assert!(encode_samples(&[]).is_empty());
    assert!(decode_samples(&[]).is_empty());
}

#[test]
fn save_and_reload_scenario() {
    let array = minimal_array();
    let metadata = ArrayMetadata::from(&array);
    let payload = encode_payload(&array);
    // Four bytes for each of the 2 * 1 * 1 * 2 * 8 * 8 = 256 samples.
    assert_eq!(payload.len(), 2 * 1 * 1 * 2 * 8 * 8 * 4);
    assert_eq!(payload.len(), 1024);

    let loaded = decode_array(metadata, &payload).unwrap();
    assert_eq!(loaded.dimensions(), array.dimensions());
    assert_eq!(loaded.channel_names(), array.channel_names());
    assert_eq!(loaded.pixel_size_um(), array.pixel_size_um());
    assert_eq!(loaded.time_interval_s(), array.time_interval_s());
    assert_eq!(loaded.data(), array.data());
    assert_eq!(encode_payload(&loaded), payload);

    let orig_frame = array.get_frame(0, 0, 0, 0).unwrap();
    let loaded_frame = loaded.get_frame(0, 0, 0, 0).unwrap();
    assert_eq!(orig_frame[0], loaded_frame[0]);
    assert_eq!(orig_frame[7 * 8 + 7], loaded_frame[7 * 8 + 7]);
}

#[test]
fn decode_rejects_wrong_payload_size() {
    let array = minimal_array();
    let metadata = ArrayMetadata::from(&array);
    let mut payload = encode_payload(&array);
    payload.pop();
    assert!(matches!(
        decode_array(metadata, &payload),
        Err(ArrayError::SizeMismatch { expected: 1024, actual: 1023 })
    ));
}

#[test]
fn validate_parts_checks_size_only() {
    let array = minimal_array();
    let metadata = ArrayMetadata::from(&array);
    let checked = validate_parts(metadata, 1024).unwrap();
    assert_eq!(checked.dimensions, *array.dimensions());
    assert_eq!(checked.channel_names, array.channel_names());
    // Called again on the same inputs it answers the same.
    let again = validate_parts(checked, 1024).unwrap();
    assert_eq!(again.dimensions, *array.dimensions());
    let metadata = ArrayMetadata::from(&array);
    assert!(matches!(
        validate_parts(metadata, 4096),
        Err(ArrayError::SizeMismatch { expected: 1024, actual: 4096 })
    ));
}

#[test]
fn summary_reports_memory_in_mib() {
    let array = minimal_array();
    let summary = MicroscopyMetadata::from(&array);
    assert_eq!(summary.file_path, "");
    assert_eq!(summary.memory_usage_mb, 0);
    assert_eq!(summary.channel_names.len(), 2);
    let dims = Dimensions::new(3, 1, 1, 2, 512, 512);
    let array = Array6D::zeros(dims, 0, 0, vec!["a".to_string(), "b".to_string()], String::new()).unwrap();
    let summary = MicroscopyMetadata::from_metadata("x.meta".to_string(), ArrayMetadata::from(&array));
    assert_eq!(summary.memory_usage_mb, 6);
    assert_eq!(summary.file_path, "x.meta");
    assert_eq!(summary.dimensions.time, 3);
}
