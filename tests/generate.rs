use pyama_rust::{ArrayError, ArrayGenerator, Dimensions};

#[test]
fn generate_places_each_sample_at_its_coordinates() {
    let dims = Dimensions::new(2, 2, 2, 2, 3, 4);
    let names = vec!["a".to_string(), "b".to_string()];
    let array = ArrayGenerator::generate(dims, names, 0, 0, String::new(), |t, p, z, c, y, x| {
        (t * 100000 + p * 10000 + z * 1000 + c * 100 + y * 10 + x) as u32
    })
    .unwrap();
    for t in 0..2 {
        for p in 0..2 {
            for z in 0..2 {
                for c in 0..2 {
                    let frame = array.get_frame(t, p, z, c).unwrap();
                    for y in 0..3 {
                        for x in 0..4 {
                            let want = (t * 100000 + p * 10000 + z * 1000 + c * 100 + y * 10 + x) as u32;
                            assert_eq!(frame[y * 4 + x], want);
                        }
                    }
                }
            }
        }
    }
}

#[test]
fn uniform_source_without_noise_gives_its_value() {
    let dims = Dimensions::new_2d(1, 1, 1, 4, 4);
    let array = ArrayGenerator::generate(dims, vec!["Uniform".to_string()], 0, 0, String::new(), |_, _, _, _, _, _| {
        42.0f32.to_bits()
    })
    .unwrap();
    let frame = array.get_frame(0, 0, 0, 0).unwrap();
    assert!(frame.iter().all(|&v| f32::from_bits(v) == 42.0));
}

#[test]
fn generate_checks_shape_and_channel_count() {
    let dims = Dimensions::new_2d(1, 1, 3, 4, 4);
    let two = vec!["Only1".to_string(), "Only2".to_string()];
    assert!(matches!(
        ArrayGenerator::generate(dims, two, 0, 0, String::new(), |_, _, _, _, _, _| 0),
        Err(ArrayError::ChannelPatternCount { patterns: 2, channels: 3 })
    ));
    let bad = Dimensions::new(1, 1, 1, 1, 0, 4);
    assert!(matches!(
        ArrayGenerator::generate(bad, vec!["a".to_string()], 0, 0, String::new(), |_, _, _, _, _, _| 0),
        Err(ArrayError::Dimension)
    ));
}
