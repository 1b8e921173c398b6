use pyama_rust::{Array6D, ArrayError, Dimensions, FrameAxis};

fn names(list: &[&str]) -> Vec<String> {
    list.iter().map(|s| s.to_string()).collect()
}

fn bits(v: f32) -> u32 {
    v.to_bits()
}

#[test]
fn test_dimensions_creation() {
    let dims = Dimensions::new(5, 1, 1, 3, 100, 100);
    assert_eq!(dims.time, 5);
    assert_eq!(dims.position, 1);
    assert_eq!(dims.z, 1);
    assert_eq!(dims.channel, 3);
    assert_eq!(dims.height, 100);
    assert_eq!(dims.width, 100);

    let dims_2d = Dimensions::new_2d(5, 1, 3, 100, 100);
    assert_eq!(dims_2d.z, 1);
}

#[test]
fn test_dimensions_validation() {
    let valid_dims = Dimensions::new(2, 1, 1, 2, 10, 10);
    assert!(valid_dims.validate().is_ok());

    let zero_dims = Dimensions::new(0, 1, 1, 2, 10, 10);
    assert!(zero_dims.validate().is_err());

    // Test memory limit
    let huge_dims = Dimensions::new(1000, 1, 1, 1, 1000, 1000);
    assert!(huge_dims.validate().is_err());
}

#[test]
fn dimensions_validation_errors_are_exact() {
    assert_eq!(Dimensions::new(1, 1, 1, 0, 4, 4).validate(), Err(ArrayError::Dimension));
    // 1000 * 1000 * 1000 samples of four bytes: 3814 MiB.
    assert_eq!(
        Dimensions::new(1000, 1, 1, 1, 1000, 1000).validate(),
        Err(ArrayError::Capacity { memory_mb: 3814 })
    );
    // Exactly 1024 MiB is allowed, one more sample row is not.
    assert_eq!(Dimensions::new(1, 1, 1, 1, 16384, 16384).validate(), Ok(()));
    // Whole MiB are compared: 1024.06 MiB rounds down to the ceiling.
    assert_eq!(Dimensions::new(1, 1, 1, 1, 16385, 16384).validate(), Ok(()));
    assert_eq!(
        Dimensions::new(1, 1, 1, 1, 16400, 16400).validate(),
        Err(ArrayError::Capacity { memory_mb: 1026 })
    );
    // A product beyond usize saturates the reported memory.
    assert_eq!(
        Dimensions::new(usize::MAX, 2, 1, 1, 1, 1).validate(),
        Err(ArrayError::Capacity { memory_mb: usize::MAX })
    );
}

#[test]
fn dimensions_totals_and_shape() {
    let dims = Dimensions::new(2, 3, 4, 5, 6, 7);
    assert_eq!(dims.total_elements(), 5040);
    assert_eq!(dims.shape(), [2, 3, 4, 5, 6, 7]);
    assert_eq!(dims.memory_mb(), 0);
    assert_eq!(Dimensions::new(0, 3, 4, 5, 6, 7).total_elements(), 0);
}

#[test]
fn test_array6d_creation() {
    let dims = Dimensions::new_2d(2, 1, 2, 4, 4);
    let data = vec![0u32; dims.total_elements()];
    let channel_names = vec!["Channel1".to_string(), "Channel2".to_string()];

    let array = Array6D::new(data, dims, 0.65f64.to_bits(), 1.0f64.to_bits(), channel_names, "uint16".to_string());

    assert!(array.is_ok());
    let array = array.unwrap();
    assert_eq!(array.dimensions().total_elements(), 2 * 1 * 1 * 2 * 4 * 4);
}

#[test]
fn construction_errors() {
    let dims = Dimensions::new_2d(2, 1, 2, 4, 4);
    let short = Array6D::new(vec![0u32; 63], dims, 0, 0, names(&["a", "b"]), String::new());
    assert!(matches!(short, Err(ArrayError::ShapeMismatch)));
    let wrong_names = Array6D::new(vec![0u32; 64], dims, 0, 0, names(&["a"]), String::new());
    assert!(matches!(wrong_names, Err(ArrayError::ChannelCount { names: 1, channels: 2 })));
    let bad_zeros = Array6D::zeros(Dimensions::new(1, 0, 1, 1, 2, 2), 0, 0, names(&["a"]), String::new());
    assert!(matches!(bad_zeros, Err(ArrayError::Dimension)));
    let zero_names = Array6D::zeros(dims, 0, 0, names(&["a", "b", "c"]), String::new());
    assert!(matches!(zero_names, Err(ArrayError::ChannelCount { names: 3, channels: 2 })));
}

#[test]
fn zeros_memory_and_accessors() {
    let dims = Dimensions::new(2, 1, 1, 2, 8, 8);
    let array = Array6D::zeros(dims, 0.65f64.to_bits(), 2.0f64.to_bits(), names(&["A", "B"]), "uint16".to_string())
        .unwrap();
    assert_eq!(array.memory_usage(), 2 * 2 * 8 * 8 * 4);
    assert_eq!(array.memory_usage(), dims.total_elements() * 4);
    assert_eq!(*array.dimensions(), dims);
    assert_eq!(f64::from_bits(array.pixel_size_um()), 0.65);
    assert_eq!(f64::from_bits(array.time_interval_s()), 2.0);
    assert_eq!(array.channel_names(), &["A".to_string(), "B".to_string()][..]);
    assert_eq!(array.data_type(), "uint16");
    assert!(array.data().iter().all(|&v| v == 0));
    assert_eq!(array.data().len(), 256);
}

#[test]
fn test_frame_access() {
    let dims = Dimensions::new_2d(2, 1, 2, 4, 4);
    let mut data = vec![0u32; dims.total_elements()];

    // Set some test data: sample (0, 0, 0, 0, 1, 1)
    data[1 * 4 + 1] = bits(42.0);

    let channel_names = vec!["Channel1".to_string(), "Channel2".to_string()];
    let array = Array6D::new(data, dims, 0.65f64.to_bits(), 1.0f64.to_bits(), channel_names, "uint16".to_string())
        .unwrap();

    let frame = array.get_frame(0, 0, 0, 0).unwrap();
    assert_eq!(f32::from_bits(frame[1 * 4 + 1]), 42.0);

    // Test bounds checking
    assert!(array.get_frame(2, 0, 0, 0).is_err());
    assert!(array.get_frame(0, 1, 0, 0).is_err());
    assert!(array.get_frame(0, 0, 1, 0).is_err());
    assert!(array.get_frame(0, 0, 0, 2).is_err());
}

#[test]
fn frame_is_row_major_slice_of_buffer() {
    let dims = Dimensions::new(2, 2, 1, 3, 2, 3);
    let buffer: Vec<u32> = (0..dims.total_elements() as u32).collect();
    let array = Array6D::new(buffer.clone(), dims, 0, 0, names(&["a", "b", "c"]), String::new()).unwrap();
    // frame (1, 0, 0, 2): frame index ((1*2+0)*1+0)*3+2 = 8, six samples each.
    let frame = array.get_frame(1, 0, 0, 2).unwrap();
    assert_eq!(frame, &buffer[48..54]);
    assert_eq!(frame.len(), 6);
    for y in 0..2 {
        for x in 0..3 {
            assert_eq!(frame[y * 3 + x], (48 + y * 3 + x) as u32);
        }
    }
    assert_eq!(array.get_frame(0, 0, 0, 0).unwrap(), &buffer[0..6]);
    assert_eq!(array.get_frame(1, 1, 0, 2).unwrap(), &buffer[66..72]);
}

#[test]
fn frame_index_boundaries() {
    let dims = Dimensions::new(3, 2, 1, 2, 2, 2);
    let array = Array6D::zeros(dims, 0, 0, names(&["a", "b"]), String::new()).unwrap();
    assert_eq!(
        array.get_frame(3, 0, 0, 0),
        Err(ArrayError::IndexOutOfBounds { axis: FrameAxis::Time, index: 3, extent: 3 })
    );
    assert_eq!(
        array.get_frame(0, 2, 0, 0),
        Err(ArrayError::IndexOutOfBounds { axis: FrameAxis::Position, index: 2, extent: 2 })
    );
    assert_eq!(
        array.get_frame(0, 0, 1, 0),
        Err(ArrayError::IndexOutOfBounds { axis: FrameAxis::Z, index: 1, extent: 1 })
    );
    assert_eq!(
        array.get_frame(0, 0, 0, 2),
        Err(ArrayError::IndexOutOfBounds { axis: FrameAxis::Channel, index: 2, extent: 2 })
    );
    // Axis of extent one: index zero is taken.
    assert!(array.get_frame(2, 1, 0, 1).is_ok());
}

#[test]
fn test_frame_setting() {
    let dims = Dimensions::new_2d(1, 1, 1, 3, 3);
    let data = vec![0u32; dims.total_elements()];
    let channel_names = vec!["Test".to_string()];

    let mut array = Array6D::new(data, dims, 0.65f64.to_bits(), 1.0f64.to_bits(), channel_names, "uint16".to_string())
        .unwrap();

    // Create test frame
    let test_frame = vec![bits(1.0); 9];

    assert!(array.set_frame(0, 0, 0, 0, (3, 3), &test_frame).is_ok());

    let retrieved_frame = array.get_frame(0, 0, 0, 0).unwrap();
    assert_eq!(f32::from_bits(retrieved_frame[0]), 1.0);
    assert_eq!(f32::from_bits(retrieved_frame[2 * 3 + 2]), 1.0);
}

#[test]
fn set_frame_touches_only_its_frame() {
    let dims = Dimensions::new(1, 1, 2, 2, 2, 2);
    let mut array = Array6D::zeros(dims, 0, 0, names(&["a", "b"]), String::new()).unwrap();
    let frame = vec![7u32, 8, 9, 10];
    assert_eq!(array.set_frame(0, 0, 1, 0, (2, 2), &frame), Ok(()));
    let expected: Vec<u32> = vec![0, 0, 0, 0, 0, 0, 0, 0, 7, 8, 9, 10, 0, 0, 0, 0];
    assert_eq!(array.data(), &expected[..]);
}

#[test]
fn set_frame_errors_leave_container_unchanged() {
    let dims = Dimensions::new(1, 1, 1, 1, 2, 2);
    let mut array = Array6D::zeros(dims, 0, 0, names(&["a"]), String::new()).unwrap();
    assert_eq!(
        array.set_frame(0, 0, 0, 0, (4, 1), &[1, 2, 3, 4]),
        Err(ArrayError::FrameShapeMismatch { height: 2, width: 2 })
    );
    assert_eq!(
        array.set_frame(0, 0, 0, 0, (2, 2), &[1, 2, 3]),
        Err(ArrayError::FrameShapeMismatch { height: 2, width: 2 })
    );
    assert_eq!(
        array.set_frame(1, 0, 0, 0, (2, 2), &[1, 2, 3, 4]),
        Err(ArrayError::IndexOutOfBounds { axis: FrameAxis::Time, index: 1, extent: 1 })
    );
    assert_eq!(array.data(), &[0u32, 0, 0, 0][..]);
}
