use zelfm::{copy_plane, deinterleave, interleave, shape_channels, upmix_mono};

#[test]
fn deinterleave_splits_frames_into_planes() {
    let data = [1, 2, 3, 4, 5, 6];
    assert_eq!(deinterleave(&data, 2), vec![vec![1, 3, 5], vec![2, 4, 6]]);
    assert_eq!(deinterleave(&data, 3), vec![vec![1, 4], vec![2, 5], vec![3, 6]]);
    assert_eq!(deinterleave(&data, 1), vec![vec![1, 2, 3, 4, 5, 6]]);
}

#[test]
fn deinterleave_gives_a_partial_frame_to_the_first_channels() {
    let data = [10, 20, 30, 40, 50];
    assert_eq!(deinterleave(&data, 3), vec![vec![10, 40], vec![20, 50], vec![30]]);
}

#[test]
fn deinterleave_of_nothing_gives_empty_planes() {
    let data: [i16; 0] = [];
    assert_eq!(deinterleave(&data, 2), vec![Vec::<i16>::new(), Vec::new()]);
}

#[test]
fn deinterleave_works_on_float_samples() {
    let data = [0.5f32, -0.5, 0.25, -0.25];
    let planes = deinterleave(&data, 2);
    assert_eq!(planes, vec![vec![0.5f32, 0.25], vec![-0.5, -0.25]]);
}

#[test]
fn interleave_weaves_planes_frame_by_frame() {
    let planes = vec![vec![1, 3, 5], vec![2, 4, 6]];
    assert_eq!(interleave(&planes), vec![1, 2, 3, 4, 5, 6]);
    let longer_second = vec![vec![1, 3], vec![2, 4, 9]];
    assert_eq!(interleave(&longer_second), vec![1, 2, 3, 4]);
}

#[test]
fn interleave_undoes_deinterleave_on_whole_frames() {
    let data = vec![7u8, 8, 9, 10, 11, 12, 13, 14, 15];
    assert_eq!(interleave(&deinterleave(&data, 3)), data);
}

#[test]
fn upmix_duplicates_mono_only() {
    assert_eq!(upmix_mono(vec![vec![1, 2, 3]]), vec![vec![1, 2, 3], vec![1, 2, 3]]);
    assert_eq!(upmix_mono(vec![vec![1], vec![2]]), vec![vec![1], vec![2]]);
    assert_eq!(upmix_mono(Vec::<Vec<u8>>::new()), Vec::<Vec<u8>>::new());
}

#[test]
fn shape_pads_missing_channels_with_silence() {
    let block = vec![vec![0.5f32, 0.25, -1.0]];
    let shaped = shape_channels(&block, 2, 0.0f32);
    assert_eq!(shaped, vec![vec![0.5f32, 0.25, -1.0], vec![0.0, 0.0, 0.0]]);
}

#[test]
fn shape_drops_surplus_channels() {
    let block = vec![vec![1, 2], vec![3, 4], vec![5, 6]];
    assert_eq!(shape_channels(&block, 2, 0), vec![vec![1, 2], vec![3, 4]]);
    assert_eq!(shape_channels(&block, 3, 0), block);
}

#[test]
fn shape_of_an_empty_block_is_silent_and_empty() {
    let block: Vec<Vec<i32>> = Vec::new();
    assert_eq!(shape_channels(&block, 2, 0), vec![Vec::<i32>::new(), Vec::new()]);
}

#[test]
fn mono_capture_reaches_stereo_target_as_identical_channels() {
    let captured = [0.1f32, 0.2, 0.3, 0.4];
    let block = upmix_mono(deinterleave(&captured, 1));
    let shaped = shape_channels(&block, 2, 0.0f32);
    assert_eq!(shaped.len(), 2);
    assert_eq!(shaped[0], shaped[1]);
    assert_eq!(shaped[0], captured.to_vec());
}

#[test]
fn copy_plane_keeps_samples() {
    assert_eq!(copy_plane(&vec![3, 1, 2]), vec![3, 1, 2]);
}
