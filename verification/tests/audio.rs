use kara::audio::{convert_to_mono, split_channels};

#[test]
fn mono_audio_is_left_as_it_is() {
    assert_eq!(convert_to_mono(&[1, -2, 3, i16::MIN, i16::MAX], 1), vec![1, -2, 3, i16::MIN, i16::MAX]);
    assert_eq!(convert_to_mono(&[], 1), Vec::<i16>::new());
}

#[test]
fn stereo_is_mixed_frame_by_frame() {
    assert_eq!(convert_to_mono(&[10, 20, -30, -50, 7, 8], 2), vec![15, -40, 7]);
}

#[test]
fn each_sample_is_divided_before_the_sum() {
    // 3 / 2 + 3 / 2 = 2, and -3 / 2 + -3 / 2 = -2: the quotients are rounded towards zero.
    assert_eq!(convert_to_mono(&[3, 3, -3, -3], 2), vec![2, -2]);
    assert_eq!(convert_to_mono(&[1, 1, 1], 3), vec![0]);
}

#[test]
fn extreme_samples_do_not_overflow() {
    assert_eq!(convert_to_mono(&[i16::MAX, i16::MAX, i16::MIN, i16::MIN], 2), vec![32766, i16::MIN]);
    assert_eq!(convert_to_mono(&[i16::MIN, i16::MIN, i16::MIN], 3), vec![-32766]);
}

#[test]
fn samples_after_the_last_whole_frame_are_dropped() {
    assert_eq!(convert_to_mono(&[2, 4, 6, 8, 100], 2), vec![3, 7]);
    assert_eq!(convert_to_mono(&[2, 4], 3), Vec::<i16>::new());
}

#[test]
fn channels_are_split() {
    assert_eq!(split_channels(&[1, 2, 3, 4, 5, 6], 2), vec![vec![1, 3, 5], vec![2, 4, 6]]);
    assert_eq!(split_channels(&[1, 2, 3, 4, 5, 6], 3), vec![vec![1, 4], vec![2, 5], vec![3, 6]]);
    assert_eq!(split_channels(&['a', 'b', 'c'], 1), vec![vec!['a', 'b', 'c']]);
}

#[test]
fn a_last_frame_that_is_cut_short_reaches_the_first_channels_only() {
    assert_eq!(split_channels(&[1, 2, 3, 4, 5], 2), vec![vec![1, 3, 5], vec![2, 4]]);
    assert_eq!(split_channels(&[1u8], 3), vec![vec![1u8], vec![], vec![]]);
    assert_eq!(split_channels(&[] as &[u8], 2), vec![Vec::<u8>::new(), Vec::new()]);
}
