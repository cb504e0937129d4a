use image::{GrayImage, Luma};
use image_compare::{Algorithm, Metric};
use work_recorder::diff::{
    compare_with_previous_image, frame_distance, measure_frames, should_write, DiffError,
    MaxAverageFrame, Measurement, Scores, FORWARD_THRESHOLD, SCALE,
};
use work_recorder::frame::Frame;

fn millionths(ratio: f64) -> i64 {
    (ratio * 1_000_000.0).floor() as i64
}

/// Scores whose mean, as the library takes it, is the floating-point mean rounded down.
fn scores(histogram: f64, structure: f64) -> Scores {
    let divergence = millionths(histogram).clamp(0, u32::MAX as i64);
    let similarity =
        (1_000_000 + divergence).saturating_sub(millionths(histogram + (1.0 - structure)));
    Scores {
        histogram: divergence as u32,
        structure: similarity.clamp(i32::MIN as i64, i32::MAX as i64) as i32,
    }
}

fn measure(previous: &GrayImage, current: &GrayImage) -> Measurement {
    if previous.dimensions() != current.dimensions() {
        return Measurement::Failed(DiffError::DimensionMismatch);
    }
    let histogram =
        image_compare::gray_similarity_histogram(Metric::Hellinger, previous, current).unwrap();
    let structure =
        image_compare::gray_similarity_structure(&Algorithm::MSSIMSimple, previous, current)
            .unwrap()
            .score;
    let Scores { histogram, structure } = scores(histogram, structure);
    Measurement::Scored { histogram, structure }
}

fn gradient(width: u32, height: u32) -> GrayImage {
    GrayImage::from_fn(width, height, |x, y| Luma([((x * 3 + y * 5) % 251) as u8]))
}

#[test]
fn distance_is_the_mean_of_divergence_and_dissimilarity() {
    assert_eq!(frame_distance(0, 1_000_000), 0);
    assert_eq!(frame_distance(1_000_000, 0), 1_000_000);
    assert_eq!(frame_distance(200_000, 900_000), 150_000);
    assert_eq!(frame_distance(12_000, 1_000_000), 6_000);
    assert_eq!(frame_distance(0, 988_000), 6_000);
    assert_eq!(frame_distance(11_999, 1_000_000), 5_999);
    assert_eq!(frame_distance(1, 1_000_000), 0);
    assert_eq!(frame_distance(0, -1_000_000), 1_000_000);
    assert_eq!(frame_distance(0, 1_000_001), -1);
    assert_eq!(frame_distance(0, 1_000_002), -1);
    assert_eq!(frame_distance(0, 1_000_003), -2);
    assert_eq!(frame_distance(u32::MAX, i32::MIN), (4_294_967_295 + 1_000_000 + 2_147_483_648) / 2);
}

#[test]
fn threshold_is_six_thousandths() {
    assert_eq!(SCALE, 1_000_000);
    assert_eq!(FORWARD_THRESHOLD, 6_000);
    assert!(should_write(Ok(6_000)));
    assert!(!should_write(Ok(5_999)));
    assert!(should_write(Ok(1_000_000)));
    assert!(!should_write(Ok(0)));
    assert!(!should_write(Ok(-5)));
}

#[test]
fn first_frame_is_always_forwarded() {
    let mut max = None;
    let outcome = compare_with_previous_image(Measurement::NoPrevious, &mut max, 0);
    assert!(should_write(outcome));
    assert!(should_write(Err(DiffError::NoPreviousFrame)));
}

#[test]
fn failed_comparison_counts_as_largest_change() {
    assert!(should_write(Err(DiffError::DimensionMismatch)));
    assert!(should_write(Err(DiffError::MetricFailed)));
}

#[test]
fn comparison_without_previous_frame_has_no_distance() {
    let mut max = None;
    assert_eq!(
        compare_with_previous_image(Measurement::NoPrevious, &mut max, 0),
        Err(DiffError::NoPreviousFrame)
    );
    assert_eq!(max, None);
    let mut max = Some(MaxAverageFrame { frame_number: 2, average: 10 });
    assert_eq!(
        compare_with_previous_image(Measurement::NoPrevious, &mut max, 5),
        Err(DiffError::NoPreviousFrame)
    );
    assert_eq!(max, Some(MaxAverageFrame { frame_number: 2, average: 10 }));
}

#[test]
fn comparison_of_unmeasurable_frames_is_an_error() {
    let mut max = Some(MaxAverageFrame { frame_number: 2, average: 10 });
    assert_eq!(
        compare_with_previous_image(
            Measurement::Failed(DiffError::DimensionMismatch),
            &mut max,
            3
        ),
        Err(DiffError::DimensionMismatch)
    );
    assert_eq!(
        compare_with_previous_image(Measurement::Failed(DiffError::MetricFailed), &mut max, 3),
        Err(DiffError::MetricFailed)
    );
    assert_eq!(max, Some(MaxAverageFrame { frame_number: 2, average: 10 }));
}

#[test]
fn running_maximum_follows_the_largest_distance() {
    let mut max = None;
    let scored = |h, s| Measurement::Scored { histogram: h, structure: s };
    assert_eq!(compare_with_previous_image(scored(200_000, 900_000), &mut max, 1), Ok(150_000));
    assert_eq!(max, Some(MaxAverageFrame { frame_number: 1, average: 150_000 }));
    assert_eq!(compare_with_previous_image(scored(0, 1_000_000), &mut max, 2), Ok(0));
    assert_eq!(max, Some(MaxAverageFrame { frame_number: 1, average: 150_000 }));
    assert_eq!(compare_with_previous_image(scored(200_000, 900_000), &mut max, 3), Ok(150_000));
    assert_eq!(max, Some(MaxAverageFrame { frame_number: 1, average: 150_000 }));
    assert_eq!(compare_with_previous_image(scored(400_000, 900_000), &mut max, 4), Ok(250_000));
    assert_eq!(max, Some(MaxAverageFrame { frame_number: 4, average: 250_000 }));
}

#[test]
fn identical_frames_are_dropped_after_the_first() {
    let frame = gradient(96, 64);
    let mut previous: Option<GrayImage> = None;
    let mut max = None;
    let mut forwarded = Vec::new();
    for number in 0..5u64 {
        let measurement = match &previous {
            Some(p) => measure(p, &frame),
            None => Measurement::NoPrevious,
        };
        let outcome = compare_with_previous_image(measurement, &mut max, number);
        let forward = should_write(outcome);
        if forward {
            previous = Some(frame.clone());
        }
        forwarded.push(forward);
    }
    assert_eq!(forwarded, vec![true, false, false, false, false]);
}

#[test]
fn identical_frames_measure_as_zero_distance() {
    let frame = gradient(96, 64);
    let mut max = None;
    assert_eq!(compare_with_previous_image(measure(&frame, &frame), &mut max, 1), Ok(0));
}

#[test]
fn solid_block_in_one_quadrant_is_forwarded() {
    let before = gradient(128, 128);
    let mut after = before.clone();
    for y in 0..64 {
        for x in 0..64 {
            after.put_pixel(x, y, Luma([255]));
        }
    }
    let mut max = None;
    let outcome = compare_with_previous_image(measure(&before, &after), &mut max, 1);
    assert!(outcome.unwrap() > 6_000);
    assert!(should_write(outcome));
    assert_eq!(max.unwrap().frame_number, 1);
}

#[test]
fn frames_of_different_size_are_forwarded() {
    let before = gradient(128, 128);
    let after = gradient(128, 96);
    let mut max = None;
    let outcome = compare_with_previous_image(measure(&before, &after), &mut max, 1);
    assert_eq!(outcome, Err(DiffError::DimensionMismatch));
    assert!(should_write(outcome));
}

#[test]
fn measurement_goes_by_the_frames_before_the_scores() {
    let small = Frame { width: 2, height: 1, rgba: vec![0; 8] };
    let same = Frame { width: 2, height: 1, rgba: vec![9; 8] };
    let tall = Frame { width: 1, height: 2, rgba: vec![0; 8] };
    let scores = Some(Scores { histogram: 5, structure: 999_000 });
    assert_eq!(measure_frames(&None, &small, scores), Measurement::NoPrevious);
    assert_eq!(
        measure_frames(&Some(small.clone()), &same, scores),
        Measurement::Scored { histogram: 5, structure: 999_000 }
    );
    assert_eq!(
        measure_frames(&Some(small.clone()), &tall, scores),
        Measurement::Failed(DiffError::DimensionMismatch)
    );
    assert_eq!(
        measure_frames(&Some(small.clone()), &same, None),
        Measurement::Failed(DiffError::MetricFailed)
    );
    assert_eq!(
        measure_frames(&Some(small), &tall, None),
        Measurement::Failed(DiffError::DimensionMismatch)
    );
}

#[test]
fn decision_follows_the_mean_of_the_scores_as_measured() {
    let decide = |histogram: f64, structure: f64| {
        let Scores { histogram, structure } = scores(histogram, structure);
        let mut max = None;
        should_write(compare_with_previous_image(
            Measurement::Scored { histogram, structure },
            &mut max,
            1,
        ))
    };
    let cases = [
        (0.0119996, 1.0),
        (0.012, 1.0),
        (0.0119999999, 1.0),
        (0.0, 0.988),
        (0.0, 0.9880000001),
        (0.006, 0.994),
        (0.0059999, 0.9940002),
        (0.0060001, 0.9939998),
        (0.5, 0.2),
        (0.0, 1.0),
        (1.0, -1.0),
    ];
    for (histogram, structure) in cases {
        let mean = (histogram + (1.0 - structure)) / 2.0;
        assert_eq!(decide(histogram, structure), mean >= 0.006);
    }
    assert!(!decide(0.0119996, 1.0));
    assert!(decide(0.012, 1.0));
}
