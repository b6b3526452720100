use camera_path::elementwise::{
    transform_fov_add, transform_fov_multiply, transform_fov_set, transform_position_offset,
    transform_position_scale, transform_rotation_offset, transform_speed, transform_time_offset,
};
use camera_path::mirror::transform_mirror;
use camera_path::model::{CameraPath, Entry, Keyframe, Position, Ratio, Rotation, TransformError};
use camera_path::reverse::reverse_path;
use camera_path::smoothing::smooth_path;
use camera_path::sorting::sort_entries;
use camera_path::stats::get_path_stats;
use camera_path::units::{
    degrees_to_engine_units, frame_for, ENGINE_UNITS_PER_DEGREE_NUM, FRAMES_PER_SECOND,
    MICROS_PER_SECOND,
};

fn kf(fov: i64, frame: i32, x: i64, y: i64, z: i64, t: i64, w: i64) -> Keyframe {
    Keyframe {
        fov,
        frame,
        position: Position { x, y, z },
        rotation: Rotation { pitch: 0, roll: 0, yaw: 0 },
        timestamp: t,
        weight: w,
    }
}

fn entry(id: &str, keyframe: Keyframe) -> Entry {
    Entry { id: id.to_string(), keyframe }
}

/// The two-keyframe path the concrete scenarios share: A at the origin at
/// time 0, B at x = 10 one second later.
fn scenario_path() -> CameraPath {
    CameraPath {
        entries: vec![
            entry("A", kf(90, 0, 0, 0, 0, 0, 1)),
            entry("B", kf(90, 30, 10, 0, 0, MICROS_PER_SECOND, 1)),
        ],
    }
}

fn find<'a>(path: &'a CameraPath, id: &str) -> &'a Keyframe {
    &path.entries.iter().find(|e| e.id == id).unwrap().keyframe
}

#[test]
fn position_offset_scenario() {
    let path = scenario_path();
    let out = transform_position_offset(&path, 5, 0, 0);
    assert_eq!(find(&out, "A").position.x, 5);
    assert_eq!(find(&out, "B").position.x, 15);
    assert_eq!(find(&out, "A").frame, 0);
    assert_eq!(find(&out, "B").frame, 30);
    assert_eq!(find(&out, "A").timestamp, 0);
    assert_eq!(find(&out, "B").timestamp, MICROS_PER_SECOND);
}

#[test]
fn reverse_path_scenario() {
    let path = scenario_path();
    let out = reverse_path(&path);
    assert_eq!(find(&out, "A").timestamp, MICROS_PER_SECOND);
    assert_eq!(find(&out, "A").frame, 30);
    assert_eq!(find(&out, "B").timestamp, 0);
    assert_eq!(find(&out, "B").frame, 0);
    assert_eq!(find(&out, "A").position.x, 0);
    assert_eq!(find(&out, "B").position.x, 10);
}

#[test]
fn reverse_twice_restores_timestamps() {
    let path = CameraPath {
        entries: vec![
            entry("A", kf(50, 9, 1, 2, 3, 300_000, 1)),
            entry("B", kf(60, 45, 4, 5, 6, 1_500_000, 1)),
            entry("C", kf(70, -15, 7, 8, 9, -500_000, 1)),
        ],
    };
    let once = reverse_path(&path);
    let twice = reverse_path(&once);
    for (orig, back) in path.entries.iter().zip(twice.entries.iter()) {
        assert_eq!(orig.id, back.id);
        assert_eq!(orig.keyframe.timestamp, back.keyframe.timestamp);
        assert_eq!(orig.keyframe.position, back.keyframe.position);
        assert_eq!(frame_for(orig.keyframe.timestamp), back.keyframe.frame);
    }
}

#[test]
fn mirror_bounded_scenario() {
    let path = scenario_path();
    let axis = "x".to_string();
    let out = transform_mirror(&path, &axis, false, false, false, true).unwrap();
    assert_eq!(find(&out, "A").position.x, 10);
    assert_eq!(find(&out, "B").position.x, 0);
    assert_eq!(find(&out, "A").position.y, 0);
    assert_eq!(find(&out, "B").rotation.pitch, 0);
}

#[test]
fn mirror_bounded_twice_restores_asymmetric_path() {
    let path = CameraPath {
        entries: vec![
            entry("A", kf(90, 0, -7, 1, 2, 0, 1)),
            entry("B", kf(90, 30, 3, 4, 5, 1_000_000, 1)),
            entry("C", kf(90, 60, 12, 6, 7, 2_000_000, 1)),
        ],
    };
    let axis = "x".to_string();
    let once = transform_mirror(&path, &axis, true, false, true, true).unwrap();
    let twice = transform_mirror(&once, &axis, true, false, true, true).unwrap();
    for (orig, back) in path.entries.iter().zip(twice.entries.iter()) {
        assert_eq!(orig.id, back.id);
        assert_eq!(orig.keyframe, back.keyframe);
    }
}

#[test]
fn mirror_unbounded_negates() {
    let path = CameraPath {
        entries: vec![entry("A", kf(90, 0, 5, -3, 8, 0, 1))],
    };
    let axis = "y".to_string();
    let out = transform_mirror(&path, &axis, false, false, false, false).unwrap();
    assert_eq!(find(&out, "A").position.y, 3);
    assert_eq!(find(&out, "A").position.x, 5);
}

#[test]
fn mirror_flips_rotation_components() {
    let mut k = kf(90, 0, 1, 2, 3, 0, 1);
    k.rotation = Rotation { pitch: 100, roll: -200, yaw: 300 };
    let path = CameraPath { entries: vec![entry("A", k)] };
    let axis = "z".to_string();
    let out = transform_mirror(&path, &axis, true, true, false, false).unwrap();
    assert_eq!(find(&out, "A").rotation.pitch, -100);
    assert_eq!(find(&out, "A").rotation.yaw, -300);
    assert_eq!(find(&out, "A").rotation.roll, -200);
}

#[test]
fn mirror_invalid_axis_names_value() {
    let path = scenario_path();
    let axis = "w".to_string();
    let err = transform_mirror(&path, &axis, false, false, false, true).unwrap_err();
    match err {
        TransformError::InvalidParameter(m) => assert_eq!(m, "w"),
        _ => panic!("expected InvalidParameter"),
    }
}

#[test]
fn fov_add_and_inverse_round_trip() {
    let path = scenario_path();
    let bumped = transform_fov_add(&path, 25);
    assert_eq!(find(&bumped, "A").fov, 115);
    let back = transform_fov_add(&bumped, -25);
    assert_eq!(find(&back, "A").fov, 90);
    assert_eq!(find(&back, "B").fov, 90);
}

#[test]
fn fov_add_wraps_at_the_edge() {
    let path = CameraPath {
        entries: vec![entry("A", kf(i64::MAX, 0, 0, 0, 0, 0, 1))],
    };
    let out = transform_fov_add(&path, 1);
    assert_eq!(find(&out, "A").fov, i64::MIN);
    let back = transform_fov_add(&out, -1);
    assert_eq!(find(&back, "A").fov, i64::MAX);
}

#[test]
fn fov_multiply_and_reciprocal_round_trip() {
    let path = scenario_path();
    let doubled = transform_fov_multiply(&path, Ratio { num: 2, den: 1 }).unwrap();
    assert_eq!(find(&doubled, "A").fov, 180);
    let back = transform_fov_multiply(&doubled, Ratio { num: 1, den: 2 }).unwrap();
    assert_eq!(find(&back, "A").fov, 90);
    assert_eq!(find(&back, "B").fov, 90);
}

#[test]
fn fov_multiply_truncates_toward_zero() {
    let path = CameraPath {
        entries: vec![
            entry("A", kf(7, 0, 0, 0, 0, 0, 1)),
            entry("B", kf(-7, 0, 0, 0, 0, 0, 1)),
        ],
    };
    let out = transform_fov_multiply(&path, Ratio { num: 1, den: 2 }).unwrap();
    assert_eq!(find(&out, "A").fov, 3);
    assert_eq!(find(&out, "B").fov, -3);
}

#[test]
fn fov_multiply_zero_denominator_fails() {
    let path = scenario_path();
    let err = transform_fov_multiply(&path, Ratio { num: 1, den: 0 }).unwrap_err();
    assert!(matches!(err, TransformError::InvalidParameter(_)));
}

#[test]
fn fov_set_overwrites() {
    let path = scenario_path();
    let out = transform_fov_set(&path, 45);
    assert_eq!(find(&out, "A").fov, 45);
    assert_eq!(find(&out, "B").fov, 45);
}

#[test]
fn position_scale_with_negative_factor_mirrors() {
    let path = scenario_path();
    let out = transform_position_scale(
        &path,
        Ratio { num: -2, den: 1 },
        Ratio { num: 1, den: 1 },
        Ratio { num: 1, den: 1 },
    )
    .unwrap();
    assert_eq!(find(&out, "B").position.x, -20);
    assert_eq!(find(&out, "A").position.x, 0);
}

#[test]
fn position_scale_zero_denominator_fails() {
    let path = scenario_path();
    let err = transform_position_scale(
        &path,
        Ratio { num: 1, den: 1 },
        Ratio { num: 1, den: 0 },
        Ratio { num: 1, den: 1 },
    )
    .unwrap_err();
    assert!(matches!(err, TransformError::InvalidParameter(_)));
}

#[test]
fn rotation_offset_in_degrees_truncates() {
    let path = scenario_path();
    let out = transform_rotation_offset(&path, 1, 0, 0, true);
    assert_eq!(find(&out, "A").rotation.pitch, 182);
    assert_eq!(find(&out, "B").rotation.pitch, 182);
    assert_eq!(find(&out, "A").rotation.yaw, 0);
    assert_eq!(find(&out, "A").rotation.roll, 0);
}

#[test]
fn rotation_offset_raw_units_wrap() {
    let mut k = kf(90, 0, 0, 0, 0, 0, 1);
    k.rotation = Rotation { pitch: i32::MAX, roll: 0, yaw: 10 };
    let path = CameraPath { entries: vec![entry("A", k)] };
    let out = transform_rotation_offset(&path, 1, -10, 0, false);
    assert_eq!(find(&out, "A").rotation.pitch, i32::MIN);
    assert_eq!(find(&out, "A").rotation.yaw, 0);
}

#[test]
fn speed_divides_timestamps_and_resyncs_frames() {
    let path = scenario_path();
    let out = transform_speed(&path, Ratio { num: 2, den: 1 }).unwrap();
    assert_eq!(find(&out, "B").timestamp, 500_000);
    assert_eq!(find(&out, "B").frame, 15);
    assert_eq!(find(&out, "A").timestamp, 0);
    assert_eq!(find(&out, "A").frame, 0);
}

#[test]
fn speed_zero_multiplier_fails() {
    let path = scenario_path();
    let err = transform_speed(&path, Ratio { num: 0, den: 1 }).unwrap_err();
    match err {
        TransformError::InvalidParameter(m) => assert_eq!(m, "zero multiplier"),
        _ => panic!("expected InvalidParameter"),
    }
}

#[test]
fn time_offset_shifts_and_resyncs() {
    let path = scenario_path();
    let out = transform_time_offset(&path, -250_000);
    assert_eq!(find(&out, "B").timestamp, 750_000);
    assert_eq!(find(&out, "B").frame, 23);
    assert_eq!(find(&out, "A").timestamp, -250_000);
    assert_eq!(find(&out, "A").frame, -8);
}

#[test]
fn smoothing_window_one_is_identity() {
    let path = scenario_path();
    for w in [0usize, 1usize] {
        let out = smooth_path(&path, w);
        assert_eq!(find(&out, "A").position.x, 0);
        assert_eq!(find(&out, "B").position.x, 10);
        assert_eq!(find(&out, "A").fov, 90);
        assert_eq!(find(&out, "B").fov, 90);
    }
}

#[test]
fn smoothing_averages_over_centered_windows() {
    let path = CameraPath {
        entries: vec![
            entry("A", kf(30, 0, 0, 0, 0, 0, 1)),
            entry("B", kf(60, 30, 6, 0, 0, 1_000_000, 1)),
            entry("C", kf(90, 60, 12, 0, 0, 2_000_000, 1)),
        ],
    };
    let out = smooth_path(&path, 3);
    assert_eq!(find(&out, "A").position.x, 3);
    assert_eq!(find(&out, "A").fov, 45);
    assert_eq!(find(&out, "B").position.x, 6);
    assert_eq!(find(&out, "B").fov, 60);
    assert_eq!(find(&out, "C").position.x, 9);
    assert_eq!(find(&out, "C").fov, 75);
    assert_eq!(find(&out, "B").timestamp, 1_000_000);
    assert_eq!(find(&out, "B").frame, 30);
}

#[test]
fn smoothing_sorts_by_timestamp_first() {
    let path = CameraPath {
        entries: vec![
            entry("late", kf(90, 60, 100, 0, 0, 2_000_000, 1)),
            entry("early", kf(30, 0, 0, 0, 0, 0, 1)),
        ],
    };
    let out = smooth_path(&path, 9);
    assert_eq!(out.entries[0].id, "early");
    assert_eq!(out.entries[1].id, "late");
    assert_eq!(out.entries[0].keyframe.position.x, 50);
    assert_eq!(out.entries[0].keyframe.fov, 60);
}

#[test]
fn smoothing_empty_collection_is_empty() {
    let path = CameraPath { entries: vec![] };
    let out = smooth_path(&path, 5);
    assert_eq!(out.entries.len(), 0);
}

#[test]
fn sort_is_stable_on_ties() {
    let path = CameraPath {
        entries: vec![
            entry("first", kf(1, 0, 0, 0, 0, 500, 1)),
            entry("second", kf(2, 0, 0, 0, 0, 500, 1)),
            entry("earliest", kf(3, 0, 0, 0, 0, -1, 1)),
        ],
    };
    let sorted = sort_entries(&path);
    assert_eq!(sorted[0].id, "earliest");
    assert_eq!(sorted[1].id, "first");
    assert_eq!(sorted[2].id, "second");
}

#[test]
fn stats_on_empty_collection_are_all_zero() {
    let path = CameraPath { entries: vec![] };
    let st = get_path_stats(&path);
    assert_eq!(st.keyframe_count, 0);
    assert_eq!(st.duration, 0);
    assert_eq!(st.min_time, 0);
    assert_eq!(st.max_time, 0);
}

#[test]
fn stats_report_extrema_and_duration() {
    let path = CameraPath {
        entries: vec![
            entry("A", kf(90, 0, 0, 0, 0, -1_000_000, 1)),
            entry("B", kf(90, 60, 0, 0, 0, 2_000_000, 1)),
            entry("C", kf(90, 30, 0, 0, 0, 500_000, 1)),
        ],
    };
    let st = get_path_stats(&path);
    assert_eq!(st.keyframe_count, 3);
    assert_eq!(st.min_time, -1_000_000);
    assert_eq!(st.max_time, 2_000_000);
    assert_eq!(st.duration, 3_000_000);
}

#[test]
fn key_sets_survive_elementwise_transforms() {
    let path = scenario_path();
    let ids: Vec<String> = path.entries.iter().map(|e| e.id.clone()).collect();
    let outs = vec![
        transform_fov_add(&path, 3),
        transform_fov_set(&path, 1),
        transform_position_offset(&path, 1, 2, 3),
        transform_rotation_offset(&path, 1, 2, 3, false),
        transform_time_offset(&path, 7),
        reverse_path(&path),
    ];
    for out in outs {
        let got: Vec<String> = out.entries.iter().map(|e| e.id.clone()).collect();
        assert_eq!(got, ids);
    }
}

#[test]
fn frame_rounding_is_half_away_from_zero() {
    assert_eq!(frame_for(50_000), 2);
    assert_eq!(frame_for(-50_000), -2);
    assert_eq!(frame_for(49_999), 1);
    assert_eq!(frame_for(MICROS_PER_SECOND), FRAMES_PER_SECOND as i32);
    assert_eq!(frame_for(0), 0);
}

#[test]
fn degree_conversion_truncates_toward_zero() {
    assert_eq!(degrees_to_engine_units(1), 182);
    assert_eq!(degrees_to_engine_units(-1), -182);
    assert_eq!(
        degrees_to_engine_units(25) as i64,
        ENGINE_UNITS_PER_DEGREE_NUM
    );
    assert_eq!(degrees_to_engine_units(0), 0);
}

#[test]
fn mirror_bounded_empty_collection_stays_empty() {
    let path = CameraPath { entries: vec![] };
    let axis = "x".to_string();
    let out = transform_mirror(&path, &axis, true, true, true, true).unwrap();
    assert_eq!(out.entries.len(), 0);
}

#[test]
fn stats_on_single_keyframe_have_zero_duration() {
    let path = CameraPath {
        entries: vec![entry("only", kf(90, 12, 1, 2, 3, 400_000, 1))],
    };
    let st = get_path_stats(&path);
    assert_eq!(st.keyframe_count, 1);
    assert_eq!(st.min_time, 400_000);
    assert_eq!(st.max_time, 400_000);
    assert_eq!(st.duration, 0);
}

#[test]
fn collection_builders_grow_the_path() {
    let mut path = CameraPath::new();
    assert_eq!(path.len(), 0);
    path.push(entry("A", kf(90, 0, 0, 0, 0, 0, 1)));
    path.push(entry("B", kf(80, 30, 1, 1, 1, MICROS_PER_SECOND, 1)));
    assert_eq!(path.len(), 2);
    assert_eq!(find(&path, "B").fov, 80);
}
