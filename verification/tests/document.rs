//! The document model, the per-file shifter, the selector and the
//! configuration, on concrete documents.

use path_shift::config::Config;
use path_shift::errors::PathError;
use path_shift::path::{move_path, Path, Point, State, Waypoint};
use path_shift::selector::select_names;
use path_shift::shifter::shift_path;
use serde_json::Value;

const NANO: i64 = 1_000_000_000;

fn sample_extra() -> Vec<(String, Value)> {
    vec![
        ("version".to_string(), Value::String("2025.0".to_string())),
        (
            "globalConstraints".to_string(),
            serde_json::from_str("{\"maxVelocity\":3.0,\"zones\":[1,2]}").unwrap(),
        ),
    ]
}

fn sample_path() -> Path {
    let waypoints = vec![
        Waypoint {
            anchor: Point { x: 1 * NANO, y: 2 * NANO },
            prev_control: None,
            next_control: Some(Point { x: 3 * NANO, y: 4 * NANO }),
            is_locked: true,
            linked_name: Some("pickup".to_string()),
        },
        Waypoint {
            anchor: Point { x: -5 * NANO, y: 0 },
            prev_control: Some(Point { x: 0, y: -NANO / 2 }),
            next_control: None,
            is_locked: false,
            linked_name: None,
        },
    ];
    let state = State { velocity: 3 * NANO / 2, rotation: 90 * NANO };
    Path::new(waypoints, state, sample_extra()).unwrap()
}

#[test]
fn end_to_end_scenario() {
    // Directory holds a1.path; prefixes ["a"]; amount 2.0; not sideways.
    let names = vec!["a1.path".to_string(), "other.json".to_string()];
    let config = Config::build(
        "paths".to_string(),
        Some("a".to_string()),
        Some(2 * NANO),
        None,
    )
    .unwrap();
    let selected = config.select_target_names(&names).unwrap();
    assert_eq!(selected, vec!["a1.path".to_string()]);

    let waypoints = vec![Waypoint {
        anchor: Point { x: 1 * NANO, y: 2 * NANO },
        prev_control: None,
        next_control: Some(Point { x: 3 * NANO, y: 4 * NANO }),
        is_locked: false,
        linked_name: None,
    }];
    let state = State { velocity: 0, rotation: 90 * NANO };
    let path = Path::new(waypoints, state, sample_extra()).unwrap();

    // Heading 90 degrees: unit vector (0, 1) in fixed point.
    let shifted = shift_path(path, config.amount, 0, NANO).unwrap();
    assert_eq!(shifted.waypoints[0].anchor, Point { x: 1 * NANO, y: 4 * NANO });
    assert_eq!(
        shifted.waypoints[0].next_control,
        Some(Point { x: 3 * NANO, y: 6 * NANO })
    );
    assert_eq!(shifted.waypoints[0].prev_control, None);
    assert_eq!(shifted.goal_end_state, State { velocity: 0, rotation: 90 * NANO });
    assert_eq!(shifted.extra, sample_extra());
}

#[test]
fn shift_then_inverse_shift_restores() {
    let original = sample_path();
    let d = 7 * NANO / 4;
    // An oblique direction: fixed-point components of a 30-degree heading.
    let cos_n = 866_025_404;
    let sin_n = 500_000_000;
    let once = shift_path(sample_path(), d, cos_n, sin_n).unwrap();
    assert_ne!(once, original);
    assert_eq!(once.extra, original.extra);
    let back = shift_path(once, -d, cos_n, sin_n).unwrap();
    assert_eq!(back, original);
}

#[test]
fn move_path_translates_each_point_and_keeps_the_rest() {
    let path = sample_path();
    let moved = move_path(10, -20, path);
    assert_eq!(moved.waypoints[0].anchor, Point { x: 1 * NANO + 10, y: 2 * NANO - 20 });
    assert_eq!(
        moved.waypoints[0].next_control,
        Some(Point { x: 3 * NANO + 10, y: 4 * NANO - 20 })
    );
    assert_eq!(moved.waypoints[0].prev_control, None);
    assert!(moved.waypoints[0].is_locked);
    assert_eq!(moved.waypoints[0].linked_name, Some("pickup".to_string()));
    assert_eq!(
        moved.waypoints[1].prev_control,
        Some(Point { x: 10, y: -NANO / 2 - 20 })
    );
    assert_eq!(moved.goal_end_state, State { velocity: 3 * NANO / 2, rotation: 90 * NANO });
    assert_eq!(moved.extra, sample_extra());
}

#[test]
fn selector_keeps_exactly_the_matching_names() {
    let names = vec![
        "a1.path".to_string(),
        "b2.path".to_string(),
        "ab.path".to_string(),
        "c.path".to_string(),
    ];
    let prefixes = vec!["a".to_string(), "c.".to_string()];
    let selected = select_names(&names, &prefixes).unwrap();
    assert_eq!(
        selected,
        vec!["a1.path".to_string(), "ab.path".to_string(), "c.path".to_string()]
    );
}

#[test]
fn selector_with_no_match_fails() {
    let names = vec!["a1.path".to_string()];
    let prefixes = vec!["z".to_string()];
    assert_eq!(select_names(&names, &prefixes), Err(PathError::NoMatchingFiles));
}

#[test]
fn empty_prefix_matches_everything() {
    let names = vec!["a".to_string(), "b".to_string()];
    let prefixes = vec!["".to_string()];
    assert_eq!(select_names(&names, &prefixes).unwrap(), names);
}

#[test]
fn config_splits_targets_on_commas() {
    let config = Config::build(
        "dir".to_string(),
        Some("alpha,b,,c".to_string()),
        Some(0),
        None,
    )
    .unwrap();
    assert_eq!(
        config.target_paths,
        vec!["alpha".to_string(), "b".to_string(), "".to_string(), "c".to_string()]
    );
    let lone = Config::build("dir".to_string(), Some("".to_string()), Some(0), None).unwrap();
    assert_eq!(lone.target_paths, vec!["".to_string()]);
}

#[test]
fn config_missing_arguments_are_reported() {
    assert_eq!(
        Config::build("dir".to_string(), None, Some(0), None),
        Err(PathError::MissingTargets)
    );
    assert_eq!(
        Config::build("dir".to_string(), Some("a".to_string()), None, None),
        Err(PathError::MissingAmount)
    );
}

#[test]
fn sideways_argument_means_true_only_when_exactly_true() {
    let build = |arg: Option<&str>| {
        Config::build(
            "dir".to_string(),
            Some("a".to_string()),
            Some(0),
            arg.map(|s| s.to_string()),
        )
        .unwrap()
        .sideways
    };
    assert!(build(Some("true")));
    assert!(!build(Some("false")));
    assert!(!build(Some("TRUE")));
    assert!(!build(Some("1")));
    assert!(!build(None));
}

#[test]
fn modeled_keys_may_not_hide_in_the_extra_bag() {
    let extra = vec![("waypoints".to_string(), Value::Null)];
    assert_eq!(
        Path::new(vec![], State { velocity: 0, rotation: 0 }, extra),
        Err(PathError::MalformedDocument)
    );
    let extra = vec![("goalEndState".to_string(), Value::Null)];
    assert_eq!(
        Path::new(vec![], State { velocity: 0, rotation: 0 }, extra),
        Err(PathError::MalformedDocument)
    );
}

#[test]
fn overflowing_translation_is_refused() {
    let waypoints = vec![Waypoint {
        anchor: Point { x: i64::MAX, y: 0 },
        prev_control: None,
        next_control: None,
        is_locked: false,
        linked_name: None,
    }];
    let path = Path::new(waypoints, State { velocity: 0, rotation: 0 }, vec![]).unwrap();
    // Unit vector (1, 0): the delta equals the distance and cannot be added.
    assert_eq!(
        shift_path(path, NANO, NANO, 0),
        Err(PathError::CoordinateOverflow)
    );
}

#[test]
fn empty_document_shifts_to_itself() {
    let path = Path::new(vec![], State { velocity: 7, rotation: -3 }, sample_extra()).unwrap();
    let shifted = shift_path(path, 5 * NANO, NANO, 0).unwrap();
    assert_eq!(shifted.waypoints, vec![]);
    assert_eq!(shifted.goal_end_state, State { velocity: 7, rotation: -3 });
    assert_eq!(shifted.extra, sample_extra());
}

#[test]
fn trailing_comma_gives_an_empty_prefix() {
    let config = Config::build("dir".to_string(), Some("a,".to_string()), Some(0), None).unwrap();
    assert_eq!(config.target_paths, vec!["a".to_string(), "".to_string()]);
}

#[test]
fn error_messages_name_the_fault() {
    assert_eq!(
        PathError::MissingTargets.message(),
        "didn't get a target path phrase"
    );
    assert_eq!(PathError::MissingAmount.message(), "didn't get an amount input");
    assert_eq!(
        PathError::NoMatchingFiles.message(),
        "no path files match the input strings"
    );
    assert_eq!(
        PathError::MalformedDocument.message(),
        "path file content is not a well-formed path document"
    );
    assert_eq!(
        PathError::CoordinateOverflow.message(),
        "translated coordinate is out of fixed-point range"
    );
}
