use chrono::TimeZone;
use screenshot_organiser::clock::UtcTime;
use screenshot_organiser::control::{
    relay_step, worker_step, Poll, RelayAction, RunState, WatchEvent, WorkerAction,
};
use screenshot_organiser::job::{Encoding, FileOp, FileType, Job, JobError, Plan};
use screenshot_organiser::numbers::{parse_i32, parse_u32};
use screenshot_organiser::paths::{extension, file_name, join, with_extension};
use screenshot_organiser::pattern::{first_match, parse_screenshot_name, Pattern};
use screenshot_organiser::pipeline::{child_name, handle, intake, run};
use screenshot_organiser::state::{Config, Options, State};

const FFXIV: &str = r"ffxiv_(?P<year>\d{4})(?P<month>\d{2})(?P<day>\d{2})_(?P<hour>\d{2})(?P<minute>\d{2})(?P<second>\d{2})_\d+\.png";

fn config(patterns: &[&str], pipeline: Vec<Job>) -> Config {
    Config {
        options: Options {
            screenshots_dir: "/shots".to_string(),
            patterns: patterns.iter().map(|p| Pattern::new(p).ok().unwrap()).collect(),
            event_delay: 100,
        },
        pipeline,
    }
}

fn state(path: &str, seconds: i64) -> State {
    State::new(path.to_string(), UtcTime { seconds }, "/tmp/scratch".to_string())
}

// 2023-06-15T14:30:00Z
const JUNE_15: i64 = 1686839400;

#[test]
fn parses_integers_like_std() {
    assert_eq!(parse_u32("2023"), Some(2023));
    assert_eq!(parse_u32("+7"), Some(7));
    assert_eq!(parse_u32("-0"), None);
    assert_eq!(parse_u32(""), None);
    assert_eq!(parse_u32("+"), None);
    assert_eq!(parse_u32("4294967295"), Some(u32::MAX));
    assert_eq!(parse_u32("4294967296"), None);
    assert_eq!(parse_u32("12a"), None);
    assert_eq!(parse_i32("-2147483648"), Some(i32::MIN));
    assert_eq!(parse_i32("2147483648"), None);
    assert_eq!(parse_i32("-15"), Some(-15));
    assert_eq!(parse_i32("-"), None);
}

#[test]
fn splits_paths() {
    assert_eq!(file_name("/shots/a.png"), Some("a.png".to_string()));
    assert_eq!(file_name("a.png"), Some("a.png".to_string()));
    assert_eq!(file_name("/shots/"), None);
    assert_eq!(file_name("/shots/.."), None);
    assert_eq!(extension("a.tar.gz"), Some("gz".to_string()));
    assert_eq!(extension(".bashrc"), None);
    assert_eq!(extension("noext"), None);
    assert_eq!(with_extension("a.png", "jpg"), "a.jpg");
    assert_eq!(with_extension("a", "jpg"), "a.jpg");
    assert_eq!(join("/tmp", "a.jpg"), "/tmp/a.jpg");
    assert_eq!(join("/tmp/", "a.jpg"), "/tmp/a.jpg");
    assert_eq!(join("/tmp", "/abs"), "/abs");
}

#[test]
fn names_children_of_the_watched_directory() {
    assert_eq!(child_name("/shots", "/shots/a.png"), Some("a.png".to_string()));
    assert_eq!(child_name("/shots/", "/shots/a.png"), Some("a.png".to_string()));
    assert_eq!(child_name("/shots", "/shots/sub/a.png"), None);
    assert_eq!(child_name("/shots", "/other/a.png"), None);
    assert_eq!(child_name("/shots", "/shotsa.png"), None);
}

#[test]
fn file_types_and_encodings() {
    assert_eq!(FileType::Png.extension(), "png");
    assert_eq!(FileType::Jpg { quality: 80 }.extension(), "jpg");
    assert_eq!(FileType::WebP { quality: 5 }.extension(), "webp");
    assert_eq!(FileType::Jpg { quality: 80 }.encoding(), Encoding::Jpeg { quality: 80 });
    assert_eq!(FileType::WebP { quality: -1 }.encoding(), Encoding::WebPLossless);
    assert_eq!(FileType::WebP { quality: 120 }.encoding(), Encoding::WebPLossy { quality: 100 });
    assert_eq!(FileType::WebP { quality: 42 }.encoding(), Encoding::WebPLossy { quality: 42 });
}

#[test]
fn refuses_an_invalid_pattern() {
    let e = Pattern::new("(").err().unwrap();
    assert_eq!(e.source, "(");
    assert_eq!(Pattern::new("a+").ok().unwrap().as_str(), "a+");
}

#[test]
fn first_pattern_that_reads_a_time_wins() {
    let c = config(
        &[
            r"(?P<year>\d{4})-x",
            r"b(?P<year>\d{4})(?P<month>\d{2})(?P<day>\d{2})(?P<hour>\d{2})(?P<minute>\d{2})(?P<second>\d{2})",
            r"(?P<year>\d{4})(?P<month>\d{2})(?P<day>\d{2})(?P<hour>\d{2})(?P<minute>\d{2})(?P<second>\d{2})",
        ],
        vec![],
    );
    let f = first_match(&c.options.patterns, "b20230615143000").unwrap();
    assert_eq!((f.year, f.month, f.day, f.hour, f.minute, f.second), (2023, 6, 15, 14, 30, 0));
    let g = first_match(&c.options.patterns, "20240102030405").unwrap();
    assert_eq!((g.year, g.month, g.day), (2024, 1, 2));
    assert!(first_match(&c.options.patterns, "nothing here").is_none());
}

#[test]
fn matched_name_gives_local_time_in_utc() {
    let c = config(&[FFXIV], vec![]);
    let t = parse_screenshot_name(&c.options.patterns, "ffxiv_20230615_143000_0001.png").unwrap();
    let expected = chrono::Local.with_ymd_and_hms(2023, 6, 15, 14, 30, 0).single().unwrap();
    assert_eq!(t.seconds, expected.timestamp());
    assert!(parse_screenshot_name(&c.options.patterns, "other.png").is_none());
    assert!(parse_screenshot_name(&c.options.patterns, "ffxiv_20231315_143000_0001.png").is_none());
}

#[test]
fn zero_job_scenario_leaves_file_untouched() {
    let c = config(&[FFXIV], vec![]);
    let path = "/shots/ffxiv_20230615_143000_0001.png";
    let s = intake(&c, "/shots", path, true, "/tmp/scratch").unwrap();
    assert_eq!(s.file_paths, vec![path.to_string()]);
    let expected = chrono::Local.with_ymd_and_hms(2023, 6, 15, 14, 30, 0).single().unwrap();
    assert_eq!(s.datetime.seconds, expected.timestamp());
    let plan = handle(&c, "/shots", path, true, "/tmp/scratch").unwrap();
    assert_eq!(plan, Plan { ops: vec![], error: None });
}

#[test]
fn empty_pipeline_changes_nothing() {
    let c = config(&[], vec![]);
    let mut s = state("/shots/a.png", JUNE_15);
    let plan = run(&c, &mut s, Some(0));
    assert_eq!(plan, Plan { ops: vec![], error: None });
    assert_eq!(s.file_paths, vec!["/shots/a.png".to_string()]);
}

#[test]
fn convert_to_jpg_removes_original() {
    let c = config(&[], vec![Job::Convert { to: FileType::Jpg { quality: 80 }, keep_original: false }]);
    let mut s = state("/shots/ffxiv_20230615_143000_0001.png", JUNE_15);
    let plan = run(&c, &mut s, Some(0));
    assert_eq!(plan.error, None);
    assert_eq!(
        plan.ops,
        vec![FileOp::Convert {
            source: "/shots/ffxiv_20230615_143000_0001.png".to_string(),
            dest: "/tmp/scratch/ffxiv_20230615_143000_0001.jpg".to_string(),
            encoding: Encoding::Jpeg { quality: 80 },
            remove_source: true,
        }]
    );
    assert_eq!(s.file_paths, vec!["/tmp/scratch/ffxiv_20230615_143000_0001.jpg".to_string()]);
}

#[test]
fn convert_keeping_original_lists_both() {
    let c = config(&[], vec![Job::Convert { to: FileType::WebP { quality: -1 }, keep_original: true }]);
    let mut s = state("/shots/a.png", JUNE_15);
    let plan = run(&c, &mut s, Some(0));
    assert_eq!(plan.error, None);
    assert_eq!(
        plan.ops,
        vec![FileOp::Convert {
            source: "/shots/a.png".to_string(),
            dest: "/tmp/scratch/a.webp".to_string(),
            encoding: Encoding::WebPLossless,
            remove_source: false,
        }]
    );
    assert_eq!(s.file_paths, vec!["/tmp/scratch/a.webp".to_string(), "/shots/a.png".to_string()]);
}

#[test]
fn move_in_utc_builds_dated_path() {
    let c = config(&[], vec![Job::Move { to: "%Y/%m/%d_%H%M%S".to_string(), local: Some(false) }]);
    let mut s = state("/tmp/scratch/a.png", JUNE_15);
    let plan = run(&c, &mut s, Some(7200));
    assert_eq!(plan.error, None);
    assert_eq!(
        plan.ops,
        vec![FileOp::Copy {
            source: "/tmp/scratch/a.png".to_string(),
            dest: "/shots/2023/06/15_143000.png".to_string(),
        }]
    );
    assert_eq!(s.file_paths, vec!["/shots/2023/06/15_143000.png".to_string()]);
}

#[test]
fn move_in_local_time_uses_the_offset() {
    let c = config(&[], vec![Job::Move { to: "%H%M".to_string(), local: None }]);
    let mut s = state("/x/a.jpg", JUNE_15);
    let plan = run(&c, &mut s, Some(3600));
    assert_eq!(plan.error, None);
    assert_eq!(s.file_paths, vec!["/shots/1530.jpg".to_string()]);
    let mut s2 = state("/x/a.jpg", JUNE_15);
    let plan2 = run(&c, &mut s2, None);
    assert_eq!(plan2.error, Some(JobError::BadTemplate { template: "%H%M".to_string() }));
    assert_eq!(s2.file_paths, vec!["/x/a.jpg".to_string()]);
}

#[test]
fn convert_then_move_chains_paths() {
    let c = config(
        &[],
        vec![
            Job::Convert { to: FileType::Png, keep_original: true },
            Job::Move { to: "%Y".to_string(), local: Some(false) },
        ],
    );
    let mut s = state("/shots/a.bmp", JUNE_15);
    let plan = run(&c, &mut s, Some(0));
    assert_eq!(plan.error, None);
    assert_eq!(plan.ops.len(), 3);
    assert_eq!(s.file_paths, vec!["/shots/2023.png".to_string(), "/shots/2023.bmp".to_string()]);
}

#[test]
fn errors_stop_the_pipeline() {
    let c = config(
        &[],
        vec![
            Job::Move { to: "%Y".to_string(), local: Some(false) },
            Job::Convert { to: FileType::Png, keep_original: false },
        ],
    );
    let mut s = state("/shots/noext", JUNE_15);
    let plan = run(&c, &mut s, Some(0));
    assert_eq!(plan.ops, vec![]);
    assert_eq!(plan.error, Some(JobError::MissingExtension { path: "/shots/noext".to_string() }));

    let c2 = config(&[], vec![Job::Convert { to: FileType::Gif, keep_original: false }]);
    let mut s2 = state("/shots/..", JUNE_15);
    let plan2 = run(&c2, &mut s2, Some(0));
    assert_eq!(plan2.error, Some(JobError::MissingFileName { path: "/shots/..".to_string() }));

    let c3 = config(&[], vec![Job::Move { to: "%Q".to_string(), local: Some(false) }]);
    let mut s3 = state("/shots/a.png", JUNE_15);
    let plan3 = run(&c3, &mut s3, Some(0));
    assert_eq!(plan3.error, Some(JobError::BadTemplate { template: "%Q".to_string() }));
}

#[test]
fn vanished_or_nested_paths_are_skipped() {
    let c = config(&[FFXIV], vec![Job::Convert { to: FileType::Png, keep_original: false }]);
    let path = "/shots/ffxiv_20230615_143000_0001.png";
    assert!(handle(&c, "/shots", path, true, "/tmp/scratch").is_some());
    assert!(handle(&c, "/shots", path, false, "/tmp/scratch").is_none());
    assert!(handle(&c, "/shots", "/shots/sub/ffxiv_20230615_143000_0001.png", true, "/tmp/s").is_none());
    assert!(handle(&c, "/shots", "/shots/unrelated.png", true, "/tmp/s").is_none());
}

#[test]
fn cancellation_stops_workers_and_relay() {
    let cancelled = RunState::Running.signal();
    assert_eq!(cancelled, RunState::Cancelled);
    assert_eq!(cancelled.signal(), RunState::Cancelled);
    assert!(cancelled.is_cancelled());
    for _ in 0..4 {
        assert_eq!(worker_step(cancelled, Some(WatchEvent::Created("/shots/a".to_string()))), WorkerAction::Exit);
        assert_eq!(worker_step(cancelled, None), WorkerAction::Exit);
    }
    assert_eq!(relay_step(cancelled, Poll::Ready(WatchEvent::Other)), RelayAction::Stop);
    let running = RunState::Running;
    assert_eq!(
        worker_step(running, Some(WatchEvent::Created("/shots/a".to_string()))),
        WorkerAction::Handle("/shots/a".to_string())
    );
    assert_eq!(worker_step(running, Some(WatchEvent::Other)), WorkerAction::Skip);
    assert_eq!(relay_step(running, Poll::Empty), RelayAction::Wait);
    assert_eq!(relay_step(running, Poll::Disconnected), RelayAction::Stop);
    assert_eq!(relay_step(running, Poll::Ready(WatchEvent::Other)), RelayAction::Forward(WatchEvent::Other));
}
