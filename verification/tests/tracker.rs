use regex::Regex;
use std::time::Duration;
use std::time::Instant;
use time_tracer::clock::Elapsed;
use time_tracer::clock::Timestamp;
use time_tracer::model::ClockError;
use time_tracer::model::SaveFileRemoval;
use time_tracer::model::TaskState;
use time_tracer::record::RecordError;
use time_tracer::TimeTracer;

const DUMMY_SAVE_FILE_PATH: &str = "test_work/dummy_save.txt";
const DUMMY_CACHE_FILE_PATH: &str = "test_work/dummy_cache.txt";

fn wait_for(span: Duration) {
    let begin = Instant::now();
    while begin.elapsed() < span {
        std::hint::spin_loop();
    }
}

fn create_task_and_start_end(tracer: &mut TimeTracer, task_name: &str, save_file: &mut String) -> bool {
    let id = tracer.new_task(task_name);
    let start_result = tracer.start_task(id);
    if !start_result {
        return false;
    }

    wait_for(Duration::from_millis(500));
    let end_result = tracer.end_task(id);
    if let Some(Ok(_)) = end_result {
        save_file.push_str(&tracer.task_record(id).unwrap());
    }
    matches!(end_result, Some(Ok(_)))
}

fn at(secs: i128, nanos: i128) -> Timestamp {
    Timestamp { nanos: secs * 1_000_000_000 + nanos }
}

#[test]
fn if_new_task_then_task_number_increases() {
    let mut tracer = TimeTracer::new_with_file_path(DUMMY_SAVE_FILE_PATH, DUMMY_CACHE_FILE_PATH);

    assert_eq!(tracer.get_task_number(), 0);

    tracer.new_task("task1");
    assert_eq!(tracer.get_task_number(), 1);
}

#[test]
fn if_new_task_then_cache_current_id() {
    let cache_file_path = "test_work/test_cache_for_check.txt";
    let mut tracer = TimeTracer::new_with_file_path(DUMMY_SAVE_FILE_PATH, cache_file_path);

    assert!(tracer.delete_save_files(SaveFileRemoval::Absent));

    tracer.new_task("task1");
    assert_eq!(tracer.cache_file_path(), cache_file_path);
    assert_eq!(tracer.cache_contents(), "1\n");

    tracer.new_task("task2");
    assert_eq!(tracer.cache_contents(), "2\n");
}

#[test]
fn if_start_task_then_return_true() {
    let mut tracer = TimeTracer::new_with_file_path(DUMMY_SAVE_FILE_PATH, DUMMY_CACHE_FILE_PATH);

    let id = tracer.new_task("task1");
    assert_eq!(tracer.start_task(id), true);
}

#[test]
fn if_end_task_then_return_duration() {
    let mut tracer = TimeTracer::new_with_file_path(DUMMY_SAVE_FILE_PATH, DUMMY_CACHE_FILE_PATH);

    let id = tracer.new_task("task1");
    tracer.start_task(id);

    wait_for(Duration::from_millis(500));
    let duration = tracer.end_task(id).unwrap().unwrap();
    assert!(duration.subsec_millis() >= 500);
}

#[test]
fn if_start_task_twice_then_return_false() {
    let mut tracer = TimeTracer::new_with_file_path(DUMMY_SAVE_FILE_PATH, DUMMY_CACHE_FILE_PATH);

    let id = tracer.new_task("task1");
    tracer.start_task(id);
    assert_eq!(tracer.start_task(id), false);
}

#[test]
fn if_no_start_and_end_task_then_return_none() {
    let mut tracer = TimeTracer::new_with_file_path(DUMMY_SAVE_FILE_PATH, DUMMY_CACHE_FILE_PATH);

    let id = tracer.new_task("task1");
    assert_eq!(tracer.end_task(id), None);
}

#[test]
fn if_task_is_started_and_ended_then_write_to_file() {
    let file_path = "test_work/test_save.txt";
    let cache_file_path = "test_work/test_cache.txt";
    let mut tracer = TimeTracer::new_with_file_path(file_path, cache_file_path);
    let mut file_content = String::new();

    assert!(tracer.delete_save_files(SaveFileRemoval::Absent));
    assert_eq!(tracer.save_file_path(), file_path);

    assert!(create_task_and_start_end(&mut tracer, "task1", &mut file_content));

    assert!(!file_content.is_empty());

    let re = Regex::new(r"0,task1,\d+,\d+").unwrap();
    assert!(re.is_match(&file_content));
}

#[test]
fn if_task_is_started_and_ended_twice_then_append_to_file() {
    let file_path = "test_work/test_save_twice.txt";
    let cache_file_path = "test_work/test_cache_twice.txt";
    let mut tracer = TimeTracer::new_with_file_path(file_path, cache_file_path);
    let mut file_content = String::new();

    assert!(tracer.delete_save_files(SaveFileRemoval::Absent));

    assert!(create_task_and_start_end(&mut tracer, "task1", &mut file_content));

    assert!(create_task_and_start_end(&mut tracer, "task2", &mut file_content));

    assert_eq!(file_content.lines().count(), 2);

    let last_line = file_content.lines().last().unwrap();
    let re = Regex::new(r"1,task2,\d+,\d+").unwrap();
    assert!(re.is_match(last_line));
}

#[test]
fn default_tracker_keeps_default_paths() {
    let tracer = TimeTracer::new();
    assert_eq!(tracer.save_file_path(), "time_tracer_save");
    assert_eq!(tracer.cache_file_path(), "time_tracer_cache");
    assert_eq!(tracer.next_id(), 0);
    assert_eq!(tracer.get_task_number(), 0);
    assert_eq!(tracer.cache_contents(), "0\n");
}

#[test]
fn ids_count_up_from_zero() {
    let mut tracer = TimeTracer::new_with_file_path("s", "c");
    for expected in 0..25u32 {
        assert_eq!(tracer.get_task_number(), expected);
        assert_eq!(tracer.new_task_at("t", at(expected as i128, 0)), expected);
        assert_eq!(tracer.next_id(), expected + 1);
    }
    assert_eq!(tracer.get_task_number(), 25);
}

#[test]
fn ids_count_up_from_cached_value() {
    let mut tracer = TimeTracer::new_with_cache("s", "c", Some("41\n")).unwrap();
    assert_eq!(tracer.next_id(), 41);
    assert_eq!(tracer.new_task("a"), 41);
    assert_eq!(tracer.new_task("b"), 42);
    assert_eq!(tracer.get_task_number(), 2);
    assert_eq!(tracer.cache_contents(), "43\n");
}

#[test]
fn tracker_without_cache_file_starts_at_zero() {
    let tracer = TimeTracer::new_with_cache("s", "c", None).unwrap();
    assert_eq!(tracer.next_id(), 0);
    assert_eq!(tracer.save_file_path(), "s");
    assert_eq!(tracer.cache_file_path(), "c");
}

#[test]
fn tracker_with_broken_cache_is_refused() {
    assert!(TimeTracer::new_with_cache("s", "c", Some("")).is_none());
    assert!(TimeTracer::new_with_cache("s", "c", Some("one")).is_none());
    assert!(TimeTracer::new_with_cache("s", "c", Some("4294967296")).is_none());
    assert!(TimeTracer::new_with_cache("s", "c", Some("4294967295")).is_some());
}

#[test]
fn tracker_with_next_id_hands_it_out_first() {
    let mut tracer = TimeTracer::new_with_next_id("s", "c", 7);
    assert_eq!(tracer.new_task("a"), 7);
    assert_eq!(tracer.next_id(), 8);
}

#[test]
fn start_of_unknown_id_is_turned_down() {
    let mut tracer = TimeTracer::new_with_file_path("s", "c");
    assert!(!tracer.start_task(0));
    tracer.new_task("a");
    assert!(!tracer.start_task(1));
    assert!(!tracer.start_task_at(99, at(1, 0)));
    assert!(!tracer.is_running(1));
}

#[test]
fn end_of_unknown_id_answers_nothing() {
    let mut tracer = TimeTracer::new_with_file_path("s", "c");
    assert_eq!(tracer.end_task(3), None);
    assert_eq!(tracer.end_task_at(3, at(1, 0)), None);
}

#[test]
fn second_end_answers_nothing() {
    let mut tracer = TimeTracer::new_with_file_path("s", "c");
    let id = tracer.new_task_at("a", at(10, 0));
    assert!(tracer.start_task_at(id, at(11, 0)));
    assert!(tracer.is_running(id));
    assert_eq!(tracer.end_task_at(id, at(12, 0)), Some(Ok(Elapsed { nanos: 1_000_000_000 })));
    assert!(!tracer.is_running(id));
    assert_eq!(tracer.end_task_at(id, at(13, 0)), None);
    assert_eq!(tracer.end_task(id), None);
}

#[test]
fn elapsed_is_end_minus_start() {
    let mut tracer = TimeTracer::new_with_file_path("s", "c");
    let id = tracer.new_task_at("a", at(100, 0));
    assert!(tracer.start_task_at(id, at(200, 250_000_000)));
    let elapsed = tracer.end_task_at(id, at(203, 750_000_001)).unwrap().unwrap();
    assert_eq!(elapsed, Elapsed { nanos: 3_500_000_001 });
    assert_eq!(elapsed.as_nanos(), 3_500_000_001);
    assert_eq!(elapsed.as_secs(), 3);
    assert_eq!(elapsed.as_millis(), 3_500);
    assert_eq!(elapsed.subsec_nanos(), 500_000_001);
    assert_eq!(elapsed.subsec_millis(), 500);
}

#[test]
fn elapsed_across_the_epoch() {
    let mut tracer = TimeTracer::new_with_file_path("s", "c");
    let id = tracer.new_task_at("a", at(-5, 0));
    assert!(tracer.start_task_at(id, at(-2, 0)));
    assert_eq!(tracer.end_task_at(id, at(3, 0)), Some(Ok(Elapsed { nanos: 5_000_000_000 })));
}

#[test]
fn elapsed_between_the_farthest_instants() {
    let first = Timestamp { nanos: i128::MIN };
    let last = Timestamp { nanos: i128::MAX };
    assert_eq!(last.elapsed_since(first), Some(Elapsed { nanos: u128::MAX }));
    assert_eq!(first.elapsed_since(last), None);
    assert_eq!(first.elapsed_since(first), Some(Elapsed { nanos: 0 }));
    assert_eq!(Timestamp { nanos: -1 }.elapsed_since(first), Some(Elapsed { nanos: (i128::MAX as u128) }));
}

#[test]
fn clock_that_went_backwards_is_reported() {
    let mut tracer = TimeTracer::new_with_file_path("s", "c");
    let id = tracer.new_task_at("a", at(10, 0));
    assert!(tracer.start_task_at(id, at(20, 0)));
    assert_eq!(tracer.end_task_at(id, at(19, 999_999_999)), Some(Err(ClockError::WentBackwards)));
    assert!(tracer.is_running(id));
    assert!(!tracer.start_task_at(id, at(21, 0)));
    assert_eq!(tracer.end_task_at(id, at(20, 0)), Some(Ok(Elapsed { nanos: 0 })));
    assert!(!tracer.is_running(id));
}

#[test]
fn several_tasks_run_at_once() {
    let mut tracer = TimeTracer::new_with_file_path("s", "c");
    let a = tracer.new_task_at("a", at(1, 0));
    let b = tracer.new_task_at("b", at(1, 0));
    let c = tracer.new_task_at("c", at(1, 0));
    assert!(tracer.start_task_at(a, at(2, 0)));
    assert!(tracer.start_task_at(b, at(3, 0)));
    assert!(tracer.start_task_at(c, at(4, 0)));
    assert_eq!(tracer.end_task_at(b, at(10, 0)), Some(Ok(Elapsed { nanos: 7_000_000_000 })));
    assert!(tracer.is_running(a));
    assert!(!tracer.is_running(b));
    assert!(tracer.is_running(c));
    assert_eq!(tracer.end_task_at(a, at(10, 0)), Some(Ok(Elapsed { nanos: 8_000_000_000 })));
    assert_eq!(tracer.end_task_at(c, at(10, 0)), Some(Ok(Elapsed { nanos: 6_000_000_000 })));
    assert_eq!(tracer.get_task_number(), 3);
}

#[test]
fn ended_task_is_not_started_again() {
    let mut tracer = TimeTracer::new_with_file_path("s", "c");
    let id = tracer.new_task_at("a", at(1, 0));
    assert!(tracer.start_task_at(id, at(2, 0)));
    assert_eq!(tracer.end_task_at(id, at(3, 0)), Some(Ok(Elapsed { nanos: 1_000_000_000 })));
    assert!(!tracer.start_task_at(id, at(5, 0)));
    assert!(!tracer.start_task(id));
    assert!(!tracer.is_running(id));
    assert_eq!(tracer.end_task_at(id, at(9, 0)), None);
    assert_eq!(tracer.task_record(id).unwrap(), "0,a,2,3\n");
}

#[test]
fn ended_task_is_not_started_again_by_the_clock() {
    let mut tracer = TimeTracer::new_with_file_path("s", "c");
    let id = tracer.new_task("task1");
    assert_eq!(tracer.start_task(id), true);
    assert!(tracer.end_task(id).is_some());
    assert_eq!(tracer.start_task(id), false);
}

#[test]
fn task_goes_from_created_to_running_to_ended() {
    let mut tracer = TimeTracer::new_with_file_path("s", "c");
    assert_eq!(tracer.task_state(0), None);
    let id = tracer.new_task_at("a", at(1, 0));
    assert_eq!(tracer.task_state(id), Some(TaskState::Created));
    assert_eq!(tracer.end_task_at(id, at(2, 0)), None);
    assert_eq!(tracer.task_state(id), Some(TaskState::Created));
    assert!(tracer.start_task_at(id, at(3, 0)));
    assert_eq!(tracer.task_state(id), Some(TaskState::Running));
    assert!(!tracer.start_task_at(id, at(4, 0)));
    assert_eq!(tracer.task_state(id), Some(TaskState::Running));
    assert_eq!(tracer.end_task_at(id, at(2, 0)), Some(Err(ClockError::WentBackwards)));
    assert_eq!(tracer.task_state(id), Some(TaskState::Running));
    assert_eq!(tracer.end_task_at(id, at(5, 0)), Some(Ok(Elapsed { nanos: 2_000_000_000 })));
    assert_eq!(tracer.task_state(id), Some(TaskState::Ended));
    assert!(!tracer.start_task_at(id, at(6, 0)));
    assert_eq!(tracer.end_task_at(id, at(7, 0)), None);
    assert_eq!(tracer.task_state(id), Some(TaskState::Ended));
    assert_eq!(tracer.task_state(id + 1), None);
}

#[test]
fn record_holds_id_name_and_whole_seconds() {
    let mut tracer = TimeTracer::new_with_next_id("s", "c", 12);
    let id = tracer.new_task_at("write report", at(1_700_000_000, 5));
    assert_eq!(tracer.task_record(id).unwrap(), "12,write report,1700000000,1700000000\n");
    assert!(tracer.start_task_at(id, at(1_700_000_100, 999_999_999)));
    assert!(tracer.end_task_at(id, at(1_700_000_260, 1)).is_some());
    assert_eq!(tracer.task_record(id).unwrap(), "12,write report,1700000100,1700000260\n");
}

#[test]
fn record_keeps_commas_of_the_name() {
    let mut tracer = TimeTracer::new_with_file_path("s", "c");
    let id = tracer.new_task_at("a,b", at(0, 0));
    assert_eq!(tracer.task_record(id).unwrap(), "0,a,b,0,0\n");
}

#[test]
fn record_of_unknown_task_is_an_error() {
    let tracer = TimeTracer::new_with_file_path("s", "c");
    assert_eq!(tracer.task_record(0), Err(RecordError::UnknownTask));
}

#[test]
fn record_before_the_epoch_is_an_error() {
    let mut tracer = TimeTracer::new_with_file_path("s", "c");
    let id = tracer.new_task_at("a", at(-1, 0));
    assert_eq!(tracer.task_record(id), Err(RecordError::BeforeEpoch));
    assert!(tracer.start_task_at(id, at(-1, 0)));
    assert!(tracer.end_task_at(id, at(4, 0)).is_some());
    assert_eq!(tracer.task_record(id), Err(RecordError::BeforeEpoch));
    let later = tracer.new_task_at("b", at(0, 0));
    assert!(tracer.start_task_at(later, at(4, 0)));
    assert_eq!(tracer.task_record(later), Ok(String::from("1,b,4,0\n")));
    assert!(tracer.end_task_at(later, at(4, 0)).is_some());
    assert_eq!(tracer.task_record(later).unwrap(), "1,b,4,4\n");
}

#[test]
fn record_of_a_task_timed_by_the_clock() {
    let mut tracer = TimeTracer::new_with_file_path("s", "c");
    let id = tracer.new_task("clocked");
    assert!(tracer.start_task(id));
    assert!(tracer.end_task(id).unwrap().is_ok());
    let line = tracer.task_record(id).unwrap();
    let fields: Vec<&str> = line.trim_end().split(',').collect();
    assert_eq!(fields.len(), 4);
    assert_eq!(fields[0], "0");
    assert_eq!(fields[1], "clocked");
    let start: u64 = fields[2].parse().unwrap();
    let end: u64 = fields[3].parse().unwrap();
    assert!(start >= 1_600_000_000);
    assert!(end >= start);
}

#[test]
fn removed_save_file_resets_the_ids() {
    let mut tracer = TimeTracer::new_with_next_id("s", "c", 5);
    tracer.new_task("a");
    assert_eq!(tracer.next_id(), 6);
    assert!(tracer.delete_save_files(SaveFileRemoval::Removed));
    assert_eq!(tracer.next_id(), 0);
    assert_eq!(tracer.get_task_number(), 1);
    assert_eq!(tracer.cache_contents(), "0\n");
}

#[test]
fn absent_save_file_changes_nothing() {
    let mut tracer = TimeTracer::new_with_next_id("s", "c", 5);
    tracer.new_task("a");
    assert!(tracer.delete_save_files(SaveFileRemoval::Absent));
    assert_eq!(tracer.next_id(), 6);
    assert_eq!(tracer.get_task_number(), 1);
}

#[test]
fn failed_removal_changes_nothing() {
    let mut tracer = TimeTracer::new_with_next_id("s", "c", 5);
    tracer.new_task("a");
    assert!(!tracer.delete_save_files(SaveFileRemoval::Failed));
    assert_eq!(tracer.next_id(), 6);
    assert_eq!(tracer.get_task_number(), 1);
}

#[test]
fn id_handed_out_again_after_reset_names_a_new_task() {
    let mut tracer = TimeTracer::new_with_file_path("s", "c");
    assert_eq!(tracer.new_task_at("old", at(1, 0)), 0);
    assert!(tracer.start_task_at(0, at(2, 0)));
    assert!(tracer.delete_save_files(SaveFileRemoval::Removed));
    assert!(tracer.is_running(0));
    assert_eq!(tracer.new_task_at("new", at(3, 0)), 0);
    assert_eq!(tracer.get_task_number(), 1);
    assert_eq!(tracer.task_state(0), Some(TaskState::Created));
    assert!(!tracer.is_running(0));
    assert_eq!(tracer.end_task_at(0, at(4, 0)), None);
    assert_eq!(tracer.task_record(0).unwrap(), "0,new,3,3\n");
    assert!(tracer.start_task_at(0, at(4, 0)));
    assert!(!tracer.start_task_at(0, at(5, 0)));
    assert_eq!(tracer.end_task_at(0, at(6, 0)), Some(Ok(Elapsed { nanos: 2_000_000_000 })));
    assert_eq!(tracer.end_task_at(0, at(7, 0)), None);
}

#[test]
fn id_of_an_ended_task_handed_out_again_can_be_started() {
    let mut tracer = TimeTracer::new_with_file_path("s", "c");
    let first = tracer.new_task_at("old", at(1, 0));
    let other = tracer.new_task_at("other", at(1, 0));
    assert!(tracer.start_task_at(first, at(2, 0)));
    assert!(tracer.start_task_at(other, at(2, 0)));
    assert!(tracer.end_task_at(first, at(3, 0)).is_some());
    assert!(tracer.delete_save_files(SaveFileRemoval::Removed));
    assert_eq!(tracer.new_task_at("new", at(4, 0)), first);
    assert!(tracer.is_running(other));
    assert!(tracer.start_task_at(first, at(5, 0)));
    assert_eq!(tracer.get_task_number(), 2);
}
