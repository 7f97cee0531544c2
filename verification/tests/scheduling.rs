use lock_screen_carousel::task_scheduler::{
    plan_task_trigger, repetition_interval, TaskTrigger,
    TASK_FOLDER, TASK_NAME, TIME_TRIGGER_ID, UNLOCK_TRIGGER_ID,
};
use lock_screen_carousel::CarouselTrigger;

#[test]
fn repetition_interval_matches_std_formatting() {
    for n in [0u32, 1, 9, 10, 99, 100, 101, 4096, 10080, 65535, 1_000_000, u32::MAX] {
        assert_eq!(repetition_interval(n), format!("PT{}M", n));
    }
}

#[test]
fn repetition_interval_is_iso_duration() {
    assert_eq!(repetition_interval(15), "PT15M");
    assert_eq!(repetition_interval(5), "PT5M");
    assert_eq!(repetition_interval(10080), "PT10080M");
    assert_eq!(repetition_interval(0), "PT0M");
    assert_eq!(repetition_interval(u32::MAX), "PT4294967295M");
}

#[test]
fn never_schedules_nothing() {
    assert!(plan_task_trigger(CarouselTrigger::Never, 15).is_none());
}

#[test]
fn lock_schedules_unlock_trigger() {
    assert!(matches!(plan_task_trigger(CarouselTrigger::Lock, 15), Some(TaskTrigger::SessionUnlock)));
}

#[test]
fn interval_schedules_repeating_trigger() {
    match plan_task_trigger(CarouselTrigger::Interval, 30) {
        Some(TaskTrigger::Repeating { interval }) => assert_eq!(interval, "PT30M"),
        _ => panic!("expected a repeating trigger"),
    }
}

#[test]
fn task_names() {
    assert_eq!(TASK_NAME, "Lock Screen Carousel");
    assert_eq!(TASK_FOLDER, "\\");
    assert_eq!(UNLOCK_TRIGGER_ID, "Unlock trigger");
    assert_eq!(TIME_TRIGGER_ID, "Time trigger");
}
