use lock_screen_carousel::app_state::{
    menu_choice, trigger_settings_changed, AppAction, AppMessage, AppState, DEFAULT_INTERVAL_MINUTES,
};
use lock_screen_carousel::{CarouselChooseType, CarouselTrigger};

type State = AppState<(f64, f64), Vec<u8>>;
type Message = AppMessage<(f64, f64), Vec<u8>>;

fn strings(names: &[&str]) -> Vec<String> {
    names.iter().map(|n| n.to_string()).collect()
}

fn loaded_state() -> State {
    AppState::new(
        Some(CarouselTrigger::Lock),
        Some(30),
        Some(strings(&["a.jpg", "b.jpg", "c.jpg"])),
        Some(CarouselChooseType::Random),
        (1200.0, 800.0),
    )
}

#[test]
fn new_falls_back_to_defaults() {
    let state: State = AppState::new(None, None, None, None, (1200.0, 800.0));
    assert_eq!(state.trigger, CarouselTrigger::Never);
    assert_eq!(state.interval, DEFAULT_INTERVAL_MINUTES);
    assert_eq!(state.interval, 15);
    assert!(state.collection.is_empty());
    assert_eq!(state.choose_type, CarouselChooseType::Iterate);
    assert!(!state.collection_dirty);
    assert_eq!(state.selected_photo, None);
    assert_eq!(state.window_size, (1200.0, 800.0));
    assert!(state.lock_screen_image.is_none());
    assert!(state.lock_screen_path.is_none());
}

#[test]
fn new_keeps_loaded_settings() {
    let state = loaded_state();
    assert_eq!(state.trigger, CarouselTrigger::Lock);
    assert_eq!(state.interval, 30);
    assert_eq!(state.collection, strings(&["a.jpg", "b.jpg", "c.jpg"]));
    assert_eq!(state.choose_type, CarouselChooseType::Random);
    assert!(!state.collection_dirty);
}

#[test]
fn trigger_interval_type_select_messages() {
    let mut state = loaded_state();
    assert_eq!(state.update(Message::Trigger(CarouselTrigger::Interval)), AppAction::Nothing);
    assert_eq!(state.update(Message::Interval(45)), AppAction::Nothing);
    assert_eq!(state.update(Message::Type(CarouselChooseType::Iterate)), AppAction::Nothing);
    assert_eq!(state.update(Message::Select(Some(2))), AppAction::Nothing);
    assert_eq!(state.trigger, CarouselTrigger::Interval);
    assert_eq!(state.interval, 45);
    assert_eq!(state.choose_type, CarouselChooseType::Iterate);
    assert_eq!(state.selected_photo, Some(2));
    assert_eq!(state.collection, strings(&["a.jpg", "b.jpg", "c.jpg"]));
    assert!(!state.collection_dirty);
}

#[test]
fn collection_messages_mark_dirty() {
    let mut state = loaded_state();
    state.update(Message::AddToCollection(strings(&["d.png"])));
    assert_eq!(state.collection, strings(&["a.jpg", "b.jpg", "c.jpg", "d.png"]));
    assert!(state.collection_dirty);
    assert!(state.take_collection_dirty());
    assert!(!state.take_collection_dirty());

    state.update(Message::RemoveFromCollection(1));
    assert_eq!(state.collection, strings(&["a.jpg", "c.jpg", "d.png"]));
    assert!(state.take_collection_dirty());

    state.update(Message::Collection(strings(&["d.png", "a.jpg"])));
    assert_eq!(state.collection, strings(&["d.png", "a.jpg"]));
    assert!(state.take_collection_dirty());
    assert_eq!(state.collection, strings(&["d.png", "a.jpg"]));
}

#[test]
fn refresh_preview_asks_for_loading() {
    let mut state = loaded_state();
    assert_eq!(state.update(Message::RefreshPreview), AppAction::LoadLockScreen);
    assert!(state.lock_screen_image.is_none());
    assert_eq!(state.update(Message::LockScreenLoaded(vec![1, 2, 3], Some("img.jpg".to_string()))), AppAction::Nothing);
    assert_eq!(state.lock_screen_image, Some(vec![1, 2, 3]));
    assert_eq!(state.lock_screen_path.as_deref(), Some("img.jpg"));
}

#[test]
fn resize_and_noop() {
    let mut state = loaded_state();
    assert_eq!(state.update(Message::Resize((900.0, 700.0))), AppAction::Nothing);
    assert_eq!(state.window_size, (900.0, 700.0));
    assert_eq!(state.update(Message::Noop), AppAction::Nothing);
    assert_eq!(state.window_size, (900.0, 700.0));
    assert_eq!(state.trigger, CarouselTrigger::Lock);
}

#[test]
fn first_trigger_change_does_not_reschedule() {
    let mut first_run = true;
    assert!(!trigger_settings_changed(&mut first_run));
    assert!(!first_run);
    assert!(trigger_settings_changed(&mut first_run));
    assert!(trigger_settings_changed(&mut first_run));
    assert!(!first_run);
}

#[test]
fn menu_choice_finds_label() {
    let labels = ["Never", "Timer", "Session lock"];
    assert_eq!(menu_choice(&labels, &"Never".to_string()), Some(0));
    assert_eq!(menu_choice(&labels, &"Session lock".to_string()), Some(2));
    assert_eq!(menu_choice(&labels, &"Sometimes".to_string()), None);
    assert_eq!(menu_choice(&[], &"Never".to_string()), None);
}

#[test]
fn menu_choice_maps_back_to_trigger() {
    let labels = ["Never", "Timer", "Session lock"];
    for trigger in [CarouselTrigger::Never, CarouselTrigger::Interval, CarouselTrigger::Lock] {
        let shown = labels[u32::from(trigger) as usize].to_string();
        let picked = menu_choice(&labels, &shown).expect("label") as u32;
        assert_eq!(CarouselTrigger::from(picked), trigger);
    }
    let labels = ["Next in list", "Random"];
    for choose_type in [CarouselChooseType::Iterate, CarouselChooseType::Random] {
        let shown = labels[u32::from(choose_type) as usize].to_string();
        let picked = menu_choice(&labels, &shown).expect("label") as u32;
        assert_eq!(CarouselChooseType::from(picked), choose_type);
    }
}

#[test]
fn menu_choice_first_of_repeated_labels() {
    let labels = ["x", "y", "x"];
    assert_eq!(menu_choice(&labels, &"x".to_string()), Some(0));
}
