use vstd::prelude::*;

use crate::{CarouselChooseType, CarouselTrigger};

verus! {

/// The interval, in minutes, that the settings window shows when none is stored.
pub const DEFAULT_INTERVAL_MINUTES: u32 = 15;

/// What the settings window is told: a choice of the user, or news from its
/// surroundings. `W` is the window's size and `I` the picture of the lock screen
/// as the window displays it; the state keeps both without looking inside.
pub enum AppMessage<W, I> {
    /// A trigger was picked.
    Trigger(CarouselTrigger),
    /// An interval, in minutes, was entered.
    Interval(u32),
    /// The pictures were reordered; this is the whole new list.
    Collection(Vec<String>),
    /// Pictures were picked to go at the end of the list.
    AddToCollection(Vec<String>),
    /// The picture at this index was removed from the list.
    RemoveFromCollection(usize),
    /// The selection in the list changed.
    Select(Option<usize>),
    /// A choose type was picked.
    Type(CarouselChooseType),
    /// The window was resized.
    Resize(W),
    /// The preview of the lock screen should be loaded again.
    RefreshPreview,
    /// The lock screen picture was loaded, with the file name of the picture when it has one.
    LockScreenLoaded(I, Option<String>),
    /// Nothing happened.
    Noop,
}

/// Work that the window has to do for the state after a message.
#[derive(Clone, Copy, PartialEq, Eq, Structural, Debug)]
pub enum AppAction {
    /// Nothing to do.
    Nothing,
    /// Load the current lock screen picture in the background and report it
    /// with `AppMessage::LockScreenLoaded`.
    LoadLockScreen,
}

/// What the settings window shows and edits.
pub struct AppState<W, I> {
    pub trigger: CarouselTrigger,
    pub interval: u32,
    pub collection: Vec<String>,
    /// The collection changed since it was last saved.
    pub collection_dirty: bool,
    pub selected_photo: Option<usize>,
    pub choose_type: CarouselChooseType,
    pub window_size: W,
    pub lock_screen_image: Option<I>,
    pub lock_screen_path: Option<String>,
}

/// Whether a message changes the list of pictures.
pub open spec fn changes_collection<W, I>(message: AppMessage<W, I>) -> bool {
    ||| message is Collection
    ||| message is AddToCollection
    ||| message is RemoveFromCollection
}

/// Whether the state accepts a message: a picture can only be removed at an index of the list.
pub open spec fn accepts<W, I>(state: AppState<W, I>, message: AppMessage<W, I>) -> bool {
    message matches AppMessage::RemoveFromCollection(index) ==> index < state.collection@.len()
}

/// What a message does to the list of pictures: a new order replaces it, added
/// pictures go at the end, a removal takes out one picture; any of these marks the
/// list for saving, and every other message leaves list and mark alone.
pub open spec fn collection_update<W, I>(
    before: AppState<W, I>,
    message: AppMessage<W, I>,
    after: AppState<W, I>,
) -> bool {
    &&& after.collection@ == (match message {
        AppMessage::Collection(c) => c@,
        AppMessage::AddToCollection(added) => before.collection@ + added@,
        AppMessage::RemoveFromCollection(index) => before.collection@.remove(index as int),
        _ => before.collection@,
    })
    &&& after.collection_dirty == (before.collection_dirty || changes_collection(message))
}

/// Handing out the save mark: `dirty` is the mark as it was, the mark is cleared,
/// and the list stays as it is.
pub open spec fn collection_take<W, I>(before: AppState<W, I>, dirty: bool, after: AppState<W, I>) -> bool {
    &&& dirty == before.collection_dirty
    &&& !after.collection_dirty
    &&& after.collection == before.collection
}

/// The list the window shows is the one last saved (`saved`), or it is marked for saving.
pub open spec fn collection_saved_or_pending<W, I>(state: AppState<W, I>, saved: Seq<String>) -> bool {
    state.collection_dirty || state.collection@ == saved
}

impl<W, I> AppState<W, I> {
    /// The state of a window that opens on the stored settings: what could not be
    /// read falls back to `Never`, `DEFAULT_INTERVAL_MINUTES`, no pictures and
    /// `Iterate`; nothing is selected, nothing needs saving, and no preview is loaded.
    pub fn new(
        trigger: Option<CarouselTrigger>,
        interval: Option<u32>,
        collection: Option<Vec<String>>,
        choose_type: Option<CarouselChooseType>,
        window_size: W,
    ) -> (state: Self)
        ensures
            state.trigger == (match trigger {
                Some(t) => t,
                None => CarouselTrigger::Never,
            }),
            state.interval == (match interval {
                Some(i) => i,
                None => DEFAULT_INTERVAL_MINUTES,
            }),
            state.collection@ == (match collection {
                Some(c) => c@,
                None => Seq::<String>::empty(),
            }),
            state.choose_type == (match choose_type {
                Some(c) => c,
                None => CarouselChooseType::Iterate,
            }),
            !state.collection_dirty,
            state.selected_photo is None,
            state.window_size == window_size,
            state.lock_screen_image is None,
            state.lock_screen_path is None,
    {
        let trigger = match trigger {
            Some(t) => t,
            None => CarouselTrigger::Never,
        };
        let interval = match interval {
            Some(i) => i,
            None => DEFAULT_INTERVAL_MINUTES,
        };
        let collection = match collection {
            Some(c) => c,
            None => Vec::new(),
        };
        let choose_type = match choose_type {
            Some(c) => c,
            None => CarouselChooseType::Iterate,
        };
        AppState {
            trigger,
            interval,
            collection,
            collection_dirty: false,
            selected_photo: None,
            choose_type,
            window_size,
            lock_screen_image: None,
            lock_screen_path: None,
        }
    }

    /// Takes in one message: each message sets the part of the state it is
    /// about and leaves the rest alone; a change of the list of pictures marks it
    /// for saving; a request for the preview is answered with `LoadLockScreen`.
    pub fn update(&mut self, message: AppMessage<W, I>) -> (action: AppAction)
        requires
            accepts(*old(self), message),
        ensures
            final(self).trigger == (match message {
                AppMessage::Trigger(t) => t,
                _ => old(self).trigger,
            }),
            final(self).interval == (match message {
                AppMessage::Interval(i) => i,
                _ => old(self).interval,
            }),
            collection_update(*old(self), message, *final(self)),
            message matches AppMessage::Collection(c) ==> final(self).collection@ == c@,
            message matches AppMessage::AddToCollection(added) ==> {
                &&& final(self).collection@.len() == old(self).collection@.len() + added@.len()
                &&& forall|j: int|
                    0 <= j < old(self).collection@.len() ==> #[trigger] final(self).collection@[j]
                        == old(self).collection@[j]
                &&& forall|j: int|
                    0 <= j < added@.len() ==> final(self).collection@[old(self).collection@.len() + j]
                        == #[trigger] added@[j]
            },
            message matches AppMessage::RemoveFromCollection(index) ==> {
                &&& final(self).collection@.len() + 1 == old(self).collection@.len()
                &&& forall|j: int| 0 <= j < index ==> #[trigger] final(self).collection@[j] == old(self).collection@[j]
                &&& forall|j: int|
                    index <= j < final(self).collection@.len() ==> #[trigger] final(self).collection@[j]
                        == old(self).collection@[j + 1]
            },
            !changes_collection(message) ==> final(self).collection@ == old(self).collection@,
            changes_collection(message) ==> final(self).collection_dirty,
            !changes_collection(message) ==> final(self).collection_dirty == old(self).collection_dirty,
            final(self).selected_photo == (match message {
                AppMessage::Select(selected) => selected,
                _ => old(self).selected_photo,
            }),
            final(self).choose_type == (match message {
                AppMessage::Type(c) => c,
                _ => old(self).choose_type,
            }),
            final(self).window_size == (match message {
                AppMessage::Resize(size) => size,
                _ => old(self).window_size,
            }),
            final(self).lock_screen_image == (match message {
                AppMessage::LockScreenLoaded(image, _) => Some(image),
                _ => old(self).lock_screen_image,
            }),
            final(self).lock_screen_path == (match message {
                AppMessage::LockScreenLoaded(_, path) => path,
                _ => old(self).lock_screen_path,
            }),
            action == (if message is RefreshPreview {
                AppAction::LoadLockScreen
            } else {
                AppAction::Nothing
            }),
    {
        match message {
            AppMessage::Trigger(trigger) => {
                self.trigger = trigger;
            },
            AppMessage::Interval(interval) => {
                self.interval = interval;
            },
            AppMessage::Collection(collection) => {
                self.collection = collection;
                self.collection_dirty = true;
            },
            AppMessage::AddToCollection(added) => {
                let mut added = added;
                self.collection.append(&mut added);
                self.collection_dirty = true;
            },
            AppMessage::RemoveFromCollection(index) => {
                self.collection.remove(index);
                self.collection_dirty = true;
            },
            AppMessage::Select(selected) => {
                self.selected_photo = selected;
            },
            AppMessage::Type(choose_type) => {
                self.choose_type = choose_type;
            },
            AppMessage::Resize(size) => {
                self.window_size = size;
            },
            AppMessage::RefreshPreview => {
                return AppAction::LoadLockScreen;
            },
            AppMessage::LockScreenLoaded(image, path) => {
                self.lock_screen_image = Some(image);
                self.lock_screen_path = path;
            },
            AppMessage::Noop => {},
        }
        AppAction::Nothing
    }

    /// Hands out the mark that the list of pictures needs saving, and clears it:
    /// the window saves the list exactly when this returns `true`.
    pub fn take_collection_dirty(&mut self) -> (dirty: bool)
        ensures
            collection_take(*old(self), dirty, *final(self)),
            dirty == old(self).collection_dirty,
            !final(self).collection_dirty,
            final(self).collection@ == old(self).collection@,
            final(self).trigger == old(self).trigger,
            final(self).interval == old(self).interval,
            final(self).selected_photo == old(self).selected_photo,
            final(self).choose_type == old(self).choose_type,
            final(self).window_size == old(self).window_size,
            final(self).lock_screen_image == old(self).lock_screen_image,
            final(self).lock_screen_path == old(self).lock_screen_path,
    {
        let dirty = self.collection_dirty;
        self.collection_dirty = false;
        dirty
    }
}

/// Decides, when the trigger or the interval has changed (and once as the window
/// opens), whether the task is to be scheduled again: not the first time, which
/// only clears `first_run`, and every time after.
pub fn trigger_settings_changed(first_run: &mut bool) -> (reschedule: bool)
    ensures
        reschedule == !*old(first_run),
        !*final(first_run),
{
    if *first_run {
        *first_run = false;
        false
    } else {
        true
    }
}

/// The texts of a menu's labels.
pub open spec fn label_texts(labels: Seq<&str>) -> Seq<Seq<char>> {
    labels.map_values(|label: &str| label@)
}

/// `index` is the first place among `labels` where `text` stands.
pub open spec fn first_label_at(labels: Seq<Seq<char>>, text: Seq<char>, index: int) -> bool {
    &&& 0 <= index < labels.len()
    &&& labels[index] == text
    &&& forall|j: int| 0 <= j < index ==> #[trigger] labels[j] != text
}

/// The index of the first of `labels` that reads `text`: what a drop-down menu
/// picked; `None` when no label reads so.
pub fn menu_choice(labels: &[&str], text: &String) -> (choice: Option<usize>)
    ensures
        choice matches Some(i) ==> first_label_at(label_texts(labels@), text@, i as int),
        choice is None ==> !label_texts(labels@).contains(text@),
        choice matches Some(i) ==> i < labels@.len() && labels@[i as int]@ == text@,
        choice matches Some(i) ==> forall|j: int| 0 <= j < i ==> #[trigger] labels@[j]@ != text@,
        choice is None ==> forall|j: int| 0 <= j < labels@.len() ==> #[trigger] labels@[j]@ != text@,
{
    let ghost texts = label_texts(labels@);
    let mut i: usize = 0;
    while i < labels.len()
        invariant
            i <= labels@.len(),
            texts == label_texts(labels@),
            forall|j: int| 0 <= j < i ==> #[trigger] texts[j] != text@,
            forall|j: int| 0 <= j < i ==> #[trigger] labels@[j]@ != text@,
        decreases labels@.len() - i,
    {
        let label = String::from_str(labels[i]);
        if label == *text {
            return Some(i);
        }
        i = i + 1;
    }
    None
}

/// In a menu whose labels are all different, picking the label at `index`
/// gives back `index`: the menu maps each entry back to the setting it shows.
pub proof fn lemma_distinct_labels_pick_back(labels: Seq<Seq<char>>, index: int)
    requires
        0 <= index < labels.len(),
        forall|a: int, b: int| 0 <= a < labels.len() && 0 <= b < labels.len() && a != b ==> labels[a] != labels[b],
    ensures
        first_label_at(labels, labels[index], index),
{
}

/// No message loses a change of the list: when the shown list was saved or marked
/// for saving before a message, it still is after it.
pub proof fn lemma_update_keeps_collection_pending<W, I>(
    before: AppState<W, I>,
    message: AppMessage<W, I>,
    after: AppState<W, I>,
    saved: Seq<String>,
)
    requires
        collection_saved_or_pending(before, saved),
        collection_update(before, message, after),
    ensures
        collection_saved_or_pending(after, saved),
{
}

/// The same holds of any run of messages: `states[i + 1]` is what `messages[i]`
/// made of `states[i]`.
pub proof fn lemma_updates_keep_collection_pending<W, I>(
    states: Seq<AppState<W, I>>,
    messages: Seq<AppMessage<W, I>>,
    saved: Seq<String>,
)
    requires
        states.len() == messages.len() + 1,
        collection_saved_or_pending(states[0], saved),
        forall|i: int|
            0 <= i < messages.len() ==> collection_update(#[trigger] states[i], messages[i], states[i + 1]),
    ensures
        collection_saved_or_pending(states.last(), saved),
    decreases messages.len(),
{
    if messages.len() > 0 {
        let n = messages.len() - 1;
        assert forall|i: int| 0 <= i < n implies collection_update(
            #[trigger] states.drop_last()[i],
            messages.drop_last()[i],
            states.drop_last()[i + 1],
        ) by {
            assert(collection_update(states[i], messages[i], states[i + 1]));
        }
        lemma_updates_keep_collection_pending(states.drop_last(), messages.drop_last(), saved);
        assert(collection_update(states[n], messages[n], states[n + 1]));
        lemma_update_keeps_collection_pending(states[n], messages[n], states[n + 1], saved);
    }
}

/// Every change that a run of messages makes to the list is saved by the next
/// rendering of the window: it takes the save mark and saves the list when the
/// mark was set, after which the saved list is the shown one and nothing is marked.
pub proof fn lemma_render_after_updates_saves_collection<W, I>(
    states: Seq<AppState<W, I>>,
    messages: Seq<AppMessage<W, I>>,
    saved: Seq<String>,
    dirty: bool,
    rendered: AppState<W, I>,
)
    requires
        states.len() == messages.len() + 1,
        collection_saved_or_pending(states[0], saved),
        forall|i: int|
            0 <= i < messages.len() ==> collection_update(#[trigger] states[i], messages[i], states[i + 1]),
        collection_take(states.last(), dirty, rendered),
    ensures
        (if dirty {
            rendered.collection@
        } else {
            saved
        }) == rendered.collection@,
        !rendered.collection_dirty,
{
    lemma_updates_keep_collection_pending(states, messages, saved);
}

/// A new order of the pictures replaces the list, whatever its length.
pub proof fn lemma_reorder_replaces_collection<W, I>(
    before: AppState<W, I>,
    order: Vec<String>,
    after: AppState<W, I>,
)
    requires
        collection_update(before, AppMessage::Collection(order), after),
    ensures
        after.collection@ == order@,
        after.collection_dirty,
{
}

/// Added pictures all go at the end of the list, in the order they were picked:
/// the list grows by their number, keeps its old pictures in front, and ends
/// with every added picture.
pub proof fn lemma_add_appends_all<W, I>(
    before: AppState<W, I>,
    added: Vec<String>,
    after: AppState<W, I>,
)
    requires
        collection_update(before, AppMessage::AddToCollection(added), after),
    ensures
        after.collection@.len() == before.collection@.len() + added@.len(),
        forall|j: int| 0 <= j < before.collection@.len() ==> #[trigger] after.collection@[j] == before.collection@[j],
        forall|j: int| 0 <= j < added@.len() ==> after.collection@[before.collection@.len() + j] == #[trigger] added@[j],
        after.collection_dirty,
{
}

/// Removing the picture at `index` takes out that one picture: the pictures
/// before it stay, the ones after it move up by one.
pub proof fn lemma_remove_takes_out_one<W, I>(
    before: AppState<W, I>,
    index: usize,
    after: AppState<W, I>,
)
    requires
        index < before.collection@.len(),
        collection_update(before, AppMessage::RemoveFromCollection(index), after),
    ensures
        after.collection@.len() + 1 == before.collection@.len(),
        forall|j: int| 0 <= j < index ==> #[trigger] after.collection@[j] == before.collection@[j],
        forall|j: int|
            index <= j < after.collection@.len() ==> #[trigger] after.collection@[j] == before.collection@[j + 1],
        after.collection_dirty,
{
}

/// A message that is not about the list leaves the list and its save mark alone.
pub proof fn lemma_other_messages_keep_collection<W, I>(
    before: AppState<W, I>,
    message: AppMessage<W, I>,
    after: AppState<W, I>,
)
    requires
        !(message is Collection),
        !(message is AddToCollection),
        !(message is RemoveFromCollection),
        collection_update(before, message, after),
    ensures
        after.collection@ == before.collection@,
        after.collection_dirty == before.collection_dirty,
{
}

} // verus!
