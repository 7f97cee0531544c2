use vstd::prelude::*;

verus! {

/// The key under the current user's hive where the carousel keeps its settings.
pub const LOCK_SCREEN_CAROUSEL_KEY: &'static str = "SOFTWARE\\LockScreenCarousel";

/// The value that holds the interval between two pictures, in minutes.
pub const INTERVAL_VALUE: &'static str = "Interval";

/// The value that holds the trigger, as the number `u32::from` gives it.
pub const TRIGGER_VALUE: &'static str = "Trigger";

/// The value that holds the paths of the pictures, in order.
pub const PHOTOS_VALUE: &'static str = "Photos";

/// The value that holds the index of the picture shown last.
pub const CURRENT_PHOTO_VALUE: &'static str = "CurrentPhoto";

/// The value that holds the choose type, as the number `u32::from` gives it.
pub const CHOOSE_TYPE_VALUE: &'static str = "ChooseType";

} // verus!
