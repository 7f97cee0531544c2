use vstd::prelude::*;

pub mod app_state;
pub mod path;
pub mod registry;
pub mod task;
pub mod task_scheduler;
pub mod utils;

verus! {

/// What makes the carousel move on to another lock screen picture.
#[derive(Clone, Copy, PartialEq, Eq, Structural, Debug)]
pub enum CarouselTrigger {
    /// The picture is never changed.
    Never,
    /// The picture is changed every few minutes.
    Interval,
    /// The picture is changed whenever the session is unlocked.
    Lock,
}

impl CarouselTrigger {
    /// The number under which a trigger is stored in the settings.
    pub open spec fn code(self) -> u32 {
        match self {
            CarouselTrigger::Never => 0,
            CarouselTrigger::Interval => 1,
            CarouselTrigger::Lock => 2,
        }
    }

    /// The trigger that a stored number stands for; a number that stands for
    /// no trigger reads as `Never`.
    pub open spec fn from_code(value: u32) -> CarouselTrigger {
        if value == 2 {
            CarouselTrigger::Lock
        } else if value == 1 {
            CarouselTrigger::Interval
        } else {
            CarouselTrigger::Never
        }
    }
}

impl From<u32> for CarouselTrigger {
    fn from(value: u32) -> (trigger: Self) {
        match value {
            2 => CarouselTrigger::Lock,
            1 => CarouselTrigger::Interval,
            _ => CarouselTrigger::Never,
        }
    }
}

impl vstd::std_specs::convert::FromSpecImpl<u32> for CarouselTrigger {
    open spec fn obeys_from_spec() -> bool {
        true
    }

    open spec fn from_spec(v: u32) -> CarouselTrigger {
        CarouselTrigger::from_code(v)
    }
}

impl From<CarouselTrigger> for u32 {
    fn from(trigger: CarouselTrigger) -> (value: u32) {
        match trigger {
            CarouselTrigger::Never => 0,
            CarouselTrigger::Interval => 1,
            CarouselTrigger::Lock => 2,
        }
    }
}

impl vstd::std_specs::convert::FromSpecImpl<CarouselTrigger> for u32 {
    open spec fn obeys_from_spec() -> bool {
        true
    }

    open spec fn from_spec(v: CarouselTrigger) -> u32 {
        v.code()
    }
}

/// How the carousel picks the next picture out of its collection.
#[derive(Clone, Copy, PartialEq, Eq, Structural, Debug)]
pub enum CarouselChooseType {
    /// The picture after the current one, wrapping round at the end.
    Iterate,
    /// Any picture of the collection, at random.
    Random,
}

impl CarouselChooseType {
    /// The number under which a choose type is stored in the settings.
    pub open spec fn code(self) -> u32 {
        match self {
            CarouselChooseType::Iterate => 0,
            CarouselChooseType::Random => 1,
        }
    }

    /// The choose type that a stored number stands for; a number that stands
    /// for none reads as `Iterate`.
    pub open spec fn from_code(value: u32) -> CarouselChooseType {
        if value == 1 {
            CarouselChooseType::Random
        } else {
            CarouselChooseType::Iterate
        }
    }
}

impl From<u32> for CarouselChooseType {
    fn from(value: u32) -> (choose_type: Self) {
        match value {
            1 => CarouselChooseType::Random,
            _ => CarouselChooseType::Iterate,
        }
    }
}

impl vstd::std_specs::convert::FromSpecImpl<u32> for CarouselChooseType {
    open spec fn obeys_from_spec() -> bool {
        true
    }

    open spec fn from_spec(v: u32) -> CarouselChooseType {
        CarouselChooseType::from_code(v)
    }
}

impl From<CarouselChooseType> for u32 {
    fn from(choose_type: CarouselChooseType) -> (value: u32) {
        match choose_type {
            CarouselChooseType::Iterate => 0,
            CarouselChooseType::Random => 1,
        }
    }
}

impl vstd::std_specs::convert::FromSpecImpl<CarouselChooseType> for u32 {
    open spec fn obeys_from_spec() -> bool {
        true
    }

    open spec fn from_spec(v: CarouselChooseType) -> u32 {
        v.code()
    }
}

/// A trigger written to the settings as its number reads back as the same trigger.
pub proof fn lemma_trigger_round_trip(trigger: CarouselTrigger)
    ensures
        CarouselTrigger::from_code(trigger.code()) == trigger,
{
}

/// A stored number survives a read and a write back exactly when it stands for a
/// trigger (0, 1 or 2); every other number comes back as the code of `Never`.
pub proof fn lemma_trigger_code_canonical(value: u32)
    ensures
        CarouselTrigger::from_code(value).code() == value <==> value <= 2,
        value > 2 ==> CarouselTrigger::from_code(value).code() == 0,
{
}

/// A choose type written to the settings as its number reads back as the same choose type.
pub proof fn lemma_choose_type_round_trip(choose_type: CarouselChooseType)
    ensures
        CarouselChooseType::from_code(choose_type.code()) == choose_type,
{
}

/// A stored number survives a read and a write back exactly when it stands for a
/// choose type (0 or 1); every other number comes back as the code of `Iterate`.
pub proof fn lemma_choose_type_code_canonical(value: u32)
    ensures
        CarouselChooseType::from_code(value).code() == value <==> value <= 1,
        value > 1 ==> CarouselChooseType::from_code(value).code() == 0,
{
}

} // verus!
