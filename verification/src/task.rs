use rand::seq::IteratorRandom;
use rand::SeedableRng;
use vstd::prelude::*;

verus! {

/// The index of the picture that follows `current` in a collection of
/// `photo_count` pictures: the next one, or the first after the last.
pub open spec fn spec_next_photo_index(photo_count: int, current: int) -> int {
    if current + 1 < photo_count {
        current + 1
    } else {
        0
    }
}

/// Moving on from a picture that has another after it shows that one; moving on
/// from the last picture, or from a stored index past the end of the collection
/// (as after pictures were removed), starts over at the first.
pub proof fn lemma_next_photo_index_cases(photo_count: int, current: int)
    ensures
        current + 1 < photo_count ==> spec_next_photo_index(photo_count, current) == current + 1,
        current + 1 >= photo_count ==> spec_next_photo_index(photo_count, current) == 0,
        photo_count > 0 && current >= 0 ==> 0 <= spec_next_photo_index(photo_count, current)
            < photo_count,
{
}

/// The picture shown after moving on `steps` times, in order, from picture `start`.
pub open spec fn photo_after_steps(photo_count: int, start: int, steps: nat) -> int
    decreases steps,
{
    if steps == 0 {
        start
    } else {
        spec_next_photo_index(photo_count, photo_after_steps(photo_count, start, (steps - 1) as nat))
    }
}

/// Going through the collection in order shows the pictures in turn: `steps`
/// moves from picture `start` land on picture `(start + steps) mod photo_count`.
pub proof fn lemma_next_photo_steps(photo_count: int, start: int, steps: nat)
    requires
        0 <= start < photo_count,
    ensures
        photo_after_steps(photo_count, start, steps) == (start + steps) % photo_count,
    decreases steps,
{
    if steps == 0 {
        vstd::arithmetic::div_mod::lemma_small_mod(start as nat, photo_count as nat);
    } else {
        lemma_next_photo_steps(photo_count, start, (steps - 1) as nat);
        let prev = (start + steps - 1) % photo_count;
        vstd::arithmetic::div_mod::lemma_mod_bound(start + steps - 1, photo_count);
        vstd::arithmetic::div_mod::lemma_add_mod_noop(start + steps - 1, 1, photo_count);
        if photo_count == 1 {
            vstd::arithmetic::div_mod::lemma_mod_bound(start + steps, 1);
        } else {
            vstd::arithmetic::div_mod::lemma_small_mod(1, photo_count as nat);
            if prev + 1 < photo_count {
                vstd::arithmetic::div_mod::lemma_small_mod((prev + 1) as nat, photo_count as nat);
            } else {
                vstd::arithmetic::div_mod::lemma_mod_self_0(photo_count);
            }
        }
    }
}

/// After as many moves in order as there are pictures, the carousel is back at
/// the picture it started from.
pub proof fn lemma_next_photo_cycles(photo_count: int, start: int)
    requires
        0 <= start < photo_count,
    ensures
        photo_after_steps(photo_count, start, photo_count as nat) == start,
{
    lemma_next_photo_steps(photo_count, start, photo_count as nat);
    vstd::arithmetic::div_mod::lemma_mod_add_multiples_vanish(start, photo_count);
    vstd::arithmetic::div_mod::lemma_small_mod(start as nat, photo_count as nat);
}

/// Computes `spec_next_photo_index` for a stored index.
pub fn next_photo_index(photo_count: usize, current_index: usize) -> (next: usize)
    ensures
        next == spec_next_photo_index(photo_count as int, current_index as int),
        current_index + 1 < photo_count ==> next == current_index + 1,
        current_index + 1 >= photo_count ==> next == 0,
{
    if photo_count > 0 && current_index < photo_count - 1 {
        current_index + 1
    } else {
        0
    }
}

/// The picture the carousel moves on to when it goes through the collection in order.
pub struct NextPhoto {
    /// The index to store as the current picture.
    pub index: usize,
    /// The path of the picture at `index`; `None` when the collection is empty.
    pub path: Option<String>,
}

/// Moves on from the picture at `current_index` to the next one of `photos`.
pub fn choose_next_photo(photos: Vec<String>, current_index: usize) -> (next: NextPhoto)
    ensures
        next.index == spec_next_photo_index(photos.len() as int, current_index as int),
        photos.len() == 0 ==> next.path is None,
        photos.len() > 0 ==> next.index < photos.len() && next.path == Some(photos@[next.index as int]),
{
    let index = next_photo_index(photos.len(), current_index);
    if index < photos.len() {
        let path = photos[index].clone();
        NextPhoto { index, path: Some(path) }
    } else {
        NextPhoto { index, path: None }
    }
}

/// Why no picture could be chosen.
#[derive(Clone, Copy, PartialEq, Eq, Structural, Debug)]
pub enum PhotoChoiceError {
    /// The pictures go in order but there are none; this is the index to store.
    NoPhotoAt(usize),
    /// The operating system gave no seed for the random number generator.
    NoRandomSource,
}

/// The standard random number generator of the rand crate.
#[verifier::external_type_specification]
#[verifier::external_body]
pub struct ExStdRng(rand::rngs::StdRng);

/// Calls `SeedableRng::try_from_os_rng` for rand's `StdRng`: a generator
/// seeded from the operating system's random source, or `None` when that source
/// fails. Nothing is stated of the generator, nor of when the source fails.
#[verifier::external_body]
fn seeded_rng() -> Option<rand::rngs::StdRng> {
    rand::rngs::StdRng::try_from_os_rng().ok()
}

/// Calls `IteratorRandom::choose` of the rand crate on the pictures. For an
/// iterator whose size is known, as a vector's is, `choose` returns `None` when
/// it is empty and otherwise one of its items. Which item comes back depends on
/// the generator and is not stated.
#[verifier::external_body]
fn choose_one(photos: Vec<String>, rng: &mut rand::rngs::StdRng) -> (chosen: Option<String>)
    ensures
        chosen is None <==> photos@.len() == 0,
        chosen matches Some(p) ==> photos@.contains(p),
{
    photos.into_iter().choose(rng)
}

/// Whether `chosen` is a fair outcome of picking one of `photos`: nothing when
/// there are none, and otherwise one of them.
pub open spec fn picked_from(photos: Seq<String>, chosen: Option<String>) -> bool {
    &&& chosen is None <==> photos.len() == 0
    &&& chosen matches Some(p) ==> photos.contains(p)
}

/// Picks one picture with the generator `rng`, when the random source gave one.
pub fn choose_random_photo_with(photos: Vec<String>, rng: Option<rand::rngs::StdRng>) -> (chosen: Result<
    Option<String>,
    PhotoChoiceError,
>)
    ensures
        rng is None <==> chosen is Err,
        chosen matches Err(e) ==> e == PhotoChoiceError::NoRandomSource,
        chosen matches Ok(c) ==> picked_from(photos@, c),
        chosen matches Ok(c) ==> (c is None <==> photos@.len() == 0),
        chosen matches Ok(c) ==> (c matches Some(p) ==> photos@.contains(p)),
{
    match rng {
        Some(mut rng) => Ok(choose_one(photos, &mut rng)),
        None => Err(PhotoChoiceError::NoRandomSource),
    }
}

/// Picks one picture of the collection at random, with a generator seeded from
/// the operating system; `Ok(None)` when there is no picture. Whether the
/// operating system gives a seed is not up to the arguments.
pub fn choose_random_photo(photos: Vec<String>) -> (chosen: Result<Option<String>, PhotoChoiceError>)
    ensures
        chosen matches Err(e) ==> e == PhotoChoiceError::NoRandomSource,
        chosen matches Ok(c) ==> picked_from(photos@, c),
        chosen matches Ok(c) ==> (c is None <==> photos@.len() == 0),
        chosen matches Ok(c) ==> (c matches Some(p) ==> photos@.contains(p)),
{
    choose_random_photo_with(photos, seeded_rng())
}

/// What the task does to the lock screen: the index to store as the current
/// picture, if any, and the picture to show, if any.
pub struct PhotoChoice {
    pub store_index: Option<usize>,
    pub path: Option<String>,
}

/// The index the carousel starts from: the stored one, or 0 when none could be read.
pub open spec fn start_index(stored_index: Option<u32>) -> int {
    match stored_index {
        Some(i) => i as int,
        None => 0,
    }
}

/// The carousel starts from the stored index when one was read, and from the
/// first picture otherwise.
pub proof fn lemma_start_index(stored_index: Option<u32>)
    ensures
        stored_index matches Some(i) ==> start_index(stored_index) == i,
        stored_index is None ==> start_index(stored_index) == 0,
{
}

/// Decides the task's change of the lock screen. In order, the picture after the
/// stored index is shown and its index stored; when there are no pictures its
/// index is still handed out, in the error. At random, a random picture is shown
/// and no index is stored; with no pictures nothing happens.
pub fn choose_photo(
    photos: Vec<String>,
    choose_type: crate::CarouselChooseType,
    stored_index: Option<u32>,
) -> (choice: Result<PhotoChoice, PhotoChoiceError>)
    ensures
        choose_type == crate::CarouselChooseType::Iterate ==> ({
            let next = spec_next_photo_index(photos.len() as int, start_index(stored_index));
            if photos.len() > 0 {
                &&& choice matches Ok(c)
                &&& c.store_index == Some(next as usize)
                &&& c.path == Some(photos@[next])
            } else {
                choice == Err::<PhotoChoice, PhotoChoiceError>(PhotoChoiceError::NoPhotoAt(next as usize))
            }
        }),
        choose_type == crate::CarouselChooseType::Random ==> (match choice {
            Ok(c) => c.store_index is None && picked_from(photos@, c.path) && (c.path is None <==> photos@.len()
                == 0) && (c.path matches Some(p) ==> photos@.contains(p)),
            Err(e) => e == PhotoChoiceError::NoRandomSource,
        }),
{
    match choose_type {
        crate::CarouselChooseType::Iterate => {
            let current: usize = match stored_index {
                Some(i) => i as usize,
                None => 0,
            };
            let next = choose_next_photo(photos, current);
            match next.path {
                Some(path) => Ok(PhotoChoice { store_index: Some(next.index), path: Some(path) }),
                None => Err(PhotoChoiceError::NoPhotoAt(next.index)),
            }
        },
        crate::CarouselChooseType::Random => match choose_random_photo(photos) {
            Ok(path) => Ok(PhotoChoice { store_index: None, path }),
            Err(e) => Err(e),
        },
    }
}

} // verus!
