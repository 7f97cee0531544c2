use rand::SeedableRng;
use lock_screen_carousel::task::{
    choose_next_photo, choose_photo, choose_random_photo, choose_random_photo_with, next_photo_index,
    PhotoChoiceError,
};
use lock_screen_carousel::CarouselChooseType;

fn photos(names: &[&str]) -> Vec<String> {
    names.iter().map(|n| n.to_string()).collect()
}

#[test]
fn next_index_moves_on() {
    assert_eq!(next_photo_index(3, 0), 1);
    assert_eq!(next_photo_index(3, 1), 2);
}

#[test]
fn next_index_wraps_after_last() {
    assert_eq!(next_photo_index(3, 2), 0);
    assert_eq!(next_photo_index(1, 0), 0);
}

#[test]
fn next_index_out_of_range_starts_over() {
    assert_eq!(next_photo_index(3, 7), 0);
    assert_eq!(next_photo_index(0, 0), 0);
    assert_eq!(next_photo_index(5, usize::MAX), 0);
    assert_eq!(next_photo_index(usize::MAX, usize::MAX - 2), usize::MAX - 1);
}

#[test]
fn next_index_cycles_through_all() {
    for count in 1usize..6 {
        for start in 0..count {
            let mut index = start;
            let mut seen = vec![false; count];
            for step in 1..=count {
                index = next_photo_index(count, index);
                assert_eq!(index, (start + step) % count);
                seen[index] = true;
            }
            assert_eq!(index, start);
            assert!(seen.iter().all(|s| *s));
        }
    }
}

#[test]
fn choose_next_photo_in_order() {
    let next = choose_next_photo(photos(&["a.jpg", "b.jpg", "c.jpg"]), 0);
    assert_eq!(next.index, 1);
    assert_eq!(next.path.as_deref(), Some("b.jpg"));
}

#[test]
fn choose_next_photo_wraps() {
    let next = choose_next_photo(photos(&["a.jpg", "b.jpg", "c.jpg"]), 2);
    assert_eq!(next.index, 0);
    assert_eq!(next.path.as_deref(), Some("a.jpg"));
}

#[test]
fn choose_next_photo_empty_collection() {
    let next = choose_next_photo(Vec::new(), 4);
    assert_eq!(next.index, 0);
    assert_eq!(next.path, None);
}

#[test]
fn choose_random_photo_picks_a_member() {
    let all = photos(&["a.jpg", "b.jpg", "c.jpg", "d.png"]);
    for _ in 0..50 {
        let chosen = choose_random_photo(all.clone()).expect("a random source").expect("a photo");
        assert!(all.contains(&chosen));
    }
}

#[test]
fn choose_random_photo_single() {
    assert_eq!(choose_random_photo(photos(&["only.bmp"])), Ok(Some("only.bmp".to_string())));
}

#[test]
fn choose_random_photo_empty() {
    assert_eq!(choose_random_photo(Vec::new()), Ok(None));
}

#[test]
fn choose_random_photo_without_source() {
    assert_eq!(choose_random_photo_with(photos(&["a.jpg"]), None), Err(PhotoChoiceError::NoRandomSource));
    assert_eq!(choose_random_photo_with(Vec::new(), None), Err(PhotoChoiceError::NoRandomSource));
}

#[test]
fn choose_random_photo_with_seeded_generator() {
    let all = photos(&["a.jpg", "b.jpg", "c.jpg"]);
    let rng = rand::rngs::StdRng::seed_from_u64(7);
    let chosen = choose_random_photo_with(all.clone(), Some(rng)).unwrap().unwrap();
    assert!(all.contains(&chosen));
    let rng = rand::rngs::StdRng::seed_from_u64(7);
    assert_eq!(choose_random_photo_with(Vec::new(), Some(rng)), Ok(None));
}

#[test]
fn choose_photo_in_order_stores_next_index() {
    let choice = choose_photo(photos(&["a.jpg", "b.jpg", "c.jpg"]), CarouselChooseType::Iterate, Some(1)).unwrap();
    assert_eq!(choice.store_index, Some(2));
    assert_eq!(choice.path.as_deref(), Some("c.jpg"));
    let choice = choose_photo(photos(&["a.jpg", "b.jpg", "c.jpg"]), CarouselChooseType::Iterate, Some(2)).unwrap();
    assert_eq!(choice.store_index, Some(0));
    assert_eq!(choice.path.as_deref(), Some("a.jpg"));
}

#[test]
fn choose_photo_in_order_without_stored_index() {
    let choice = choose_photo(photos(&["a.jpg", "b.jpg"]), CarouselChooseType::Iterate, None).unwrap();
    assert_eq!(choice.store_index, Some(1));
    assert_eq!(choice.path.as_deref(), Some("b.jpg"));
}

#[test]
fn choose_photo_in_order_empty_is_error() {
    assert!(matches!(
        choose_photo(Vec::new(), CarouselChooseType::Iterate, Some(5)),
        Err(PhotoChoiceError::NoPhotoAt(0))
    ));
}

#[test]
fn choose_photo_at_random() {
    let all = photos(&["a.jpg", "b.jpg", "c.jpg"]);
    let choice = choose_photo(all.clone(), CarouselChooseType::Random, Some(1)).unwrap();
    assert_eq!(choice.store_index, None);
    assert!(all.contains(&choice.path.unwrap()));
    let choice = choose_photo(Vec::new(), CarouselChooseType::Random, None).unwrap();
    assert_eq!(choice.store_index, None);
    assert_eq!(choice.path, None);
}
