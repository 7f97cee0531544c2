use lock_screen_carousel::utils::DropGuard;
use std::cell::Cell;
use std::rc::Rc;

#[test]
fn drop_guard_runs_its_closure() {
    let count = Rc::new(Cell::new(0));
    let seen = Rc::clone(&count);
    let guard = DropGuard::new(move || seen.set(seen.get() + 1));
    assert_eq!(count.get(), 0);
    guard.run();
    assert_eq!(count.get(), 1);
    guard.run();
    assert_eq!(count.get(), 2);
}
