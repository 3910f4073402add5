use playback_core::hotkey::{first_pressed, KeyLatch};

#[test]
fn first_pressed_picks_earliest() {
    assert_eq!(first_pressed(&vec![false, true, true]), Some(1));
    assert_eq!(first_pressed(&vec![true, false, true]), Some(0));
    assert_eq!(first_pressed(&vec![false, false, false]), None);
    assert_eq!(first_pressed(&vec![]), None);
}

#[test]
fn held_key_fires_once() {
    let mut latch = KeyLatch::new();
    assert_eq!(latch.poll(&vec![false, true, false]), Some(1));
    assert_eq!(latch.poll(&vec![false, true, false]), None);
    assert_eq!(latch.poll(&vec![false, true, false]), None);
    assert_eq!(latch.poll(&vec![false, false, false]), None);
    assert_eq!(latch.poll(&vec![false, true, false]), Some(1));
}

#[test]
fn switching_keys_fires_again() {
    let mut latch = KeyLatch::new();
    assert_eq!(latch.poll(&vec![false, false, true]), Some(2));
    assert_eq!(latch.poll(&vec![true, false, true]), Some(0));
    assert_eq!(latch.poll(&vec![false, false, true]), Some(2));
    assert_eq!(latch.held, Some(2));
}

#[test]
fn step_on_given_keys() {
    let mut latch = KeyLatch::new();
    assert_eq!(latch.step(None), None);
    assert_eq!(latch.step(Some(0)), Some(0));
    assert_eq!(latch.step(Some(0)), None);
    assert_eq!(latch.step(None), None);
    assert_eq!(latch.held, None);
}
