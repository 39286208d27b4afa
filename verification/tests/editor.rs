use arraxis::editor::{visible_crossovers, AppEvent, BandSelector};

#[test]
fn starts_on_first_band() {
    let s = BandSelector::new(5);
    assert_eq!(s.current_band(), 0);
    assert_eq!(s.active_bands(), 5);
}

#[test]
fn next_band_wraps_to_first() {
    let mut s = BandSelector::new(3);
    s.event(AppEvent::NextBand);
    assert_eq!(s.current_band(), 1);
    s.event(AppEvent::NextBand);
    assert_eq!(s.current_band(), 2);
    s.event(AppEvent::NextBand);
    assert_eq!(s.current_band(), 0);
}

#[test]
fn prev_band_wraps_to_last_active() {
    let mut s = BandSelector::new(4);
    s.event(AppEvent::PrevBand);
    assert_eq!(s.current_band(), 3);
    s.event(AppEvent::PrevBand);
    assert_eq!(s.current_band(), 2);
}

#[test]
fn single_band_stays_put() {
    let mut s = BandSelector::new(1);
    s.event(AppEvent::NextBand);
    assert_eq!(s.current_band(), 0);
    s.event(AppEvent::PrevBand);
    assert_eq!(s.current_band(), 0);
}

#[test]
fn prev_undoes_next() {
    for active in 1..=5 {
        for start in 0..active {
            let mut s = BandSelector::new(active);
            for _ in 0..start {
                s.event(AppEvent::NextBand);
            }
            assert_eq!(s.current_band(), start as usize);
            s.event(AppEvent::NextBand);
            s.event(AppEvent::PrevBand);
            assert_eq!(s.current_band(), start as usize);
            s.event(AppEvent::PrevBand);
            s.event(AppEvent::NextBand);
            assert_eq!(s.current_band(), start as usize);
            assert_eq!(s.active_bands(), active);
        }
    }
}

#[test]
fn next_cycles_through_all_active_bands() {
    let mut s = BandSelector::new(5);
    s.event(AppEvent::NextBand);
    s.event(AppEvent::NextBand);
    let start = s.current_band();
    for _ in 0..5 {
        s.event(AppEvent::NextBand);
    }
    assert_eq!(s.current_band(), start);
}

#[test]
fn synchronize_keeps_band_still_active() {
    let mut s = BandSelector::new(5);
    s.event(AppEvent::NextBand);
    s.event(AppEvent::SynchronizeWithMain(3));
    assert_eq!(s.current_band(), 1);
    assert_eq!(s.active_bands(), 3);
}

#[test]
fn synchronize_moves_to_last_active_band() {
    let mut s = BandSelector::new(5);
    s.event(AppEvent::PrevBand);
    assert_eq!(s.current_band(), 4);
    s.event(AppEvent::SynchronizeWithMain(2));
    assert_eq!(s.current_band(), 1);
    assert_eq!(s.active_bands(), 2);
    s.event(AppEvent::SynchronizeWithMain(2));
    assert_eq!(s.current_band(), 1);
}

#[test]
fn synchronize_to_one_band() {
    let mut s = BandSelector::new(4);
    s.event(AppEvent::PrevBand);
    s.event(AppEvent::SynchronizeWithMain(1));
    assert_eq!(s.current_band(), 0);
    s.event(AppEvent::SynchronizeWithMain(5));
    assert_eq!(s.current_band(), 0);
    assert_eq!(s.active_bands(), 5);
}

#[test]
fn crossover_sliders_shown() {
    assert_eq!(visible_crossovers(1), 0);
    assert_eq!(visible_crossovers(2), 1);
    assert_eq!(visible_crossovers(3), 2);
    assert_eq!(visible_crossovers(4), 3);
    assert_eq!(visible_crossovers(5), 4);
    assert_eq!(visible_crossovers(0), 0);
    assert_eq!(visible_crossovers(9), 4);
}
