use life_sim::tick::TickRate;

#[test]
fn three_increases_cycle_back_to_normal() {
    let mut t = TickRate::Normal;
    t.increase();
    assert_eq!(t, TickRate::Fast);
    t.increase();
    assert_eq!(t, TickRate::Slow);
    t.increase();
    assert_eq!(t, TickRate::Normal);
}

#[test]
fn three_decreases_cycle_back_to_normal() {
    let mut t = TickRate::Normal;
    t.decrease();
    assert_eq!(t, TickRate::Slow);
    t.decrease();
    assert_eq!(t, TickRate::Fast);
    t.decrease();
    assert_eq!(t, TickRate::Normal);
}

#[test]
fn decrease_undoes_increase_from_every_rate() {
    for start in [TickRate::Slow, TickRate::Normal, TickRate::Fast] {
        let mut t = start;
        t.increase();
        t.decrease();
        assert_eq!(t, start);
    }
}

#[test]
fn durations_map_to_exact_seconds() {
    assert_eq!(TickRate::Slow.duration_ms(), 1000);
    assert_eq!(TickRate::Normal.duration_ms(), 200);
    assert_eq!(TickRate::Fast.duration_ms(), 100);
    assert_eq!(TickRate::Slow.duration_ms() as f64 / 1000.0, 1.0);
    assert_eq!(TickRate::Normal.duration_ms() as f64 / 1000.0, 0.2);
    assert_eq!(TickRate::Fast.duration_ms() as f64 / 1000.0, 0.1);
}
