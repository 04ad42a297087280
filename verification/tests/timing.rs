use starquake::host::Pacer;
use starquake::timing::{CPU_HZ, FRAME_NANOS, FRAME_T, FRAMES_PER_SECOND};

#[test]
fn a_frame_is_just_under_20ms() {
    assert_eq!(FRAME_NANOS, 19_968_000);
    assert!((FRAME_NANOS as f64 / 1e9 * 50.0 - 0.9984).abs() < 1e-9);
}

#[test]
fn a_frame_is_its_t_states_over_the_clock() {
    assert_eq!(FRAME_NANOS, FRAME_T as u64 * 1_000_000_000 / CPU_HZ as u64);
    assert_eq!(FRAMES_PER_SECOND, 50);
}

#[test]
fn a_pacer_gives_the_rate_exactly_over_time() {
    let mut p = Pacer::new(13);
    let mut total = 0u64;
    for k in 1..=200u64 {
        let t = p.turns();
        assert!(t == 0 || t == 1);
        total += t as u64;
        assert_eq!(total, k * 13 / 50);
    }
    let mut fast = Pacer::new(344);
    let t: Vec<u32> = (0..5).map(|_| fast.turns()).collect();
    assert!(t.iter().all(|&n| n == 6 || n == 7));
}
