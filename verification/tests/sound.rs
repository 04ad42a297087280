use starquake::music::{in_r_c, out_n_a};
use starquake::sound::Work;

#[test]
fn the_work_is_priced_by_its_parts() {
    let w = Work { collisions: 1, vertical_collisions: 2, characters: 3, cells: 4, proximity_checks: 5 };
    assert_eq!(w.counts(), [1, 2, 3, 4, 5]);
    assert_eq!(w.t(), 1574 + 2 * 175 + 3 * 2742 + 4 * 1586 + 5 * 264);
    assert_eq!(Work::default().t(), 0);
}

#[test]
fn the_speaker_waits_on_the_picture() {
    let mut t = 0;
    out_n_a(&mut t, 0);
    assert_eq!(t, 11, "in the border: no wait");
    let mut t = 14327;
    out_n_a(&mut t, 0x10);
    assert_eq!(t, 14335 + 6 + 3, "the port's answer waits for the ULA");
}

#[test]
fn one_keyboard_row_in_eight_costs_more() {
    let (mut a, mut b) = (14327, 14327);
    in_r_c(&mut a, 0xFE);
    in_r_c(&mut b, 0x7F);
    assert_eq!(a, 14336 + 5 + 3);
    assert_eq!(b, 14335 + 6 + 1 + 3);
}
