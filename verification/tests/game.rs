use std::rc::Rc;

use starquake::assets::Assets;
use starquake::game::{Game, Scene};
use starquake::room::Marker;

/// A 64K image with a few known values where the game keeps its state.
fn image() -> Vec<u8> {
    let mut mem = vec![0u8; 0x10000];
    // Room 0x0123, the generator, the score and its pending points.
    mem[0xD2C8] = 0x23;
    mem[0xD2C9] = 0x01;
    mem[0xDAC0..0xDAC6].copy_from_slice(&[0x34, 0x12, 0x78, 0x56, 0xBC, 0x9A]);
    mem[0xDB19] = 3;
    mem[0xDB1A] = 7;
    mem[0xD413..0xD419].copy_from_slice(&[0, 0, 0, 0, 9, 9]);
    mem[0xD419..0xD41F].copy_from_slice(&[0, 0, 0, 0, 0, 5]);
    mem[0xD2CC] = 4;
    mem[0xD2CD..0xD2D0].copy_from_slice(&[0x7F, 0x40, 0x02]);
    // BLOB at (0x30, 0x50), an enemy at (0x60, 0x20).
    mem[0xDD18 + 5] = 0x30;
    mem[0xDD18 + 6] = 0x50;
    mem[0xDD18 + 32 + 5] = 0x60;
    mem[0xDD18 + 32 + 6] = 0x20;
    // The print position: row 24 - 22 = 2, column 33 - 30 = 3.
    mem[0x5C88] = 30;
    mem[0x5C89] = 22;
    mem[0x5C8F] = 0x38;
    // Two markers, a teleporter entry and a kind-12 position.
    mem[0x96FA] = 0x02;
    mem[0x96FB] = 0x97;
    mem[0x96FC..0x9702].copy_from_slice(&[1, 2, 3, 4, 5, 6]);
    mem[0x9602] = 10;
    mem[0x9603] = 11;
    mem[0x9605] = 0xF5;
    mem[0x9606] = 0x95;
    mem[0xD2CA] = 0x44;
    mem[0xD2CB] = 0x55;
    // Three pairs of tile type 8.
    mem[0x9620] = 3;
    mem[0x9621..0x9627].copy_from_slice(&[1, 2, 3, 4, 5, 6]);
    // All rooms unvisited but the first ten.
    for b in 0xA390..0xA3D0 {
        mem[b] = 0xFF;
    }
    mem[0xA390] = 0x00;
    mem[0xA391] = 0x3F;
    // The blank graphic, and an effect's parameters (effect 1).
    for i in 0..32 {
        mem[0xDF40 + i] = 0xFF;
    }
    mem[0xA607..0xA60B].copy_from_slice(&[0x45, 0x10, 0x02, 0x01]);
    // A font whose glyphs are all lines of 0xAA.
    for i in 0..96 * 8 {
        mem[0xACD4 + 0x100 + i] = 0xAA;
    }
    mem
}

fn game(mem: &[u8]) -> Game {
    Game::from_memory(Rc::new(Assets::from_memory(mem)), mem)
}

#[test]
fn the_state_is_read_from_where_the_original_keeps_it() {
    let mem = image();
    let g = game(&mem);
    assert_eq!(g.room, 0x0123);
    assert_eq!((g.rng.a, g.rng.b, g.rng.c), (0x1234, 0x5678, 0x9ABC));
    assert_eq!((g.rng.b_countdown, g.rng.c_countdown), (3, 7));
    assert_eq!(g.status.score, [0, 0, 0, 0, 9, 9]);
    assert_eq!(g.status.lives, 4);
    assert_eq!(g.status.bars, [0x7F, 0x40, 0x02]);
    assert_eq!((g.entities[0].x(), g.entities[0].y()), (0x30, 0x50));
    assert_eq!((g.entities[1].x(), g.entities[1].y()), (0x60, 0x20));
    assert_eq!((g.printer.row, g.printer.col, g.printer.attr_t), (2, 3, 0x38));
    assert_eq!(g.objects.markers.len(), 2);
    assert_eq!(g.objects.markers[1], Marker { x: 4, y: 5, kind: 6 });
    assert_eq!(g.objects.type8, vec![(1, 2), (3, 4), (5, 6)]);
    assert_eq!(g.objects.teleport, Some(((10, 11), 2)));
    assert_eq!(g.objects.kind12, Some((0x44, 0x55)));
    assert_eq!(g.objects.sparkle_table.len(), 0x62);
    assert_eq!(g.teleporters.len(), 8);
    assert_eq!(g.items.len(), 45);
    assert_eq!(g.restore_mem.len(), 0xE0);
    assert_eq!(g.scene, Scene::Loading);
    assert!(g.effects.is_empty() && g.tone.is_none());
}

#[test]
fn the_tables_are_parsed_out_of_the_image() {
    let mut mem = image();
    mem[0x7530 + 12 * 3 + 5] = 0x77;
    mem[0x9840 + 4 * 2 + 1] = 0x66;
    mem[0x9740 + 9] = 0x55;
    // Tile 1 at 0x8000: masks 0x80, 0x03 (three cells), attributes before.
    mem[0xEB23 + 2] = 0x00;
    mem[0xEB23 + 3] = 0x80;
    mem[0x8000..0x8006].copy_from_slice(&[0x80, 0x03, 0, 0, 0, 0]);
    mem[0x8006] = 0x11;
    mem[0x8006 + 8] = 0x22;
    mem[0x7FFF] = 0x47;
    mem[0x7FFE] = 0x46;
    let a = Assets::from_memory(&mem);
    assert_eq!(a.rooms.len(), 512);
    assert_eq!(a.rooms[3][5], 0x77);
    assert_eq!(a.big_blocks[2][1], 0x66);
    assert_eq!(a.tile_info[9], 0x55);
    assert_eq!(a.tiles[1].masks, [0x80, 0x03, 0, 0, 0, 0]);
    assert_eq!(a.tiles[1].cells.len(), 3);
    assert_eq!(a.tiles[1].cells[0].pixels[0], 0x11);
    assert_eq!(a.tiles[1].cells[1].pixels[0], 0x22);
    assert_eq!(a.tiles[1].cells[0].attr, 0x47);
    assert_eq!(a.tiles[1].cells[1].attr, 0x46);
    assert_eq!(a.font[0], [0xAA; 8]);
    assert_eq!(a.graphic_at(0xDF40), [0xFF; 32]);
}

#[test]
fn pending_points_carry_into_the_score_and_it_is_printed() {
    let mem = image();
    let mut g = game(&mem);
    g.add_and_print_score();
    assert_eq!(g.status.score, [0, 0, 0, 1, 0, 4]);
    assert_eq!(g.status.pending, [0; 6]);
    // Row 2, columns 3 to 8: the digits' glyphs, bright white.
    assert_eq!(g.display.mem[2 * 32 + 3], 0xAA);
    assert_eq!(g.display.mem[2 * 32 + 8], 0xAA);
    assert_eq!(g.display.mem[6144 + 2 * 32 + 3] & 0x47, 0x47);
    assert_eq!((g.printer.row, g.printer.col), (2, 9));
}

#[test]
fn a_bar_stops_at_empty_and_its_end_is_redrawn() {
    let mem = image();
    let mut g = game(&mem);
    g.reduce_bar(0, 0x10);
    assert_eq!(g.status.bars, [0x6F, 0x40, 0x02]);
    assert_eq!((g.printer.row, g.printer.col), (1, 16 + 3 + 1));
    g.reduce_bar(2, 5);
    assert_eq!(g.status.bars, [0x6F, 0x40, 0]);
    assert_eq!((g.printer.row, g.printer.col), (3, 17));
}

#[test]
fn the_screen_reads_through_to_the_restore_list() {
    let mem = image();
    let mut g = game(&mem);
    g.display.mem[0] = 0x12;
    g.display.mem[6943] = 0x34;
    g.restore_mem[5] = 0x56;
    assert_eq!(g.screen_byte(0x4000), 0x12);
    assert_eq!(g.screen_byte(0x4000 + 6943), 0x34);
    assert_eq!(g.screen_byte(0x5B25), 0x56);
    assert_eq!(g.screen_byte(0xFFFF), 0xFF);
    assert_eq!(g.screen_byte(0x0000), 0xFF);
}

#[test]
fn the_adventure_score_counts_the_rooms_visited() {
    let mem = image();
    let mut g = game(&mem);
    // Rooms 0-7 and 8-9 are visited: ten rooms, 10 * 50 / 256 = 1.
    assert_eq!(g.adventure_score(), 1);
    assert_eq!(g.room, 512);
    for b in g.unvisited_rooms.0.iter_mut() {
        *b = 0;
    }
    assert_eq!(g.adventure_score(), (512 * 50 / 256) as u8);
}

#[test]
fn the_shot_is_put_away() {
    let mem = image();
    let mut g = game(&mem);
    g.entities[5].0[5] = 0x44;
    g.entities[0].0[0x12] = 1;
    g.reset_shot();
    assert_eq!((g.entities[5].x(), g.entities[5].y()), (0, 0x0F));
    assert_eq!((g.entities[5].0[7], g.entities[5].0[8]), (0x40, 0xDF));
    assert_eq!(g.entities[0].0[0x12], 0);
    assert_eq!(g.entities[0].x(), 0x30);
}

#[test]
fn a_kind_twelve_marker_is_remembered() {
    let mem = image();
    let mut g = game(&mem);
    g.add_marker(0x0C, 10, 4);
    let m = g.objects.markers[2];
    assert_eq!(m, Marker { x: 32, y: (0x18 - 10) * 8 - 1, kind: 0x0C });
    assert_eq!(g.objects.kind12, Some((32, 111)));
    g.add_marker(3, 23, 31);
    assert_eq!(g.objects.markers[3], Marker { x: 0xF8, y: 7, kind: 3 });
    assert_eq!(g.objects.kind12, Some((32, 111)));
}

#[test]
fn a_bright_cell_is_recorded_for_restoring() {
    let mem = image();
    let mut g = game(&mem);
    g.restore_ptr = 0x5B20;
    g.xor_cell(10, 4, &[0xF0; 8], 0x45);
    let base = 2048 + 2 * 32 + 4;
    assert_eq!(g.display.mem[base], 0xF0);
    assert_eq!(g.display.mem[base + 7 * 256], 0xF0);
    assert_eq!(g.display.mem[6144 + 10 * 32 + 4], 0x45);
    let addr = 0x4000 + 6144 + 10 * 32 + 4;
    assert_eq!(&g.restore_mem[0..3], &[(addr & 0xFF) as u8, (addr >> 8) as u8, 0x45]);
    assert_eq!(g.restore_ptr, 0x5B23);
    // A second XOR puts the bitmap back; bit 7 changes only the brightness.
    g.xor_cell(10, 4, &[0xF0; 8], 0x80);
    assert_eq!(g.display.mem[base], 0);
    assert_eq!(g.display.mem[6144 + 10 * 32 + 4], 0x05);
    assert_eq!(g.restore_ptr, 0x5B23);
}

#[test]
fn a_block_is_four_cells() {
    let mem = image();
    let mut g = game(&mem);
    g.restore_ptr = 0;
    let mut graphic = [0u8; 32];
    for (i, b) in graphic.iter_mut().enumerate() {
        *b = i as u8;
    }
    g.draw_block2x2(&graphic, 8, 10, 0x07);
    assert_eq!(g.display.mem[2048 + 10], 0);
    assert_eq!(g.display.mem[2048 + 11 + 256], 9);
    assert_eq!(g.display.mem[2048 + 32 + 10 + 2 * 256], 18);
    assert_eq!(g.display.mem[2048 + 32 + 11 + 7 * 256], 31);
    assert_eq!(g.display.mem[6144 + 9 * 32 + 11], 0x07);
    assert_eq!(g.restore_ptr, 0, "a dark block is not recorded");
}

#[test]
fn the_whole_screen_flashes() {
    let mem = image();
    let mut g = game(&mem);
    g.display.mem[6144] = 0x38;
    g.display.mem[0] = 0x38;
    g.xor_attributes(7);
    assert_eq!(g.display.mem[6144], 0x3F);
    assert_eq!(g.display.mem[6144 + 767], 7);
    assert_eq!(g.display.mem[0], 0x38, "the bitmap is left alone");
    assert_eq!(g.display.mem[6944 - 1], 0, "the guard row too");
}

#[test]
fn the_first_effect_notes_the_work_so_far() {
    let mem = image();
    let mut g = game(&mem);
    g.work.cells = 3;
    g.request_effect(5);
    g.work.cells = 4;
    g.request_effect(6);
    assert_eq!(g.effects, vec![5, 6]);
    assert_eq!(g.work_at_effect.map(|w| w.cells), Some(3));
}

#[test]
fn a_requested_effect_plays_at_its_prescaled_pace() {
    let mem = image();
    let mut g = game(&mem);
    g.sound = [1, 0, 0, 0, 0, 0, 0, 0];
    // Effect 1: length 5, pitch 0x10 stepping by 2, phase 1, prescale 2.
    assert_eq!(g.sound_tick(), None);
    assert_eq!(g.sound, [0, 0, 5, 0x10, 2, 1, 1, 2]);
    assert_eq!(g.sound_tick(), Some((0x12 ^ 1) >> 1));
    assert_eq!(g.sound, [0, 0, 4, 0x12, 2, 2, 2, 2]);
    assert_eq!(g.sound_tick(), None);
}

#[test]
fn silence_now_and_then_queues_an_ambient_sound() {
    let mem = image();
    let mut g = game(&mem);
    g.sound = [0; 8];
    g.rng.a = 0x0302;
    assert_eq!(g.sound_tick(), None);
    assert_eq!(g.sound[1], 3 + 0x0C);
    let mut g = game(&mem);
    g.sound = [0; 8];
    g.rng.a = 0x0310;
    assert_eq!(g.sound_tick(), None);
    assert_eq!(g.sound[1], 0);
}

#[test]
fn the_core_room_shows_the_delivered_pieces() {
    let mut mem = image();
    for i in 0..16 {
        mem[0x9FB2 + i] = 0x80 + i as u8;
    }
    for i in 0..19 {
        mem[0x9FC0 + i] = 0x20 + i as u8;
    }
    let mut g = game(&mem);
    g.room = 199;
    g.cores = 2;
    let mut r = g.rng;
    r.step();
    let start = (r.lo() & 6) as usize;
    g.spawn_enemies();
    assert_eq!(g.spawner.count, 4);
    assert_eq!((g.rng.a, g.rng.b), (r.a, r.b));
    for (k, slot) in [1usize, 2].iter().enumerate() {
        let e = g.entities[*slot];
        assert_eq!((e.x(), e.y()), (0x80 + (start + 2 * k) as u8, 0x81 + (start + 2 * k) as u8));
        assert_eq!(e.0[7], 0x20);
        assert_eq!(e.0[7 + 18], 0x20 + 18);
    }
    for slot in [3usize, 4] {
        let e = g.entities[slot];
        assert_eq!((e.x(), e.y(), e.0[7], e.0[8], e.0[9]), (0, 0, 0x40, 0xDF, 0));
    }
}

#[test]
fn going_back_in_time_brings_the_cached_enemies_back() {
    let mem = image();
    let mut g = game(&mem);
    g.room = 0x10;
    g.spawner.room_before = 0x10;
    g.spawner.count_before = 4;
    g.spawner.last_room = 0x11;
    g.spawner.count = 3;
    g.spawner.timer = 5;
    g.objects.kind12 = None;
    g.enemy_cache[0] = [7; 21];
    let old_enemy = g.entities[1];
    let rng = g.rng;
    g.spawn_enemies();
    assert_eq!(&g.entities[1].0[5..0x1A], &[7; 21]);
    assert_eq!(&g.enemy_cache[0][..], &old_enemy.0[5..0x1A]);
    assert_eq!((g.spawner.room_before, g.spawner.count_before, g.spawner.last_room), (0x11, 3, 0x10));
    assert_eq!((g.spawner.timer, g.spawner.count), (0xB4, 4));
    assert_eq!((g.rng.a, g.rng.b, g.rng.c), (rng.a, rng.b, rng.c), "nothing is rolled");
}

#[test]
fn with_no_free_edge_a_new_enemy_waits_off_the_room() {
    let mem = image();
    let mut g = game(&mem);
    g.room = 0x20;
    g.spawner.timer = 0;
    g.objects.kind12 = None;
    g.objects.type8 = vec![(3, 10)];
    g.spawn_enemies();
    // The screen is dark, so no edge is free: each enemy gives up.
    assert_eq!(g.spawner.tries, 100);
    for slot in 2..=4 {
        let e = g.entities[slot];
        assert_eq!(e.y(), 0);
        assert_eq!((e.0[7], e.0[8], e.0[0x15]), (0x40, 0xDF, 0));
    }
    // Slot 1 holds the stationary entity of the one type-8 tile.
    let s = g.entities[1];
    assert_eq!((s.x(), s.y()), (24, 111));
    assert_eq!((s.0[7], s.0[8], s.0[0x19], s.0[0x15]), (0xC8, 0xB2, 6, 1));
    assert_eq!(g.spawner.count, 4);
    assert_eq!(g.spawner.last_room, 0x20);
}

#[test]
fn a_kind_twelve_marker_holds_the_special_entity() {
    let mem = image();
    let mut g = game(&mem);
    g.room = 0x20;
    g.spawner.timer = 0;
    g.objects.type8 = Vec::new();
    g.objects.kind12 = Some((0x40, 0x48));
    g.spawn_enemies();
    let e = g.entities[4];
    assert_eq!((e.x(), e.y(), e.0[7], e.0[8], e.0[9]), (0x40, 0x40, 0xC8, 0xAF, 7));
    assert_eq!(g.spawner.count, 3);
}

#[test]
fn the_cache_reset_room_empties_the_cache() {
    let mem = image();
    let mut g = game(&mem);
    g.room = 198;
    g.enemy_cache = [[9; 21]; 4];
    g.spawner.timer = 0;
    g.spawner.room_before = 0x33;
    g.spawner.last_room = 0x34;
    let before = g.entities;
    g.spawn_enemies();
    for k in 0..4 {
        assert_eq!(&g.enemy_cache[k][..], &before[k + 1].0[5..0x1A]);
    }
    // The reset room counts as the one left last: the emptied cache comes back.
    assert_eq!(&g.entities[1].0[5..0x1A], &[0; 21]);
    assert_eq!((g.spawner.room_before, g.spawner.last_room, g.spawner.timer), (0x34, 198, 0xB4));
}

#[test]
fn the_panel_is_redrawn_whole() {
    let mut mem = image();
    // Inventory slot 0 holds graphic 1 in bright cyan.
    mem[0xD2D2] = 1;
    mem[0xD2D3] = 0x45;
    mem[0x9088 + 32] = 0x0F;
    let mut g = game(&mem);
    g.status.bars[0] = 0x90;
    g.draw_status();
    assert_eq!(g.status.score, [0, 0, 0, 1, 0, 4]);
    assert_eq!(g.status.bars, [0x7F, 0x40, 0x02], "a bar past full is held at full");
    assert_eq!((g.printer.row, g.printer.col), (2, 29));
    // The lives at row 3, column 11, in yellow.
    assert_eq!(g.display.mem[3 * 32 + 11], 0xAA);
    assert_eq!(g.display.mem[6144 + 3 * 32 + 11] & 7, 6);
    // The item XORed over the cleared slot, bright and recorded.
    assert_eq!(g.display.mem[32 + 21], 0xAA ^ 0x0F);
    assert_eq!(g.display.mem[6144 + 32 + 21], 0x45);
}

#[test]
fn the_last_digits_of_the_final_score_are_drawn() {
    let mem = image();
    let mut g = game(&mem);
    g.final_scoring();
    // 99 + 5 points and a thousand: 001104, then an adventure score of 1.
    let mut r = starquake::rng::Rng { a: 0, b: 1 + 256, c: 1 + 256, b_countdown: 3, c_countdown: 3 };
    for _ in 0..31 {
        r.step();
    }
    let d3 = r.lo() % 10;
    r.step();
    let d4 = r.lo() % 10;
    let d5 = if r.hi() % 2 == 1 { 5 } else { 0 };
    assert_eq!(g.status.score, [0, 0, 1, d3, d4, d5]);
    assert_eq!(g.status.pending, [0; 6]);
    assert_eq!(g.room, 512);
    assert_eq!((g.rng.a, g.rng.b, g.rng.c), (r.a, r.b, r.c));
}

#[test]
fn a_strip_is_two_cells_coloured_without_recording() {
    let mut mem = image();
    // Frame 1 starts 16 bytes into the frames.
    for i in 0..16 {
        mem[0xDC55 + 16 + i] = 0x10 + i as u8;
    }
    let mut g = game(&mem);
    g.restore_ptr = 0x5B20;
    g.draw_strip(1, 10, 4, 0x05);
    let base = 2048 + 2 * 32 + 4;
    assert_eq!(g.display.mem[base], 0x10);
    assert_eq!(g.display.mem[base + 1 + 7 * 256], 0x1F);
    assert_eq!(g.display.mem[6144 + 10 * 32 + 4], 0x05);
    assert_eq!(g.display.mem[6144 + 10 * 32 + 5], 0x05);
    assert_eq!(g.restore_ptr, 0x5B20);
}

#[test]
fn a_platform_crumbles_once_its_timer_runs_low() {
    let mut mem = image();
    mem[0xDC55] = 0xFF;
    let mut g = game(&mem);
    g.platform_cursor = 0;
    g.platforms[4..8].copy_from_slice(&[3, 10, 0, 4]);
    g.tick_platforms();
    assert_eq!(g.platform_cursor, 1);
    assert_eq!(&g.platforms[4..8], &[0x23, 10, 0, 3]);
    assert_eq!(g.display.mem[2048 + 2 * 32 + 3], 0xFF, "stage 1 draws frame 0");
    // The last stage takes the platform away.
    g.platform_cursor = 0;
    g.platforms[4..8].copy_from_slice(&[0x63, 10, 0, 2]);
    g.tick_platforms();
    assert_eq!(&g.platforms[4..8], &[0x83, 0, 0, 1]);
    // The cursor goes round twelve platforms.
    g.platform_cursor = 11;
    g.tick_platforms();
    assert_eq!(g.platform_cursor, 0);
}

#[test]
fn a_sparkle_blinks_its_two_cells() {
    let mem = image();
    let mut g = game(&mem);
    g.objects.sparkle_cursor = 0x6700;
    g.objects.sparkle_table[2] = 5;
    g.objects.sparkle_table[3] = 10;
    g.tick_sparkles();
    assert_eq!(g.objects.sparkle_cursor, 0x6701);
    assert_eq!(g.display.mem[6144 + 10 * 32 + 5], 0x67);
    assert_eq!(g.display.mem[6144 + 10 * 32 + 6], 0x67);
    // After 0x2F the index starts again and the colour flips.
    g.objects.sparkle_cursor = 0x672F;
    g.tick_sparkles();
    assert_eq!(g.objects.sparkle_cursor, 0x6000);
}

#[test]
fn a_force_field_switches_with_its_period() {
    let mut mem = image();
    for i in 0..16 {
        mem[0xDC55 + 0x50 + i] = 0x0F;
    }
    let mut g = game(&mem);
    g.objects.force_field_cursor = 3;
    g.objects.force_fields[0..6].copy_from_slice(&[6, 12, 0, 1, 8, 0]);
    g.tick_force_fields();
    assert_eq!(g.objects.force_field_cursor, 0);
    assert_eq!(&g.objects.force_fields[0..6], &[6, 12, 0, 0, 8, 0]);
    assert_eq!(g.display.mem[3 * 2048 / 2 + 4 * 32 + 6], 0, "an idle field is not drawn");
    // The timer runs out: reloaded, switched on, drawn with frame 5 in white.
    g.objects.force_field_cursor = 3;
    g.tick_force_fields();
    assert_eq!(&g.objects.force_fields[0..6], &[6, 12, 0, 8, 8, 1]);
    assert_eq!(g.display.mem[2048 + 4 * 32 + 6], 0x0F);
    assert_eq!(g.display.mem[6144 + 12 * 32 + 6], 0x47);
}
