use starquake::map::{missing_piece_rooms, ports, scan, Cells, Divides, Openings, Parts, Room, CORE_ROOM, FIRST_ROW};
use starquake::pickups::{Item, RoomSet};

/// A room drawn as text, top row first: `#` solid, anything else free.
fn room(lines: &[&str]) -> Cells {
    let mut rows = [0u32; 18];
    for (r, line) in lines.iter().enumerate() {
        for (c, ch) in line.chars().enumerate() {
            if ch != '#' {
                rows[r] |= 1 << c;
            }
        }
    }
    Cells { rows }
}

fn walled() -> Vec<String> {
    (0..18)
        .map(|r| {
            if r == 0 || r == 17 {
                "#".repeat(32)
            } else {
                format!("#{}#", ".".repeat(30))
            }
        })
        .collect()
}

/// An item in `room` at `row`, with `graphic`.
fn item(room: u16, row: u8, graphic: u8) -> Item {
    Item([
        0,
        ((room >> 8) as u8).rotate_right(1) | row,
        room as u8,
        graphic,
    ])
}

#[test]
fn a_piece_for_an_open_hole_marks_its_room() {
    // Hole 0 wants graphic 0x09 and hole 1 is filled (it holds its own
    // number); the rest want graphics nothing here has.
    let mut slots = [0x80 | 0x30; 9];
    slots[0] = 0x80 | 0x09;
    slots[1] = 1;
    let items = [
        item(300, 0, 0x09), // not placed yet: counts
        item(40, 12, 0x09), // a second one with the same graphic
        item(41, 12, 0x01), // wanted by no open hole
        item(42, 12, 0x0F), // not a core piece at all
    ];
    let rooms = missing_piece_rooms(&slots, &items);
    assert!(rooms.contains(300) && rooms.contains(40));
    assert!(!rooms.contains(41) && !rooms.contains(42));
}

#[test]
fn carried_and_delivered_pieces_are_not_marked() {
    let mut slots = [0x80 | 0x30; 9];
    slots[0] = 0x80 | 0x09;
    slots[1] = 0x80 | 0x0A;
    slots[2] = 0x80 | 0x0B;
    let items = [
        item(CORE_ROOM, 0x0A, 0x09), // delivered
        item(51, 2, 0x0A),           // in the inventory
        item(52, 5, 0x0B),           // last inventory slot
    ];
    assert_eq!(missing_piece_rooms(&slots, &items), RoomSet::default());
}

#[test]
fn carrying_a_piece_unmarks_its_twin() {
    let mut slots = [0x80 | 0x30; 9];
    slots[0] = 0x80 | 0x09;
    let twin = item(60, 12, 0x09);
    assert!(missing_piece_rooms(&slots, &[twin]).contains(60));
    for row in [1, 2, 5] {
        let rooms = missing_piece_rooms(&slots, &[item(61, row, 0x09), twin]);
        assert!(!rooms.contains(60), "carried at row {row}");
    }
}

#[test]
fn a_closed_room_has_no_openings() {
    let lines = walled();
    let refs: Vec<&str> = lines.iter().map(String::as_str).collect();
    assert_eq!(scan(&room(&refs)), Openings::default());
}

#[test]
fn a_gap_two_cells_wide_is_an_opening() {
    let mut lines = walled();
    // Two rows free in the left wall, and two columns in the floor.
    for r in [8, 9] {
        lines[r].replace_range(0..1, ".");
    }
    lines[17].replace_range(10..12, "..");
    let refs: Vec<&str> = lines.iter().map(String::as_str).collect();
    let o = scan(&room(&refs));
    assert!(o.left && o.down);
    assert!(!o.right && !o.up);
}

#[test]
fn a_gap_one_cell_wide_is_not() {
    let mut lines = walled();
    lines[8].replace_range(31..32, ".");
    lines[0].replace_range(5..6, ".");
    let refs: Vec<&str> = lines.iter().map(String::as_str).collect();
    assert_eq!(scan(&room(&refs)), Openings::default());
}

#[test]
fn the_play_area_starts_at_its_first_row() {
    let lines = walled();
    let refs: Vec<&str> = lines.iter().map(String::as_str).collect();
    let cells = room(&refs);
    assert!(!cells.is_free(FIRST_ROW, 5), "the top wall");
    assert!(cells.is_free(FIRST_ROW + 1, 5));
    assert!(!cells.is_free(FIRST_ROW - 1, 5), "above the room");
    assert!(cells.fits(FIRST_ROW + 1, 1));
    assert!(!cells.fits(FIRST_ROW + 1, 30), "against the right wall");
}

/// A room's solid cells from its text, `#` solid.
fn solid_of(lines: &[&str]) -> [u32; 18] {
    let mut solid = [0u32; 18];
    for (r, line) in lines.iter().enumerate() {
        for (c, ch) in line.chars().enumerate() {
            if ch == '#' {
                solid[r] |= 1 << c;
            }
        }
    }
    solid
}

/// A room's divides from its text, with `D` a door's cells: solid while
/// shut.
fn divides_of(lines: &[String]) -> Divides {
    let open_lines: Vec<String> = lines.iter().map(|l| l.replace('D', ".")).collect();
    let open_refs: Vec<&str> = open_lines.iter().map(String::as_str).collect();
    let shut_lines: Vec<String> = lines.iter().map(|l| l.replace('D', "#")).collect();
    let shut_refs: Vec<&str> = shut_lines.iter().map(String::as_str).collect();
    let r = Room {
        openings: scan(&room(&shut_refs)),
        shut: Parts::find(&room(&shut_refs)),
        open: Parts::find(&room(&open_refs)),
        passage: None,
        solid: solid_of(&shut_refs),
    };
    let ported: Vec<u8> = ports(&r, false, false).iter().map(|p| p.shut).collect();
    Divides::find(&r, &ported)
}

/// The wall cells of a divides map as text, `#` a wall, `D` a door's.
fn draw_divides(d: &Divides) -> Vec<String> {
    (0..18)
        .map(|r| {
            (0..32)
                .map(|c| {
                    if d.door(r, c) {
                        'D'
                    } else if d.wall(r, c) {
                        '#'
                    } else {
                        '.'
                    }
                })
                .collect()
        })
        .collect()
}

/// A room open on the left and right, rows 8 and 9 of the room.
fn open_both_sides() -> Vec<String> {
    let mut lines = walled();
    for r in [8, 9] {
        lines[r].replace_range(0..1, ".");
        lines[r].replace_range(31..32, ".");
    }
    lines
}

#[test]
fn a_room_in_one_part_has_no_walls_inside() {
    let d = divides_of(&open_both_sides());
    assert_eq!(d, Divides::default(), "{:?}", draw_divides(&d));
}

#[test]
fn a_wall_down_the_middle_stands_where_it_is() {
    let mut lines = open_both_sides();
    for line in &mut lines {
        line.replace_range(15..17, "##");
    }
    let d = divides_of(&lines);
    // The two solid columns between the halves, and nothing else: not
    // the outer walls, which keep no two openings apart.
    for (r, line) in draw_divides(&d).iter().enumerate() {
        let expected: String = (0..32).map(|c| if (15..17).contains(&c) { '#' } else { '.' }).collect();
        assert_eq!(line, &expected, "row {r}");
    }
    assert!(d.doors.iter().all(|&bits| bits == 0));
}

#[test]
fn a_door_in_the_dividing_wall_makes_it_a_door_s() {
    let mut lines = open_both_sides();
    for (r, line) in lines.iter_mut().enumerate() {
        let cells = if (7..10).contains(&r) { "DD" } else { "##" };
        line.replace_range(15..17, cells);
    }
    let drawn = draw_divides(&divides_of(&lines));
    assert!(drawn.iter().all(|l| !l.contains('#')), "{drawn:?}");
    assert!(drawn.iter().any(|l| l.contains('D')), "{drawn:?}");
}

#[test]
fn a_door_joins_the_parts_either_side_of_its_tile_though_not_through_it() {
    // A wall four cells thick down the middle: opening the door's tile
    // (its cells) would not join the halves, walking through it does.
    let mut lines = open_both_sides();
    for line in &mut lines {
        line.replace_range(14..18, "####");
    }
    let refs: Vec<&str> = lines.iter().map(String::as_str).collect();
    let mut parts = Parts::find(&room(&refs));
    let (row, left, right) = (FIRST_ROW + 8, 5, 25);
    assert_ne!(parts.at(row, left), parts.at(row, right));
    parts.join_across(FIRST_ROW + 7, 14, 4);
    assert_eq!(parts.at(row, left), parts.at(row, right));
}

#[test]
fn a_pocket_with_no_opening_draws_no_wall() {
    // A sealed pocket in the top-right corner, beside a room open both
    // sides.
    let mut lines = open_both_sides();
    for line in &mut lines[1..5] {
        line.replace_range(24..25, "#");
    }
    lines[5].replace_range(24..31, "#######");
    let d = divides_of(&lines);
    assert_eq!(d, Divides::default(), "{:?}", draw_divides(&d));
}

#[test]
fn a_gap_that_goes_round_the_wall_joins_the_parts() {
    let mut lines = open_both_sides();
    for (r, line) in lines.iter_mut().enumerate() {
        if r != 1 && r != 2 {
            line.replace_range(15..17, "##");
        }
    }
    assert_eq!(divides_of(&lines), Divides::default());
}

#[test]
fn parts_are_numbered_from_the_top_left() {
    let mut lines = open_both_sides();
    for line in &mut lines {
        line.replace_range(15..17, "##");
    }
    let refs: Vec<&str> = lines.iter().map(String::as_str).collect();
    let parts = Parts::find(&room(&refs));
    assert_eq!(parts.at(FIRST_ROW + 1, 1), 1);
    assert_eq!(parts.at(FIRST_ROW + 1, 17), 2);
    assert_eq!(parts.at(FIRST_ROW + 8, 0), 1, "the gap in the left wall");
    assert_eq!(parts.at(FIRST_ROW, 1), 0, "the top wall");
    assert_eq!(parts.at(FIRST_ROW + 1, 14), 0, "against the middle wall");
    assert_eq!(parts.at(FIRST_ROW - 1, 1), 0, "above the room");
}

#[test]
fn the_edge_is_left_through_its_gaps() {
    let lines = open_both_sides();
    let refs: Vec<&str> = lines.iter().map(String::as_str).collect();
    let cells = room(&refs);
    let r = Room {
        openings: scan(&cells),
        shut: Parts::find(&cells),
        open: Parts::find(&cells),
        passage: None,
        solid: [0; 18],
    };
    let found = ports(&r, false, false);
    // The gaps in rows 8 and 9: BLOB fits there only with his top at row
    // 8, on the right edge (32 + 8) and on the left (82 + 16 - 8).
    assert_eq!(found.len(), 2);
    assert_eq!((found[0].start, found[0].end), (40, 42));
    assert_eq!((found[1].start, found[1].end), (90, 92));
    assert_eq!(found[0].shut, found[1].shut);
}
