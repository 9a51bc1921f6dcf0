use herdr_fleet::frame::{compose_frame, finish_frame, CellData, CursorState, FrameData, Rect};
use herdr_fleet::graphics::shift_graphics_coordinates;
use herdr_fleet::render::placement_fits;

fn cell(symbol: &str, hyperlink: Option<u32>) -> CellData {
    CellData {
        symbol: symbol.to_string(),
        fg: 1,
        bg: 2,
        modifier: 3,
        skip: false,
        hyperlink,
    }
}

fn content() -> FrameData {
    FrameData {
        cells: vec![cell("a", Some(0)), cell("b", None), cell("c", None), cell("d", None)],
        width: 2,
        height: 2,
        cursor: Some(CursorState { x: 1, y: 0, visible: true, shape: 4 }),
        hyperlinks: vec!["https://herdr.dev".to_string()],
        graphics: b"\x1b[1;2Hx".to_vec(),
    }
}

fn symbols(frame: &FrameData) -> String {
    frame.cells.iter().map(|cell| cell.symbol.as_str()).collect()
}

#[test]
fn content_is_placed_beside_the_sidebar() {
    let rect = Rect { x: 1, y: 1, width: 2, height: 2 };
    let frame = compose_frame(Some(&content()), 3, 3, rect);
    assert_eq!(symbols(&frame), "    ab cd");
    assert_eq!((frame.width, frame.height), (3, 3));
    assert_eq!(frame.cursor, Some(CursorState { x: 2, y: 1, visible: true, shape: 4 }));
    assert_eq!(frame.hyperlinks, vec!["https://herdr.dev"]);
    assert_eq!(frame.graphics, b"\x1b[2;3Hx");
    assert_eq!(frame.cells[4].hyperlink, Some(0));
    assert_eq!(frame.cells[0].fg, 0);
}

#[test]
fn content_is_cut_to_its_rectangle() {
    let rect = Rect { x: 0, y: 0, width: 1, height: 5 };
    let frame = compose_frame(Some(&content()), 2, 2, rect);
    assert_eq!(symbols(&frame), "a c ");
}

#[test]
fn a_screen_without_content_is_blank() {
    let rect = Rect { x: 0, y: 0, width: 2, height: 1 };
    let frame = compose_frame(None, 2, 1, rect);
    assert_eq!(symbols(&frame), "  ");
    assert_eq!(frame.cursor, None);
    assert!(frame.hyperlinks.is_empty());
    assert!(frame.graphics.is_empty());
}

#[test]
fn placements_are_tested_before_they_are_made() {
    let rect = Rect { x: 1, y: 1, width: 2, height: 2 };
    assert!(placement_fits(&content(), 3, 3, rect));
    assert!(!placement_fits(&content(), 3, 2, rect));
    let mut short = content();
    short.cells.pop();
    assert!(!placement_fits(&short, 3, 3, rect));
    assert!(placement_fits(&short, 3, 3, Rect { x: 9, y: 9, width: 0, height: 4 }));
}

#[test]
fn unchanged_cells_keep_their_links() {
    let base = content();
    let rendered = vec![cell("a", None), cell("X", None), cell("c", Some(9)), cell("d", None)];
    let frame = finish_frame(rendered, base, true);
    assert_eq!(frame.cells[0].hyperlink, Some(0));
    assert_eq!(frame.cells[1].symbol, "X");
    assert_eq!(frame.cells[2].hyperlink, None);
    assert_eq!(frame.cursor, Some(CursorState { x: 1, y: 0, visible: true, shape: 4 }));
    assert_eq!(frame.graphics, b"\x1b[1;2Hx");
    let hidden = finish_frame(Vec::new(), content(), false);
    assert_eq!(hidden.cursor, None);
}

#[test]
fn graphics_move_with_the_content() {
    assert_eq!(shift_graphics_coordinates(b"\x1b[3;4H", 10, 2), b"\x1b[5;14H");
    assert_eq!(
        shift_graphics_coordinates(b"pre\x1b[1;1Hmid\x1b[02;7Hend", 1, 0),
        b"pre\x1b[1;2Hmid\x1b[2;8Hend"
    );
}

#[test]
fn graphics_without_an_offset_stay() {
    assert_eq!(shift_graphics_coordinates(b"\x1b[01;1H", 0, 0), b"\x1b[01;1H");
    assert!(shift_graphics_coordinates(b"", 5, 5).is_empty());
}

#[test]
fn other_sequences_stay() {
    for bytes in [
        &b"\x1b[3;4m"[..],
        &b"\x1b[;4H"[..],
        &b"\x1b[3H"[..],
        &b"\x1b[3;H"[..],
        &b"\x1b["[..],
        &b"\x1b_Ga=T;AAAA\x1b\\"[..],
    ] {
        assert_eq!(shift_graphics_coordinates(bytes, 3, 3), bytes);
    }
}

#[test]
fn coordinates_out_of_range_count_as_one_and_saturate() {
    assert_eq!(shift_graphics_coordinates(b"\x1b[70000;5H", 1, 1), b"\x1b[2;6H");
    assert_eq!(shift_graphics_coordinates(b"\x1b[65535;5H", 1, 9), b"\x1b[65535;6H");
}

#[test]
fn shifting_twice_adds_up() {
    let once = shift_graphics_coordinates(b"\x1b[3;4Hx", 2, 1);
    assert_eq!(
        shift_graphics_coordinates(&once, 5, 6),
        shift_graphics_coordinates(b"\x1b[3;4Hx", 7, 7)
    );
}

#[test]
fn shifts_add_up_and_saturate() {
    let stream = b"\x1b[5;7Hab\x1b[1;2H";
    let twice = shift_graphics_coordinates(&shift_graphics_coordinates(stream, 65_000, 3), 900, 4);
    assert_eq!(twice, shift_graphics_coordinates(stream, 65_535, 7));
    assert_eq!(twice, b"\x1b[12;65535Hab\x1b[8;65535H");
}

#[test]
fn streams_are_shifted_piece_by_piece() {
    let whole = b"x\x1b[5;7Hab\x1b[1;2";
    let mut pieces = shift_graphics_coordinates(&whole[..7], 1, 1);
    pieces.extend(shift_graphics_coordinates(&whole[7..9], 1, 1));
    pieces.extend(shift_graphics_coordinates(&whole[9..], 1, 1));
    assert_eq!(pieces, shift_graphics_coordinates(whole, 1, 1));
    assert_eq!(pieces, b"x\x1b[6;8Hab\x1b[1;2");
}
