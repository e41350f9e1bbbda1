use ebelt::formatter::format_rows;
use ebelt::store::Direction;
use ebelt::viewer::{App, FileInput, Key, LoadError, Step};

fn text(n: usize) -> Vec<u8> {
    (0..n).map(|i| b'a' + (i % 26) as u8).collect()
}

fn opened(n: usize) -> App {
    let mut app = App::new();
    let result = app.open_file(FileInput::Parsed { bytes: text(n), report: "report".to_string() });
    assert_eq!(result, Ok(()));
    app
}

fn assert_empty(app: &App) {
    assert!(app.bytes().is_empty());
    assert!(app.report().is_none());
    assert!(app.hex_rows().is_empty());
    assert!(app.ascii_rows().is_empty());
}

#[test]
fn new_viewer_shows_nothing() {
    let app = App::new();
    assert_empty(&app);
}

#[test]
fn keys_on_an_empty_viewer_change_nothing() {
    let mut app = App::new();
    assert_eq!(app.on_key(Key::Up), Step::Redraw);
    assert_empty(&app);
    assert_eq!(app.on_key(Key::Down), Step::Redraw);
    assert_empty(&app);
    app.move_up(None);
    app.move_down(Some(3));
    assert_empty(&app);
}

#[test]
fn a_parsed_file_is_laid_out() {
    let bytes = text(40);
    let (hex, ascii) = format_rows(&bytes);
    let mut app = App::new();
    let result = app.open_file(FileInput::Parsed {
        bytes: bytes.clone(),
        report: "two programs".to_string(),
    });
    assert_eq!(result, Ok(()));
    assert_eq!(app.bytes(), &bytes);
    assert_eq!(app.report(), &Some("two programs".to_string()));
    assert_eq!(app.hex_rows(), &hex);
    assert_eq!(app.ascii_rows(), &ascii);
    assert_eq!(app.hex_rows()[0], "61 62 63 64 65 66 67 68    69 6A 6B 6C 6D 6E 6F 70 ");
    assert_eq!(app.ascii_rows()[0], "abcdefgh ijklmnop");
}

#[test]
fn an_unreadable_file_leaves_the_viewer_empty() {
    let mut app = App::new();
    assert_eq!(app.open_file(FileInput::Unreadable), Err(LoadError::Unreadable));
    assert_empty(&app);
}

#[test]
fn an_unparsed_file_leaves_the_viewer_empty() {
    let mut app = App::new();
    assert_eq!(app.open_file(FileInput::Unparsed), Err(LoadError::StructuralParse));
    assert_empty(&app);
}

#[test]
fn an_empty_file_yields_no_rows() {
    let mut app = App::new();
    let result = app.open_file(FileInput::Parsed { bytes: vec![], report: String::new() });
    assert_eq!(result, Ok(()));
    assert!(app.hex_rows().is_empty());
    assert!(app.ascii_rows().is_empty());
    assert_eq!(app.report(), &Some(String::new()));
}

#[test]
fn opening_again_replaces_what_was_shown() {
    let mut app = opened(64);
    app.move_up(None);
    let bytes = text(20);
    let (hex, ascii) = format_rows(&bytes);
    let result = app.open_file(FileInput::Parsed { bytes: bytes.clone(), report: "b".to_string() });
    assert_eq!(result, Ok(()));
    assert_eq!(app.bytes(), &bytes);
    assert_eq!(app.report(), &Some("b".to_string()));
    assert_eq!(app.hex_rows(), &hex);
    assert_eq!(app.ascii_rows(), &ascii);
}

#[test]
fn a_failed_load_clears_what_was_shown() {
    let mut app = opened(64);
    assert_eq!(app.open_file(FileInput::Unreadable), Err(LoadError::Unreadable));
    assert_empty(&app);
    let mut app = opened(64);
    assert_eq!(app.open_file(FileInput::Unparsed), Err(LoadError::StructuralParse));
    assert_empty(&app);
}

#[test]
fn q_quits_and_changes_nothing() {
    let mut app = opened(64);
    let hex = app.hex_rows().clone();
    let ascii = app.ascii_rows().clone();
    assert_eq!(app.on_key(Key::Char('q')), Step::Quit);
    assert_eq!(app.hex_rows(), &hex);
    assert_eq!(app.ascii_rows(), &ascii);
    assert_eq!(app.bytes(), &text(64));
}

#[test]
fn up_arrow_scrolls_up_by_one() {
    let mut app = opened(64);
    let hex = app.hex_rows().clone();
    let ascii = app.ascii_rows().clone();
    assert_eq!(app.on_key(Key::Up), Step::Redraw);
    assert_eq!(
        app.hex_rows(),
        &vec![hex[3].clone(), hex[0].clone(), hex[1].clone(), hex[2].clone()]
    );
    assert_eq!(
        app.ascii_rows(),
        &vec![ascii[3].clone(), ascii[0].clone(), ascii[1].clone(), ascii[2].clone()]
    );
    assert_eq!(app.bytes(), &text(64));
    assert_eq!(app.report(), &Some("report".to_string()));
}

#[test]
fn down_arrow_scrolls_down_by_one() {
    let mut app = opened(64);
    let hex = app.hex_rows().clone();
    let ascii = app.ascii_rows().clone();
    assert_eq!(app.on_key(Key::Down), Step::Redraw);
    assert_eq!(
        app.hex_rows(),
        &vec![hex[1].clone(), hex[2].clone(), hex[3].clone(), hex[0].clone()]
    );
    assert_eq!(
        app.ascii_rows(),
        &vec![ascii[1].clone(), ascii[2].clone(), ascii[3].clone(), ascii[0].clone()]
    );
    assert_eq!(app.bytes(), &text(64));
    assert_eq!(app.report(), &Some("report".to_string()));
}

#[test]
fn other_keys_are_ignored() {
    let mut app = opened(64);
    let hex = app.hex_rows().clone();
    let ascii = app.ascii_rows().clone();
    for key in [Key::Other, Key::Char('Q'), Key::Char('x'), Key::Char('g'), Key::Char(' ')] {
        assert_eq!(app.on_key(key), Step::Redraw);
        assert_eq!(app.hex_rows(), &hex);
        assert_eq!(app.ascii_rows(), &ascii);
    }
}

#[test]
fn move_without_a_number_moves_by_one() {
    let mut by_default = opened(64);
    let mut by_one = opened(64);
    by_default.move_up(None);
    by_one.move_up(Some(1));
    assert_eq!(by_default.hex_rows(), by_one.hex_rows());
    assert_eq!(by_default.ascii_rows(), by_one.ascii_rows());
    by_default.move_down(None);
    by_one.move_down(Some(1));
    assert_eq!(by_default.hex_rows(), by_one.hex_rows());
    assert_eq!(by_default.hex_rows(), opened(64).hex_rows());
}

#[test]
fn move_by_a_number_moves_that_many_rows() {
    let mut app = opened(64);
    let hex = app.hex_rows().clone();
    let ascii = app.ascii_rows().clone();
    app.move_up(Some(2));
    assert_eq!(
        app.hex_rows(),
        &vec![hex[2].clone(), hex[3].clone(), hex[0].clone(), hex[1].clone()]
    );
    app.move_down(Some(3));
    assert_eq!(
        app.hex_rows(),
        &vec![hex[1].clone(), hex[2].clone(), hex[3].clone(), hex[0].clone()]
    );
    assert_eq!(
        app.ascii_rows(),
        &vec![ascii[1].clone(), ascii[2].clone(), ascii[3].clone(), ascii[0].clone()]
    );
    app.move_up(Some(0));
    app.move_down(Some(4));
    app.move_up(Some(9));
    assert_eq!(app.hex_rows(), &hex);
    assert_eq!(app.ascii_rows(), &ascii);
}

#[test]
fn scrolling_never_stops_at_an_end() {
    let mut app = opened(48);
    let hex = app.hex_rows().clone();
    for round in 0..3 {
        for step in 1..=3 {
            assert_eq!(app.on_key(Key::Down), Step::Redraw);
            assert_eq!(app.hex_rows()[0], hex[step % 3], "round {}", round);
        }
        assert_eq!(app.hex_rows(), &hex);
    }
    for _ in 0..6 {
        assert_eq!(app.on_key(Key::Up), Step::Redraw);
    }
    assert_eq!(app.hex_rows(), &hex);
}

#[test]
fn scroll_moves_rows_and_keeps_the_file() {
    let mut app = opened(64);
    let hex = app.hex_rows().clone();
    let ascii = app.ascii_rows().clone();
    app.scroll(Direction::Down, 6);
    assert_eq!(
        app.hex_rows(),
        &vec![hex[2].clone(), hex[3].clone(), hex[0].clone(), hex[1].clone()]
    );
    assert_eq!(
        app.ascii_rows(),
        &vec![ascii[2].clone(), ascii[3].clone(), ascii[0].clone(), ascii[1].clone()]
    );
    app.scroll(Direction::Up, 1);
    assert_eq!(
        app.hex_rows(),
        &vec![hex[1].clone(), hex[2].clone(), hex[3].clone(), hex[0].clone()]
    );
    assert_eq!(app.bytes(), &text(64));
    assert_eq!(app.report(), &Some("report".to_string()));
}

#[test]
fn rows_keep_their_order_round_the_circle() {
    let mut app = opened(100);
    let hex = app.hex_rows().clone();
    let len = hex.len();
    let moves = [
        (Direction::Up, 3usize),
        (Direction::Down, 1),
        (Direction::Down, 12),
        (Direction::Up, 0),
        (Direction::Up, 30),
    ];
    for (direction, n) in moves {
        app.scroll(direction, n);
        let rows = app.hex_rows();
        let start = hex.iter().position(|row| row == &rows[0]).unwrap();
        for i in 0..len {
            assert_eq!(rows[i], hex[(start + i) % len]);
        }
    }
}
