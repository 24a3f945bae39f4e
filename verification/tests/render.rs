use kadeu::game::Card;
use kadeu::layout::{Area, Axis};
use kadeu::ui::{cut_to_limit, draw, narrow, CardSide, Container, Render, Text, TextOptions};
use kadeu::Pin;
use ratatui::buffer::Buffer;
use ratatui::layout::Rect;

fn blank(width: u16, height: u16) -> Buffer {
    Buffer::empty(Rect::new(0, 0, width, height))
}

#[test]
fn bordered_centered_text_in_ten_by_three() {
    let mut buf = blank(10, 3);
    let text = Text::new("Hi").bordered(&[]).centered();
    assert_eq!(text.spot(Area::new(0, 0, 10, 3)), Area::new(4, 1, 2, 1));
    text.render(Area::new(0, 0, 10, 3), &mut buf);
    let expected = Buffer::with_lines([
        "┌────────┐",
        "│   Hi   │",
        "└────────┘",
    ]);
    assert_eq!(buf, expected);
}

#[test]
fn draw_starts_from_a_blank_buffer() {
    let text = Text::new("Hi").bordered(&[]).centered();
    let buf = draw(&text, Area::new(0, 0, 10, 3));
    let expected = Buffer::with_lines([
        "┌────────┐",
        "│   Hi   │",
        "└────────┘",
    ]);
    assert_eq!(buf, expected);
    let offset = draw(&Text::new("ab"), Area::new(3, 2, 4, 1));
    assert_eq!(offset.area, Rect::new(3, 2, 4, 1));
    let row: String = offset.content.iter().map(|cell| cell.symbol()).collect();
    assert_eq!(row, "ab  ");
}

#[test]
fn options_given_at_once_are_the_options_given_in_turn() {
    let options = TextOptions {
        centered: true,
        bordered: true,
        border_title: Some("Deck".to_string()),
    };
    let at_once = draw(&Text::with_options("Hi", options), Area::new(0, 0, 12, 3));
    let in_turn = draw(
        &Text::new("Hi").bordered(&[]).centered().with_border_title("Deck"),
        Area::new(0, 0, 12, 3),
    );
    assert_eq!(at_once, in_turn);
    let none = TextOptions { centered: false, bordered: false, border_title: None };
    assert_eq!(
        draw(&Text::with_options("Hi", none), Area::new(0, 0, 4, 1)),
        Buffer::with_lines(["Hi  "])
    );
}

fn symbols(buf: &Buffer) -> Vec<String> {
    buf.content.iter().map(|cell| cell.symbol().to_string()).collect()
}

#[test]
fn plain_frame_in_small_areas() {
    let frame = Text::new("").bordered(&[]);
    assert_eq!(draw(&frame, Area::new(0, 0, 1, 1)), Buffer::with_lines(["┌"]));
    assert_eq!(draw(&frame, Area::new(0, 0, 3, 1)), Buffer::with_lines(["┌─┐"]));
    assert_eq!(draw(&frame, Area::new(0, 0, 1, 3)), Buffer::with_lines(["┌", "│", "└"]));
    assert_eq!(draw(&frame, Area::new(0, 0, 2, 2)), Buffer::with_lines(["┌┐", "└┘"]));
    assert_eq!(
        draw(&frame, Area::new(0, 0, 4, 3)),
        Buffer::with_lines(["┌──┐", "│  │", "└──┘"])
    );
    assert_eq!(draw(&frame, Area::new(0, 0, 0, 3)).content.len(), 0);
}

#[test]
fn frame_is_cut_down_to_the_buffer() {
    let mut buf = Buffer::with_lines(["....", "....", "...."]);
    Text::new("").bordered(&[]).render(Area::new(1, 1, 9, 9), &mut buf);
    assert_eq!(buf, Buffer::with_lines(["....", ".┌─┐", ".└─┘"]));
}

#[test]
fn cells_outside_the_area_keep_their_symbols() {
    let mut buf = Buffer::with_lines(["xxxxxx", "xxxxxx"]);
    Text::new("ab").render(Area::new(2, 0, 2, 1), &mut buf);
    assert_eq!(buf, Buffer::with_lines(["xxabxx", "xxxxxx"]));

    let mut buf = Buffer::with_lines(["xxxxxx", "xxxxxx"]);
    Text::new("abcdef").centered().render(Area::new(1, 0, 3, 2), &mut buf);
    assert_eq!(symbols(&buf)[0], "x");
    assert_eq!(symbols(&buf)[4..6], ["x", "x"]);
    assert_eq!(symbols(&buf)[6], "x");
    assert_eq!(symbols(&buf)[10..12], ["x", "x"]);

    let card = Card::new("Foo".to_string(), "Bar".to_string());
    let mut buf = Buffer::with_lines(["xxxxxx", "xxxxxx"]);
    Pin(card, true).render(Area::new(1, 1, 2, 1), &mut buf);
    assert_eq!(buf, Buffer::with_lines(["xxxxxx", "xFoxxx"]));

    let mut container = Container::default();
    container.push(Text::new("a"));
    container.push(Text::new("b"));
    let mut buf = Buffer::with_lines(["xxxxxx", "xxxxxx"]);
    container.render(Area::new(1, 0, 4, 1), &mut buf);
    assert_eq!(buf, Buffer::with_lines(["xaxbxx", "xxxxxx"]));

    let mut buf = Buffer::with_lines(["xxxxxx", "xxxxxx", "xxxxxx"]);
    Text::new("")
        .bordered(&[])
        .with_border_title("T")
        .render(Area::new(1, 0, 4, 2), &mut buf);
    assert_eq!(buf, Buffer::with_lines(["x┌T─┐x", "x└──┘x", "xxxxxx"]));
}

#[test]
fn text_next_to_the_last_column() {
    let buf = draw(&Text::new("Hi!"), Area::new(65532, 0, 2, 1));
    assert_eq!(symbols(&buf), ["H", "i"]);
    let framed = draw(
        &Text::new("Hi!").bordered(&[]).centered().with_border_title("Deck"),
        Area::new(65530, 65530, 4, 3),
    );
    assert_eq!(
        symbols(&framed).concat(),
        "┌De┐│Hi│└──┘"
    );
}

#[test]
fn content_is_drawn_up_to_the_limit() {
    let long = "a".repeat(21846);
    assert_eq!(cut_to_limit(&long).len(), 21845);
    assert_eq!(cut_to_limit("short"), "short");
    let buf = draw(&Text::new(&long), Area::new(0, 0, 22000, 1));
    let drawn = symbols(&buf);
    assert!(drawn[..21845].iter().all(|s| s == "a"));
    assert!(drawn[21845..].iter().all(|s| s == " "));
}

#[test]
fn a_long_title_keeps_between_the_corners() {
    let text = Text::new("Hi").bordered(&[]).centered().with_border_title(&"T".repeat(30000));
    assert_eq!(
        draw(&text, Area::new(0, 0, 6, 3)),
        Buffer::with_lines(["┌TTTT┐", "│ Hi │", "└────┘"])
    );
    let mut title = "ab".to_string();
    title.push_str(&"\u{1100}".repeat(32768));
    let text = Text::new("Hi").bordered(&[]).centered().with_border_title(&title);
    assert_eq!(
        draw(&text, Area::new(0, 0, 4, 3)),
        Buffer::with_lines(["┌ab┐", "│Hi│", "└──┘"])
    );
    assert_eq!(
        draw(&Text::new("").bordered(&[]).with_border_title("T"), Area::new(0, 0, 2, 2)),
        Buffer::with_lines(["┌┐", "└┘"])
    );
}

#[test]
fn one_huge_grapheme_does_not_reach_past_the_buffer() {
    let mut content = "aaaaa".to_string();
    content.push_str(&"\u{1100}".repeat(32768));
    let buf = draw(&Text::new(&content), Area::new(0, 0, 5, 1));
    assert_eq!(buf, Buffer::with_lines(["aaaaa"]));
    let card = Card::new(content, "back".to_string());
    let buf = draw(&Pin(card, true), Area::new(0, 0, 5, 1));
    assert_eq!(buf, Buffer::with_lines(["aaaaa"]));
}

#[test]
fn pin_in_a_very_wide_area() {
    assert_eq!(narrow(Area::new(3, 1, 40000, 2)), Area::new(3, 1, 32767, 2));
    assert_eq!(narrow(Area::new(3, 1, 32767, 2)), Area::new(3, 1, 32767, 2));

    let card = Card::new("a".repeat(65536), "b".to_string());
    let buf = draw(&Pin(card, true), Area { x: 0, y: 0, width: 65534, height: 1 });
    let drawn = symbols(&buf);
    assert!(drawn[..21845].iter().all(|s| s == "a"));
    assert!(drawn[21845..].iter().all(|s| s == " "));

    let card = Card::new("\u{65e5}".repeat(20000), "b".to_string());
    let buf = draw(&Pin(card, true), Area::new(0, 0, 40000, 1));
    let drawn = symbols(&buf);
    assert_eq!(drawn.iter().filter(|s| s.as_str() == "\u{65e5}").count(), 16383);
    assert!(drawn[32767..].iter().all(|s| s == " "));
}

#[test]
fn plain_text_fills_its_area_from_the_corner() {
    let mut buf = blank(6, 2);
    let text = Text::new("Hi");
    assert_eq!(text.spot(Area::new(1, 0, 5, 2)), Area::new(1, 0, 5, 2));
    text.render(Area::new(1, 0, 5, 2), &mut buf);
    assert_eq!(buf, Buffer::with_lines([" Hi   ", "      "]));
}

#[test]
fn centered_text_without_a_frame() {
    let mut buf = blank(7, 3);
    Text::new("abc").centered().render(Area::new(0, 0, 7, 3), &mut buf);
    assert_eq!(buf, Buffer::with_lines(["       ", "  abc  ", "       "]));
}

#[test]
fn frame_is_drawn_over_text_that_is_not_centered() {
    let mut buf = blank(6, 3);
    Text::new("Hello").bordered(&[]).render(Area::new(0, 0, 6, 3), &mut buf);
    assert_eq!(buf, Buffer::with_lines(["┌────┐", "│    │", "└────┘"]));
}

#[test]
fn frame_carries_the_title() {
    let mut buf = blank(12, 3);
    let text = Text::new("Hi")
        .bordered(&["bold".to_string()])
        .centered()
        .with_border_title("Deck");
    text.render(Area::new(0, 0, 12, 3), &mut buf);
    let expected = Buffer::with_lines([
        "┌Deck──────┐",
        "│    Hi    │",
        "└──────────┘",
    ]);
    assert_eq!(buf, expected);
}

#[test]
fn title_without_a_frame_is_not_drawn() {
    let mut buf = blank(8, 1);
    Text::new("Hi").with_border_title("Deck").render(Area::new(0, 0, 8, 1), &mut buf);
    assert_eq!(buf, Buffer::with_lines(["Hi      "]));
}

#[test]
fn default_text_draws_nothing() {
    let mut buf = blank(4, 1);
    Text::default().render(Area::new(0, 0, 4, 1), &mut buf);
    assert_eq!(buf, blank(4, 1));
}

#[test]
fn wide_characters_take_two_columns_each() {
    let text = Text::new("日本").centered();
    assert_eq!(text.spot(Area::new(0, 0, 10, 1)), Area::new(3, 0, 4, 1));
}

#[test]
fn text_wider_than_its_area_takes_all_of_it() {
    let text = Text::new("a long line of text").centered();
    assert_eq!(text.spot(Area::new(2, 0, 5, 3)), Area::new(2, 1, 5, 1));
}

#[test]
fn text_keeps_to_the_buffer() {
    let mut buf = blank(4, 1);
    Text::new("Hello").bordered(&[]).centered().render(Area::new(2, 0, 10, 3), &mut buf);
    assert_eq!(buf.area, Rect::new(0, 0, 4, 1));
    let far = Area::new(50, 50, 10, 3);
    let mut other = blank(4, 1);
    Text::new("Hello").bordered(&[]).centered().render(far, &mut other);
    assert_eq!(other, blank(4, 1));
}

#[test]
fn card_side_shows_the_front_then_the_back() {
    let mut side = CardSide::new("Foo".to_string(), "Bar".to_string()).with_title("Foobar Deck");
    assert!(!side.is_revealed());
    assert_eq!(side.displayed(), "Foo");
    let area = Area::new(0, 0, 15, 3);
    let mut buf = blank(15, 3);
    side.render(area, &mut buf);
    let front = Buffer::with_lines([
        "┌Foobar Deck──┐",
        "│     Foo     │",
        "└─────────────┘",
    ]);
    assert_eq!(buf, front);

    side.reveal_back();
    assert!(side.is_revealed());
    assert_eq!(side.displayed(), "Bar");
    let copy = side.clone();
    assert!(copy.is_revealed());
    assert_eq!(copy.displayed(), "Bar");
    let mut buf = blank(15, 3);
    copy.render(area, &mut buf);
    let back = Buffer::with_lines([
        "┌Foobar Deck──┐",
        "│     Bar     │",
        "└─────────────┘",
    ]);
    assert_eq!(buf, back);

    side.reveal_back();
    assert_eq!(side.displayed(), "Bar");
}

#[test]
fn card_side_without_a_title() {
    let side = CardSide::new("Q".to_string(), "A".to_string());
    let mut buf = blank(5, 3);
    side.render(Area::new(0, 0, 5, 3), &mut buf);
    assert_eq!(buf, Buffer::with_lines(["┌───┐", "│ Q │", "└───┘"]));
    let mut again = blank(5, 3);
    side.to_text().render(Area::new(0, 0, 5, 3), &mut again);
    assert_eq!(again, buf);
}

#[test]
fn container_draws_its_children_side_by_side() {
    let mut container = Container::default();
    assert_eq!(container.len(), 0);
    container.push(Text::new("ab"));
    container.push(Text::new("cd"));
    assert_eq!(container.len(), 2);
    let mut buf = blank(10, 1);
    container.render(Area::new(0, 0, 10, 1), &mut buf);
    assert_eq!(buf, Buffer::with_lines(["ab   cd   "]));
}

#[test]
fn container_along_the_vertical_axis() {
    let mut container = Container::default().along(Axis::Vertical);
    container.push(Text::new("ab"));
    container.push(Text::new("cd"));
    let mut buf = blank(4, 2);
    container.render(Area::new(0, 0, 4, 2), &mut buf);
    assert_eq!(buf, Buffer::with_lines(["ab  ", "cd  "]));
}

#[test]
fn container_of_framed_texts() {
    let mut container = Container::default();
    container.push(Text::new("a").bordered(&[]).centered());
    container.push(Text::new("b").bordered(&[]).centered());
    let mut buf = blank(10, 3);
    container.render(Area::new(0, 0, 10, 3), &mut buf);
    let expected = Buffer::with_lines([
        "┌───┐┌───┐",
        "│ a ││ b │",
        "└───┘└───┘",
    ]);
    assert_eq!(buf, expected);
}

#[test]
fn containers_nest() {
    let mut left = Container::default().along(Axis::Vertical);
    left.push(Text::new("a"));
    left.push(Text::new("b"));
    let mut right = Container::default().along(Axis::Vertical);
    right.push(Text::new("c"));
    right.push(Text::new("d"));
    let mut outer = Container::default();
    outer.push(left);
    outer.push(right);
    let mut buf = blank(4, 2);
    outer.render(Area::new(0, 0, 4, 2), &mut buf);
    assert_eq!(buf, Buffer::with_lines(["a c ", "b d "]));
}

#[test]
fn empty_container_draws_nothing() {
    let container: Container<Text> = Container::default();
    let mut buf = blank(4, 1);
    container.render(Area::new(0, 0, 4, 1), &mut buf);
    assert_eq!(buf, blank(4, 1));
}

#[test]
fn pin_shows_the_face_it_is_pinned_to() {
    let card = Card::new("Foo".to_string(), "Bar".to_string());
    let mut buf = blank(5, 1);
    Pin(card, true).render(Area::new(0, 0, 5, 1), &mut buf);
    assert_eq!(buf, Buffer::with_lines(["Foo  "]));

    let card = Card::new("Foo".to_string(), "Bar".to_string());
    let mut buf = blank(5, 1);
    Pin(card, false).render(Area::new(1, 0, 4, 1), &mut buf);
    assert_eq!(buf, Buffer::with_lines([" Bar "]));
}

#[test]
fn pin_keeps_to_the_buffer() {
    let card = Card::new("Foo".to_string(), "Bar".to_string());
    let mut buf = blank(2, 1);
    Pin(card, true).render(Area::new(1, 0, 9, 4), &mut buf);
    assert_eq!(buf, Buffer::with_lines([" F"]));

    let card = Card::new("Foo".to_string(), "Bar".to_string());
    let mut buf = blank(2, 1);
    Pin(card, true).render(Area::new(5, 5, 9, 4), &mut buf);
    assert_eq!(buf, blank(2, 1));
}
