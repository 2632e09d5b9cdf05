use rectext::{Buffer, Error, Text};

#[test]
fn test_text_new() {
    let text = Text::new(2, 2, "Hello");
    assert_eq!(text.x, 2);
    assert_eq!(text.y, 2);
    assert_eq!(text.content, "Hello".to_string());
}

#[test]
fn test_text_draw() -> Result<(), Error> {
    let text = Text::new(2, 2, "Hello");
    let mut buffer = Buffer::new(10, 5);
    text.draw(&mut buffer)?;
    let content = buffer.get_content();

    assert_eq!(content[2 + 2 * 10], 'H');
    assert_eq!(content[3 + 2 * 10], 'e');
    assert_eq!(content[4 + 2 * 10], 'l');
    assert_eq!(content[5 + 2 * 10], 'l');
    assert_eq!(content[6 + 2 * 10], 'o');
    Ok(())
}

#[test]
fn test_set_content() {
    let mut text = Text::new(2, 2, "Hello");
    text.set_content("World");
    assert_eq!(text.content, "World".to_string());
}

#[test]
fn text_test_set_position() {
    let mut text = Text::new(2, 2, "Hello");
    text.set_position(3, 3);
    assert_eq!(text.x, 3);
    assert_eq!(text.y, 3);
}

#[test]
fn text_overrunning_the_row_fails_with_position_error() {
    let text = Text::new(2, 2, "Hello");
    let mut buffer = Buffer::new(5, 3);
    let r = text.draw(&mut buffer);
    assert_eq!(
        r,
        Err(Error::PositionError { x: 5, y: 2, width: 5, height: 3 })
    );
    // The characters that fit were written before the failure.
    let content = buffer.get_content();
    assert_eq!(content[2 + 2 * 5], 'H');
    assert_eq!(content[3 + 2 * 5], 'e');
    assert_eq!(content[4 + 2 * 5], 'l');
}

#[test]
fn text_below_the_grid_fails_on_its_first_character() {
    let text = Text::new(0, 9, "Hi");
    let mut buffer = Buffer::new(5, 3);
    let r = text.draw(&mut buffer);
    assert_eq!(
        r,
        Err(Error::PositionError { x: 0, y: 9, width: 5, height: 3 })
    );
    assert!(buffer.get_content().iter().all(|c| *c == ' '));
}
