use rectext::{Buffer, Error};

#[test]
fn test_buffer_initialization() {
    let buffer = Buffer::new(5, 3);
    let mut count = 0;
    let mut it = buffer.iter();
    while let Some(c) = it.next() {
        if c == ' ' {
            count += 1;
        }
    }
    assert_eq!(count, 15);
}

#[test]
fn test_draw_char() -> Result<(), Error> {
    let mut buffer = Buffer::new(5, 3);
    buffer.draw_char(1, 1, 'X')?;
    assert_eq!(buffer.get_content()[6], 'X');
    Ok(())
}

#[test]
fn test_clear_buffer() -> Result<(), Error> {
    let mut buffer = Buffer::new(10, 5);
    buffer.draw_char(1, 1, 'X')?;
    buffer.clear();
    for cell in buffer.get_content() {
        assert_eq!(cell, ' ');
    }
    Ok(())
}

#[test]
fn new_buffer_has_width_times_height_spaces() {
    let buffer = Buffer::new(4, 3);
    let content = buffer.get_content();
    assert_eq!(content.len(), 12);
    assert!(content.iter().all(|c| *c == ' '));
}

#[test]
fn draw_char_out_of_bounds_reports_coordinates() {
    let mut buffer = Buffer::new(5, 3);
    let r = buffer.draw_char(7, 1, 'X');
    assert_eq!(
        r,
        Err(Error::PositionError { x: 7, y: 1, width: 5, height: 3 })
    );
    let r = buffer.draw_char(0, 3, 'X');
    assert_eq!(
        r,
        Err(Error::PositionError { x: 0, y: 3, width: 5, height: 3 })
    );
    assert!(buffer.get_content().iter().all(|c| *c == ' '));
}

#[test]
fn draw_char_same_character_is_a_no_op_write() {
    let mut buffer = Buffer::new(5, 3);
    assert_eq!(buffer.draw_char(2, 1, 'Q'), Ok(()));
    assert_eq!(buffer.draw_char(2, 1, 'Q'), Ok(()));
    assert_eq!(buffer.get_content()[1 * 5 + 2], 'Q');
}

#[test]
fn iterator_ends_with_none_and_stays_there() {
    let buffer = Buffer::new(2, 2);
    let mut it = buffer.iter();
    for _ in 0..4 {
        assert_eq!(it.next(), Some(' '));
    }
    assert_eq!(it.next(), None);
    assert_eq!(it.next(), None);
}
