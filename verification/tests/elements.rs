use rectext::{Buffer, Container, Element, Rectangle, Text};

#[test]
fn test_new_container() {
    let container = Element::Container(Container::new(0, 0, 100, 100));
    assert_eq!(container.get_position(), (0, 0));
    match &container {
        Element::Container(c) => assert_eq!(c.sub_elements.len(), 0),
        _ => panic!("expected a container"),
    }
}

#[test]
fn test_add_sub_element() {
    let mut container = Element::Container(Container::new(0, 0, 100, 100));
    let sub_element = Element::Text(Text::new(10, 10, "Text"));
    container.add_sub_element("sub1".to_string(), sub_element);
    match &container {
        Element::Container(c) => {
            assert_eq!(c.sub_elements.len(), 1);
            assert_eq!(c.sub_elements[0].0, "sub1".to_string());
            assert_eq!(c.sub_elements[0].1.get_position(), (10, 10));
        }
        _ => panic!("expected a container"),
    }
}

#[test]
fn container_test_set_position() {
    let mut container = Element::Container(Container::new(0, 0, 100, 100));
    let sub_element = Element::Text(Text::new(10, 10, "Text"));
    container.add_sub_element("sub1".to_string(), sub_element);
    container.set_position(20, 20);
    assert_eq!(container.get_position(), (20, 20));
    match &container {
        Element::Container(c) => {
            assert_eq!(c.sub_elements[0].1.get_position(), (30, 30));
        }
        _ => panic!("expected a container"),
    }
}

#[test]
fn add_sub_element_shifts_by_parent_position_at_insertion() {
    let mut parent = Element::Container(Container::new(5, 7, 50, 50));
    parent.add_sub_element("child".to_string(), Element::Text(Text::new(10, 10, "T")));
    match &parent {
        Element::Container(c) => {
            assert_eq!(c.sub_elements[0].1.get_position(), (15, 17));
        }
        _ => panic!("expected a container"),
    }
}

#[test]
fn add_sub_element_replaces_an_existing_key() {
    let mut parent = Element::Container(Container::new(0, 0, 10, 10));
    parent.add_sub_element("k".to_string(), Element::Text(Text::new(1, 1, "a")));
    parent.add_sub_element("k".to_string(), Element::Text(Text::new(2, 2, "b")));
    match &parent {
        Element::Container(c) => {
            assert_eq!(c.sub_elements.len(), 1);
            assert_eq!(c.sub_elements[0].1.get_position(), (2, 2));
        }
        _ => panic!("expected a container"),
    }
}

#[test]
fn remove_sub_element_removes_and_tolerates_absent_keys() {
    let mut parent = Element::Container(Container::new(0, 0, 10, 10));
    parent.add_sub_element("k".to_string(), Element::Text(Text::new(1, 1, "a")));
    parent.remove_sub_element("missing");
    match &parent {
        Element::Container(c) => assert_eq!(c.sub_elements.len(), 1),
        _ => panic!("expected a container"),
    }
    parent.remove_sub_element("k");
    match &parent {
        Element::Container(c) => assert_eq!(c.sub_elements.len(), 0),
        _ => panic!("expected a container"),
    }
}

#[test]
fn test_rectangle_new() {
    let rect = Rectangle::new(1, 1, 4, 3)
        .top_left('a')
        .top_right('b')
        .bottom_left('c')
        .bottom_right('d')
        .vertical_border('|')
        .horizontal_border('-');

    assert_eq!(rect.x, 1);
    assert_eq!(rect.y, 1);
    assert_eq!(rect.width, 4);
    assert_eq!(rect.height, 3);
    assert_eq!(rect.top_left, 'a');
    assert_eq!(rect.top_right, 'b');
    assert_eq!(rect.bottom_left, 'c');
    assert_eq!(rect.bottom_right, 'd');
    assert_eq!(rect.vertical_border, '|');
    assert_eq!(rect.horizontal_border, '-');
}

#[test]
fn test_rectangle_draw() {
    let rect = Rectangle::new(1, 1, 4, 3)
        .top_left('a')
        .top_right('b')
        .bottom_left('c')
        .bottom_right('d')
        .vertical_border('|')
        .horizontal_border('-');

    let mut buffer = Buffer::new(10, 5);
    let r = Element::Rectangle(rect).draw(&mut buffer);
    assert_eq!(r, Ok(()));
    let content = buffer.get_content();

    assert_eq!(content[1 + 1 * 10], 'a');
    assert_eq!(content[4 + 1 * 10], 'b');
    assert_eq!(content[1 + 3 * 10], 'c');
    assert_eq!(content[4 + 3 * 10], 'd');
}

#[test]
fn rectangle_draw_fills_the_borders() {
    let rect = Rectangle::new(0, 0, 4, 3)
        .top_left('1')
        .top_right('2')
        .bottom_left('3')
        .bottom_right('4')
        .vertical_border('|')
        .horizontal_border('-');
    let mut buffer = Buffer::new(4, 3);
    assert_eq!(Element::Rectangle(rect).draw(&mut buffer), Ok(()));
    let content: String = buffer.get_content().into_iter().collect();
    assert_eq!(content, "1--2|  |3--4");
}

#[test]
fn rectangle_test_set_position() {
    let rect = Rectangle::new(1, 1, 4, 3);
    let mut rect = Element::Rectangle(rect);
    rect.set_position(2, 2);
    assert_eq!(rect.get_position(), (2, 2));
}

#[test]
fn moving_a_parent_moves_grandchildren_by_the_same_rule() {
    let mut inner = Element::Container(Container::new(2, 2, 10, 10));
    inner.add_sub_element("leaf".to_string(), Element::Text(Text::new(1, 1, "x")));
    // The leaf is stored at (3, 3): distance (1, 1) from the inner group.
    let mut outer = Element::Container(Container::new(0, 0, 20, 20));
    outer.add_sub_element("inner".to_string(), inner);
    // Move the outer group: the inner group sits at distance (2, 2), the
    // leaf then follows the inner group at distance (1, 1) from it.
    outer.set_position(10, 10);
    assert_eq!(outer.get_position(), (10, 10));
    match &outer {
        Element::Container(o) => match &o.sub_elements[0].1 {
            Element::Container(i) => {
                assert_eq!((i.x, i.y), (12, 12));
                assert_eq!(i.sub_elements[0].1.get_position(), (13, 13));
            }
            _ => panic!("expected the inner container"),
        },
        _ => panic!("expected the outer container"),
    }
}

#[test]
fn is_wf_rejects_a_rectangle_that_cannot_be_drawn() {
    let good = Element::Rectangle(Rectangle::new(1, 1, 4, 3));
    assert!(good.is_wf());
    let text = Element::Text(Text::new(0, 0, "t"));
    assert!(text.is_wf());
    let huge = Element::Rectangle(Rectangle {
        x: usize::MAX - 1,
        y: 0,
        width: 4,
        height: 3,
        top_left: ' ',
        top_right: ' ',
        bottom_left: ' ',
        bottom_right: ' ',
        horizontal_border: ' ',
        vertical_border: ' ',
        sub_elements: vec![],
    });
    assert!(!huge.is_wf());
    let flat = Element::Rectangle(Rectangle {
        x: 0,
        y: 0,
        width: 4,
        height: 1,
        top_left: ' ',
        top_right: ' ',
        bottom_left: ' ',
        bottom_right: ' ',
        horizontal_border: ' ',
        vertical_border: ' ',
        sub_elements: vec![],
    });
    assert!(!flat.is_wf());
}
