use rectext::{CommandSink, Element, Error, Rectext, TerminalCommand, Text};

#[test]
fn unchanged_scene_second_cycle_emits_only_the_origin_move() {
    let mut ui = Rectext::new(5, 3);
    ui.add_element("t".to_string(), Element::Text(Text::new(0, 0, "A")));
    assert_eq!(ui.draw(), Ok(()));
    let first = ui.take_commands();
    assert!(matches!(first[0], TerminalCommand::MoveCursorTo(1, 1)));
    assert!(matches!(first[1], TerminalCommand::PrintChar('A')));
    assert_eq!(first.len(), 2);
    ui.commit();

    assert_eq!(ui.draw(), Ok(()));
    let second = ui.take_commands();
    assert_eq!(second.len(), 1);
    assert!(matches!(second[0], TerminalCommand::MoveCursorTo(1, 1)));
}

#[test]
fn single_cell_change_emits_one_move_and_one_print() {
    let mut ui = Rectext::new(5, 3);
    ui.add_element("t".to_string(), Element::Text(Text::new(1, 1, "A")));
    assert_eq!(ui.draw(), Ok(()));
    ui.take_commands();
    ui.commit();

    ui.add_element("t".to_string(), Element::Text(Text::new(1, 1, "B")));
    assert_eq!(ui.draw(), Ok(()));
    let cmds = ui.take_commands();
    assert_eq!(cmds.len(), 3);
    assert!(matches!(cmds[0], TerminalCommand::MoveCursorTo(1, 1)));
    assert!(matches!(cmds[1], TerminalCommand::MoveCursorTo(2, 2)));
    assert!(matches!(cmds[2], TerminalCommand::PrintChar('B')));
}

#[test]
fn a_run_of_changed_cells_prints_without_extra_moves() {
    let mut ui = Rectext::new(2, 2);
    ui.add_element("top".to_string(), Element::Text(Text::new(0, 0, "ab")));
    ui.add_element("bottom".to_string(), Element::Text(Text::new(0, 1, "cd")));
    assert_eq!(ui.draw(), Ok(()));
    let cmds = ui.take_commands();
    assert_eq!(cmds.len(), 5);
    assert!(matches!(cmds[0], TerminalCommand::MoveCursorTo(1, 1)));
    assert!(matches!(cmds[1], TerminalCommand::PrintChar('a')));
    assert!(matches!(cmds[2], TerminalCommand::PrintChar('b')));
    assert!(matches!(cmds[3], TerminalCommand::PrintChar('c')));
    assert!(matches!(cmds[4], TerminalCommand::PrintChar('d')));
}

#[test]
fn an_unchanged_gap_forces_a_new_move() {
    let mut ui = Rectext::new(3, 1);
    ui.add_element("left".to_string(), Element::Text(Text::new(0, 0, "a")));
    ui.add_element("right".to_string(), Element::Text(Text::new(2, 0, "c")));
    assert_eq!(ui.draw(), Ok(()));
    let cmds = ui.take_commands();
    assert_eq!(cmds.len(), 4);
    assert!(matches!(cmds[0], TerminalCommand::MoveCursorTo(1, 1)));
    assert!(matches!(cmds[1], TerminalCommand::PrintChar('a')));
    assert!(matches!(cmds[2], TerminalCommand::MoveCursorTo(3, 1)));
    assert!(matches!(cmds[3], TerminalCommand::PrintChar('c')));
}

#[test]
fn failed_draw_leaves_front_untouched_and_emits_nothing() {
    let mut ui = Rectext::new(5, 3);
    ui.add_element("ok".to_string(), Element::Text(Text::new(0, 0, "A")));
    assert_eq!(ui.draw(), Ok(()));
    ui.take_commands();
    ui.commit();

    // This text overruns the 5-cell row: its draw fails mid-frame.
    ui.add_element("bad".to_string(), Element::Text(Text::new(2, 2, "Hello")));
    assert_eq!(
        ui.draw(),
        Err(Error::PositionError { x: 5, y: 2, width: 5, height: 3 })
    );
    assert_eq!(ui.take_commands().len(), 0);

    // The front grid still holds the last shown frame: redrawing the
    // earlier scene diffs to nothing but the origin move.
    ui.remove_element("bad");
    assert_eq!(ui.draw(), Ok(()));
    let cmds = ui.take_commands();
    assert_eq!(cmds.len(), 1);
    assert!(matches!(cmds[0], TerminalCommand::MoveCursorTo(1, 1)));
}

#[test]
fn remove_element_tolerates_absent_keys() {
    let mut ui = Rectext::new(4, 2);
    ui.add_element("t".to_string(), Element::Text(Text::new(0, 0, "x")));
    ui.remove_element("missing");
    assert_eq!(ui.draw(), Ok(()));
    let cmds = ui.take_commands();
    assert!(matches!(cmds[1], TerminalCommand::PrintChar('x')));
    ui.remove_element("t");
    ui.commit();
    assert_eq!(ui.draw(), Ok(()));
    let cmds = ui.take_commands();
    // The cleared scene undraws the origin cell that held the text;
    // the initial move already points there, so no second move comes.
    assert_eq!(cmds.len(), 2);
    assert!(matches!(cmds[0], TerminalCommand::MoveCursorTo(1, 1)));
    assert!(matches!(cmds[1], TerminalCommand::PrintChar(' ')));
}

#[test]
fn cursor_moves_beyond_the_terminal_are_rejected() {
    let mut ui = Rectext::new(5, 3);
    assert_eq!(
        ui.buffer_cmd(TerminalCommand::MoveCursorTo(6, 1)),
        Err(Error::PositionError { x: 6, y: 1, width: 5, height: 3 })
    );
    assert_eq!(ui.buffer_cmd(TerminalCommand::MoveCursorTo(5, 3)), Ok(()));
    assert_eq!(ui.buffer_cmd(TerminalCommand::HideCursor), Ok(()));
    let cmds = ui.take_commands();
    assert_eq!(cmds.len(), 2);
    assert!(matches!(cmds[0], TerminalCommand::MoveCursorTo(5, 3)));
    assert!(matches!(cmds[1], TerminalCommand::HideCursor));
}

#[test]
fn command_sink_queues_in_order() {
    let mut sink = CommandSink::new(7, 4);
    assert_eq!(sink.size(), (7, 4));
    assert_eq!(sink.buffer_cmd(TerminalCommand::ClearScreen), Ok(()));
    assert_eq!(
        sink.buffer_cmd(TerminalCommand::PrintStr("hi".to_string())),
        Ok(())
    );
    let cmds = sink.take_commands();
    assert_eq!(cmds.len(), 2);
    assert!(matches!(cmds[0], TerminalCommand::ClearScreen));
    match &cmds[1] {
        TerminalCommand::PrintStr(s) => assert_eq!(s, "hi"),
        _ => panic!("expected a print-string command"),
    }
    assert_eq!(sink.take_commands().len(), 0);
}

#[test]
fn elements_draw_in_insertion_order() {
    let mut ui = Rectext::new(3, 1);
    ui.add_element("z".to_string(), Element::Text(Text::new(0, 0, "Z")));
    ui.add_element("a".to_string(), Element::Text(Text::new(0, 0, "A")));
    assert_eq!(ui.draw(), Ok(()));
    let cmds = ui.take_commands();
    // The later insertion draws last and wins the cell.
    assert_eq!(cmds.len(), 2);
    assert!(matches!(cmds[1], TerminalCommand::PrintChar('A')));
}
