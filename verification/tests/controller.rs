use wirewhale::app::{App, InputMode};
use wirewhale::input_action::{
    allmode_input, filtermode_input, key_input, listmode_input, viewmode_input, Key,
};
use wirewhale::packet::{read_packet, Packet};

const TCP_PACKET: [u8; 180] = [
    0x61u8, 0x6u8, 0xadu8, 0x63u8, 0x85u8, 0x5cu8, 0x2u8, 0x00u8, 0xa4u8, 0x00u8, 0x00u8, 0x00u8,
    0xa4u8, 0x00u8, 0x00u8, 0x00u8, 0x00u8, 0xf6u8, 0x20u8, 0x8au8, 0x1cu8, 0xa6u8, 0xe0u8, 0x3fu8,
    0x49u8, 0x86u8, 0xfu8, 0x9fu8, 0x8u8, 0x00u8, 0x45u8, 0x00u8, 0x00u8, 0x96u8, 0x82u8, 0xabu8,
    0x40u8, 0x00u8, 0x80u8, 0x6u8, 0x00u8, 0x00u8, 0xc0u8, 0xa8u8, 0xbu8, 0xau8, 0xc0u8, 0xa8u8,
    0xbu8, 0x3u8, 0xe5u8, 0xb5u8, 0x1fu8, 0x49u8, 0x9cu8, 0x91u8, 0x77u8, 0x97u8, 0x60u8, 0x4eu8,
    0x1bu8, 0xb2u8, 0x50u8, 0x18u8, 0x1u8, 0xffu8, 0x97u8, 0xe6u8, 0x00u8, 0x00u8, 0x17u8, 0x3u8,
    0x3u8, 0x00u8, 0x69u8, 0x4au8, 0xd5u8, 0x61u8, 0xb8u8, 0x2du8, 0x43u8, 0x94u8, 0x3au8, 0xc2u8,
    0xafu8, 0x00u8, 0xd4u8, 0x7fu8, 0x7u8, 0xbeu8, 0xd1u8, 0x4cu8, 0x63u8, 0x32u8, 0x4eu8, 0xa4u8,
    0x78u8, 0xb9u8, 0x2au8, 0xf4u8, 0xc1u8, 0xf3u8, 0xdau8, 0xfdu8, 0x3u8, 0xfau8, 0xfcu8, 0x4au8,
    0x46u8, 0x00u8, 0x6au8, 0xc2u8, 0x16u8, 0xb7u8, 0xe1u8, 0xecu8, 0xc7u8, 0x7u8, 0x14u8, 0x49u8,
    0xb5u8, 0xc8u8, 0x4cu8, 0xbau8, 0x2du8, 0xcfu8, 0xa1u8, 0x8du8, 0x72u8, 0x58u8, 0x52u8, 0x3bu8,
    0x99u8, 0x58u8, 0xf4u8, 0xcu8, 0x5du8, 0x24u8, 0x42u8, 0x77u8, 0x78u8, 0x73u8, 0xafu8, 0x46u8,
    0x97u8, 0xe8u8, 0xe8u8, 0x1fu8, 0xc7u8, 0x3bu8, 0x46u8, 0x77u8, 0x49u8, 0x45u8, 0x2u8, 0x1du8,
    0x53u8, 0x37u8, 0x70u8, 0x38u8, 0x4bu8, 0x99u8, 0x17u8, 0x8eu8, 0x66u8, 0x88u8, 0x8fu8, 0xb3u8,
    0xb2u8, 0x28u8, 0xc5u8, 0x94u8, 0x2cu8, 0x3bu8, 0x3au8, 0xbcu8, 0x6fu8, 0xa8u8, 0xfdu8, 0x78u8,
];

const UDP_PACKET: [u8; 108] = [
    0x21u8, 0x21u8, 0xadu8, 0x63u8, 0x59u8, 0xcdu8, 0x5u8, 0x00u8, 0x5cu8, 0x00u8, 0x00u8, 0x00u8,
    0x5cu8, 0x00u8, 0x00u8, 0x00u8, 0x1u8, 0x00u8, 0x5eu8, 0x00u8, 0x00u8, 0x1u8, 0xc4u8, 0x3cu8,
    0xeau8, 0x6u8, 0xddu8, 0x00u8, 0x8u8, 0x00u8, 0x45u8, 0x00u8, 0x00u8, 0x4eu8, 0xd9u8, 0xa6u8,
    0x40u8, 0x00u8, 0x1u8, 0x11u8, 0xe5u8, 0x4du8, 0xc0u8, 0xa8u8, 0xbu8, 0x1u8, 0xefu8, 0x00u8,
    0x00u8, 0x1u8, 0xebu8, 0x70u8, 0x17u8, 0x70u8, 0x00u8, 0x3au8, 0x6cu8, 0xa2u8, 0x74u8, 0x69u8,
    0x6du8, 0x65u8, 0x20u8, 0x69u8, 0x73u8, 0x20u8, 0x54u8, 0x68u8, 0x75u8, 0x20u8, 0x44u8, 0x65u8,
    0x63u8, 0x20u8, 0x32u8, 0x39u8, 0x20u8, 0x31u8, 0x34u8, 0x3au8, 0x30u8, 0x39u8, 0x3au8, 0x35u8,
    0x32u8, 0x20u8, 0x32u8, 0x30u8, 0x32u8, 0x32u8, 0x20u8, 0x5bu8, 0x6cu8, 0x6fu8, 0x6fu8, 0x70u8,
    0x5fu8, 0x64u8, 0x65u8, 0x74u8, 0x65u8, 0x63u8, 0x74u8, 0x69u8, 0x6fu8, 0x6eu8, 0x5du8, 0x00u8,
];

fn packet(bytes: &[u8]) -> Packet {
    let mut read = bytes;
    read_packet(&mut read).unwrap()
}

/// Twenty packets, the even indices TCP and the odd ones UDP.
fn twenty() -> App {
    let mut app = App::default();
    for i in 0..20 {
        if i % 2 == 0 {
            app.add_packet(packet(&TCP_PACKET));
        } else {
            app.add_packet(packet(&UDP_PACKET));
        }
    }
    app
}

#[test]
fn it_works() {
    let mut app = App::default();

    let tcp_packet = TCP_PACKET;
    let udp_packet = UDP_PACKET;

    for i in 0..20 {
        let mut packet_read = if i % 2 == 0 {
            &tcp_packet[..]
        } else {
            &udp_packet[..]
        };
        let packet = read_packet(&mut packet_read);
        if let Ok(packet) = packet {
            app.add_packet(packet);
        }
    }
    let mut offset = 0;
    let height = 5;
    let (view_list, _) = app.get_view_list(height, &mut offset);
    assert_eq!(view_list.len(), height as usize);
    app.add_filter_str("UDP");
    let (view_list, _) = app.get_view_list(height, &mut offset);
    assert_eq!(view_list.len(), height as usize);
    app.next();
    let (_, select) = app.get_view_list(height, &mut offset);
    assert_eq!(select, Some(4));
    app.previous();
    let (_, select) = app.get_view_list(height, &mut offset);
    assert_eq!(select, Some(3));
    app.previous();
    app.previous();
    app.previous();
    app.previous();
    let (_view_list, select) = app.get_view_list(height, &mut offset);
    assert_eq!(select, Some(0));
    app.next();
    let (_view_list, select) = app.get_view_list(height, &mut offset);
    assert_eq!(select, Some(1));
}

#[test]
fn a_fresh_controller_is_empty_and_running() {
    let app = App::default();
    assert!(app.is_running());
    assert_eq!(app.get_filter(), "");
    assert_eq!(app.get_view_text(), "");
    assert_eq!(app.get_select(), None);
    assert!(matches!(app.get_input_mode(), InputMode::List));
    let mut offset = 3;
    assert_eq!(app.get_view_list_index(5, &mut offset), (vec![], None));
    assert_eq!(offset, 3);
}

#[test]
fn tail_window_shows_the_last_matches() {
    let mut app = twenty();
    let mut offset = 0;
    assert_eq!(
        app.get_view_list_index(5, &mut offset),
        (vec![15, 16, 17, 18, 19], None)
    );
    assert_eq!(offset, 0);
    app.add_filter_str("UDP");
    assert_eq!(
        app.get_view_list_index(5, &mut offset),
        (vec![11, 13, 15, 17, 19], None)
    );
    assert_eq!(offset, 0);
}

#[test]
fn tail_window_is_short_when_few_match() {
    let mut app = twenty();
    app.add_filter_str("UDP");
    let mut offset = 0;
    assert_eq!(
        app.get_view_list_index(50, &mut offset),
        (vec![1, 3, 5, 7, 9, 11, 13, 15, 17, 19], None)
    );
    assert_eq!(
        app.get_view_list_index(10, &mut offset),
        (vec![1, 3, 5, 7, 9, 11, 13, 15, 17, 19], None)
    );
    assert_eq!(app.get_view_list_index(1, &mut offset), (vec![19], None));
    assert_eq!(app.get_view_list_index(0, &mut offset), (vec![], None));
}

#[test]
fn nothing_matches_nothing_is_shown() {
    let mut app = twenty();
    app.add_filter_str("no such text");
    let mut offset = 7;
    assert_eq!(app.get_view_list_index(5, &mut offset), (vec![], None));
    assert_eq!(offset, 7);
    app.next();
    assert_eq!(app.get_select(), None);
    app.previous();
    assert_eq!(app.get_select(), None);
}

#[test]
fn window_slides_until_the_selection_is_its_last_line() {
    let mut app = twenty();
    app.add_filter_str("UDP");
    app.next();
    assert_eq!(app.get_select(), Some(19));
    let mut offset = 0;
    assert_eq!(
        app.get_view_list_index(5, &mut offset),
        (vec![11, 13, 15, 17, 19], Some(4))
    );
    assert_eq!(offset, 11);
}

#[test]
fn window_stays_while_the_selection_is_inside() {
    let mut app = twenty();
    app.add_filter_str("UDP");
    app.next();
    let mut offset = 0;
    app.get_view_list_index(5, &mut offset);
    app.previous();
    assert_eq!(
        app.get_view_list_index(5, &mut offset),
        (vec![11, 13, 15, 17, 19], Some(3))
    );
    app.previous();
    app.previous();
    app.previous();
    assert_eq!(
        app.get_view_list_index(5, &mut offset),
        (vec![11, 13, 15, 17, 19], Some(0))
    );
    assert_eq!(offset, 11);
}

#[test]
fn window_follows_the_selection_backward() {
    let mut app = twenty();
    app.add_filter_str("UDP");
    app.next();
    let mut offset = 0;
    app.get_view_list_index(5, &mut offset);
    for _ in 0..5 {
        app.previous();
    }
    assert_eq!(app.get_select(), Some(9));
    assert_eq!(
        app.get_view_list_index(5, &mut offset),
        (vec![9, 11, 13, 15, 17], Some(0))
    );
    assert_eq!(offset, 9);
    app.next();
    assert_eq!(
        app.get_view_list_index(5, &mut offset),
        (vec![9, 11, 13, 15, 17], Some(1))
    );
}

#[test]
fn selection_at_the_first_match() {
    let mut app = twenty();
    app.add_filter_str("UDP");
    app.previous();
    assert_eq!(app.get_select(), Some(1));
    let mut offset = 15;
    assert_eq!(
        app.get_view_list_index(5, &mut offset),
        (vec![1, 3, 5, 7, 9], Some(0))
    );
    assert_eq!(offset, 1);
    app.previous();
    assert_eq!(app.get_select(), Some(1));
}

#[test]
fn offset_on_a_packet_that_does_not_match_moves_forward() {
    let mut app = twenty();
    app.add_filter_str("UDP");
    app.next();
    app.previous();
    app.previous();
    assert_eq!(app.get_select(), Some(15));
    let mut offset = 4;
    assert_eq!(
        app.get_view_list_index(3, &mut offset),
        (vec![11, 13, 15], Some(2))
    );
    assert_eq!(offset, 11);
    let mut offset = 12;
    assert_eq!(
        app.get_view_list_index(3, &mut offset),
        (vec![13, 15, 17], Some(1))
    );
    assert_eq!(offset, 13);
}

#[test]
fn height_beyond_the_matches_shows_them_all() {
    let mut app = twenty();
    app.add_filter_str("UDP");
    app.next();
    let mut offset = 0;
    assert_eq!(
        app.get_view_list_index(50, &mut offset),
        (vec![1, 3, 5, 7, 9, 11, 13, 15, 17, 19], Some(9))
    );
    assert_eq!(offset, 1);
}

#[test]
fn single_match_with_selection() {
    let mut app = App::default();
    app.add_packet(packet(&TCP_PACKET));
    app.add_packet(packet(&UDP_PACKET));
    app.add_packet(packet(&TCP_PACKET));
    app.add_filter_str("UDP");
    app.next();
    assert_eq!(app.get_select(), Some(1));
    let mut offset = 0;
    assert_eq!(app.get_view_list_index(5, &mut offset), (vec![1], Some(0)));
    assert_eq!(offset, 1);
    app.next();
    assert_eq!(app.get_select(), Some(1));
    app.previous();
    assert_eq!(app.get_select(), Some(1));
}

#[test]
fn no_room_shows_nothing_and_moves_the_offset_onto_a_match() {
    let mut app = twenty();
    app.add_filter_str("UDP");
    app.next();
    let mut offset = 4;
    assert_eq!(app.get_view_list_index(0, &mut offset), (vec![], None));
    assert_eq!(offset, 5);
}

#[test]
fn one_line_window_shows_the_selection() {
    let mut app = twenty();
    app.add_filter_str("UDP");
    app.next();
    app.previous();
    let mut offset = 0;
    assert_eq!(app.get_view_list_index(1, &mut offset), (vec![17], Some(0)));
    assert_eq!(offset, 17);
}

#[test]
fn the_window_is_never_higher_than_asked_and_holds_the_selection() {
    let mut app = twenty();
    app.add_filter_str("UDP");
    for moves in 0..12 {
        for height in 0..13u16 {
            for start in 0..20usize {
                let mut offset = start;
                let (window, line) = app.get_view_list_index(height, &mut offset);
                assert!(window.len() <= height as usize);
                match app.get_select() {
                    Some(s) if height > 0 => {
                        assert_eq!(window[line.unwrap()], s);
                        assert_eq!(offset, window[0]);
                    }
                    _ => assert_eq!(line, None),
                }
            }
        }
        if moves % 3 == 2 {
            app.next();
        } else {
            app.previous();
        }
    }
}

#[test]
fn lines_of_the_window_are_the_summaries() {
    let mut app = twenty();
    app.add_filter_str("UDP");
    app.next();
    let mut offset = 0;
    let (lines, line) = app.get_view_list(3, &mut offset);
    assert_eq!(line, Some(2));
    assert_eq!(offset, 15);
    assert_eq!(lines.len(), 3);
    for l in &lines {
        assert_eq!(l, &packet(&UDP_PACKET).line());
    }
}

#[test]
fn filter_edit_moves_the_selection_onto_a_match() {
    let mut app = twenty();
    app.next();
    app.previous();
    assert_eq!(app.get_select(), Some(18));
    app.add_filter_str("UDP");
    assert_eq!(app.get_select(), Some(19));
    app.delete_filter_char();
    app.delete_filter_char();
    app.delete_filter_char();
    assert_eq!(app.get_filter(), "");
    assert_eq!(app.get_select(), Some(19));
    app.add_filter_str("protocol");
    assert_eq!(app.get_select(), Some(18));
    app.add_filter_str("x");
    assert_eq!(app.get_select(), None);
}

#[test]
fn deleting_from_an_empty_filter_changes_nothing() {
    let mut app = twenty();
    app.delete_filter_char();
    assert_eq!(app.get_filter(), "");
    let mut offset = 0;
    assert_eq!(
        app.get_view_list_index(2, &mut offset),
        (vec![18, 19], None)
    );
}

#[test]
fn pinned_packet_stays_while_the_selection_moves() {
    let mut app = twenty();
    assert_eq!(app.get_view_text(), "");
    app.next();
    app.to_view();
    let pinned = app.get_view_text();
    assert_eq!(pinned, packet(&UDP_PACKET).text().join("\n"));
    app.previous();
    assert_eq!(app.get_view_text(), pinned);
    app.to_view();
    assert_eq!(app.get_view_text(), packet(&TCP_PACKET).text().join("\n"));
    app.unselect();
    assert_eq!(app.get_select(), None);
    assert_eq!(app.get_view_text(), packet(&TCP_PACKET).text().join("\n"));
    app.to_view();
    assert_eq!(app.get_view_text(), "");
}

#[test]
fn pushes_leave_the_selection_alone() {
    let mut app = twenty();
    app.add_filter_str("UDP");
    app.next();
    app.add_packet(packet(&TCP_PACKET));
    app.add_packet(packet(&UDP_PACKET));
    assert_eq!(app.get_select(), Some(19));
    app.next();
    assert_eq!(app.get_select(), Some(21));
    app.next();
    assert_eq!(app.get_select(), Some(21));
    let mut offset = 0;
    assert_eq!(
        app.get_view_list_index(2, &mut offset),
        (vec![19, 21], Some(1))
    );
}

#[test]
fn input_mode_cycles() {
    let mut mode = InputMode::Filter;
    mode.next();
    assert!(matches!(mode, InputMode::List));
    mode.next();
    assert!(matches!(mode, InputMode::View));
    mode.next();
    assert!(matches!(mode, InputMode::Filter));
    let mut app = App::default();
    app.next_forcus();
    assert!(matches!(app.get_input_mode(), InputMode::View));
    app.next_forcus();
    assert!(matches!(app.get_input_mode(), InputMode::Filter));
    app.next_forcus();
    assert!(matches!(app.get_input_mode(), InputMode::List));
}

#[test]
fn exit_clears_running() {
    let mut app = App::default();
    app.exit();
    assert!(!app.is_running());
}

#[test]
fn keys_for_every_pane() {
    let mut app = twenty();
    allmode_input(&mut app, Key::Tab);
    assert!(matches!(app.get_input_mode(), InputMode::View));
    allmode_input(&mut app, Key::Down);
    assert!(matches!(app.get_input_mode(), InputMode::View));
    assert!(app.is_running());
    allmode_input(&mut app, Key::Esc);
    assert!(!app.is_running());
}

#[test]
fn keys_in_the_list() {
    let mut app = twenty();
    listmode_input(&mut app, Key::Down);
    assert_eq!(app.get_select(), Some(19));
    listmode_input(&mut app, Key::Up);
    assert_eq!(app.get_select(), Some(18));
    listmode_input(&mut app, Key::Right);
    assert_eq!(app.get_view_text(), packet(&TCP_PACKET).text().join("\n"));
    listmode_input(&mut app, Key::Char('x'));
    listmode_input(&mut app, Key::Other);
    assert_eq!(app.get_select(), Some(18));
    assert_eq!(app.get_filter(), "");
    listmode_input(&mut app, Key::Left);
    assert_eq!(app.get_select(), None);
}

#[test]
fn keys_in_the_filter_line() {
    let mut app = twenty();
    filtermode_input(&mut app, Key::Char('U'));
    filtermode_input(&mut app, Key::Char('D'));
    filtermode_input(&mut app, Key::Char('\u{e9}'));
    filtermode_input(&mut app, Key::Down);
    assert_eq!(app.get_filter(), "UD");
    filtermode_input(&mut app, Key::Char('\u{7f}'));
    assert_eq!(app.get_filter(), "UD\u{7f}");
    filtermode_input(&mut app, Key::Backspace);
    filtermode_input(&mut app, Key::Backspace);
    assert_eq!(app.get_filter(), "U");
    filtermode_input(&mut app, Key::Backspace);
    filtermode_input(&mut app, Key::Backspace);
    assert_eq!(app.get_filter(), "");
}

#[test]
fn keys_in_the_detail_view_do_nothing() {
    let mut app = twenty();
    app.next();
    viewmode_input(&mut app, Key::Down);
    viewmode_input(&mut app, Key::Left);
    viewmode_input(&mut app, Key::Char('a'));
    assert_eq!(app.get_select(), Some(19));
    assert_eq!(app.get_filter(), "");
}

#[test]
fn a_key_goes_to_the_pane_that_has_the_keys() {
    let mut app = twenty();
    key_input(&mut app, Key::Down);
    assert_eq!(app.get_select(), Some(19));
    key_input(&mut app, Key::Tab);
    assert!(matches!(app.get_input_mode(), InputMode::View));
    key_input(&mut app, Key::Up);
    assert_eq!(app.get_select(), Some(19));
    key_input(&mut app, Key::Tab);
    assert!(matches!(app.get_input_mode(), InputMode::Filter));
    key_input(&mut app, Key::Char('U'));
    key_input(&mut app, Key::Up);
    assert_eq!(app.get_filter(), "U");
    assert_eq!(app.get_select(), Some(19));
    key_input(&mut app, Key::Esc);
    assert!(!app.is_running());
    assert_eq!(app.get_filter(), "U");
}

#[test]
fn the_window_holds_still_while_nothing_changes() {
    let mut app = twenty();
    app.add_filter_str("UDP");
    for _ in 0..4 {
        app.previous();
    }
    for height in 0..13u16 {
        for start in [0usize, 1, 6, 7, 12, 19, 20, 1000, usize::MAX] {
            let mut offset = start;
            let first = app.get_view_list_index(height, &mut offset);
            let handed_back = offset;
            let second = app.get_view_list_index(height, &mut offset);
            assert_eq!(first, second);
            assert_eq!(offset, handed_back);
        }
    }
}

#[test]
fn an_offset_beyond_the_list_is_lowered_to_the_selection() {
    let mut app = twenty();
    app.add_filter_str("UDP");
    app.previous();
    app.next();
    assert_eq!(app.get_select(), Some(3));
    let mut offset = usize::MAX;
    assert_eq!(
        app.get_view_list_index(4, &mut offset),
        (vec![3, 5, 7, 9], Some(0))
    );
    assert_eq!(offset, 3);
    app.unselect();
    let mut offset = usize::MAX;
    assert_eq!(
        app.get_view_list_index(2, &mut offset),
        (vec![17, 19], None)
    );
    assert_eq!(offset, usize::MAX);
}
