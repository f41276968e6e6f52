//! What each key does to the controller, pane by pane.

use crate::app::{App, AppView, InputMode};
use vstd::prelude::*;

verus! {

/// A key press, as far as the controller tells keys apart.
#[derive(Debug, Clone, Copy, PartialEq, Eq, Structural)]
pub enum Key {
    Tab,
    Esc,
    Left,
    Right,
    Up,
    Down,
    Backspace,
    Char(char),
    Other,
}

/// Whether a character is in the ASCII range.
pub open spec fn spec_is_ascii(c: char) -> bool {
    c as u32 <= 0x7f
}

/// What a key does whichever pane has the keys: the tabulator hands the
/// keys to the next pane, escape quits.
pub open spec fn spec_allmode_input(v: AppView, key: Key) -> AppView {
    match key {
        Key::Tab => v.spec_next_forcus(),
        Key::Esc => v.spec_exit(),
        _ => v,
    }
}

/// What a key does in the list: left gives up the selection, down and up
/// move it, right pins the selected packet.
pub open spec fn spec_listmode_input(v: AppView, key: Key) -> AppView {
    match key {
        Key::Left => v.spec_unselect(),
        Key::Down => v.spec_next(),
        Key::Up => v.spec_previous(),
        Key::Right => v.spec_to_view(),
        _ => v,
    }
}

/// What a key does in the filter line: backspace takes the last character
/// away, an ASCII character is appended.
pub open spec fn spec_filtermode_input(v: AppView, key: Key) -> AppView {
    match key {
        Key::Backspace => v.spec_delete_filter_char(),
        Key::Char(c) => if spec_is_ascii(c) {
            v.spec_add_filter_str(seq![c])
        } else {
            v
        },
        _ => v,
    }
}

/// What a key does in all: first what it does in every pane, then what it
/// does in the pane that has the keys after that.
pub open spec fn spec_key_input(v: AppView, key: Key) -> AppView {
    let w = spec_allmode_input(v, key);
    match w.input_mode {
        InputMode::List => spec_listmode_input(w, key),
        InputMode::View => w,
        InputMode::Filter => spec_filtermode_input(w, key),
    }
}

/// Handles a key that means the same in every pane.
pub fn allmode_input(app: &mut App, keycode: Key)
    ensures
        final(app)@ == spec_allmode_input(old(app)@, keycode),
{
    if let Key::Tab = keycode {
        app.next_forcus();
    }
    if let Key::Esc = keycode {
        app.exit();
    }
}

/// Handles a key in the detail view, where no key does anything.
pub fn viewmode_input(_app: &mut App, _keycode: Key)
    ensures
        final(_app)@ == old(_app)@,
{
}

/// Handles a key in the list.
pub fn listmode_input(app: &mut App, keycode: Key)
    ensures
        final(app)@ == spec_listmode_input(old(app)@, keycode),
{
    match keycode {
        Key::Left => {
            app.unselect();
        },
        Key::Down => {
            app.next();
        },
        Key::Up => {
            app.previous();
        },
        Key::Right => {
            app.to_view();
        },
        _ => {},
    }
}

/// Handles a key in the filter line.
pub fn filtermode_input(app: &mut App, keycode: Key)
    ensures
        final(app)@ == spec_filtermode_input(old(app)@, keycode),
{
    if let Key::Backspace = keycode {
        app.delete_filter_char();
        return ;
    }
    let key_char = if let Key::Char(x) = keycode {
        x
    } else {
        return ;
    };
    if key_char as u32 > 0x7f {
        return ;
    }
    let mut st = String::new();
    st.push(key_char);
    app.add_filter_str(st.as_str());
}

/// Handles one key press: the keys that mean the same everywhere first,
/// then the pane that has the keys.
pub fn key_input(app: &mut App, keycode: Key)
    ensures
        final(app)@ == spec_key_input(old(app)@, keycode),
{
    allmode_input(app, keycode);
    match app.get_input_mode() {
        InputMode::List => listmode_input(app, keycode),
        InputMode::View => viewmode_input(app, keycode),
        InputMode::Filter => filtermode_input(app, keycode),
    }
}

} // verus!
