//! What the keys do, stated over every modifier and every state: the arrow
//! keys move like `j` and `k`, every activation key activates, and in the
//! diff overlay the up and down keys scroll by one line.
use vstd::prelude::*;
use crate::controller::{diff_key_post, list_action_post, main_action, MainAction};
use crate::keys::{Key, KeyCode, CONTROL};
use crate::state::StateView;

verus! {

/// In the file list the arrow keys act like `j` and `k`, with any
/// modifiers: down moves the selection down, up moves it up.
pub proof fn law_arrow_keys_move_like_j_and_k(m: u8)
    ensures
        main_action(m, KeyCode::Up) == MainAction::MoveUp,
        main_action(m, KeyCode::Char('k')) == MainAction::MoveUp,
        main_action(m, KeyCode::Down) == MainAction::MoveDown,
        main_action(m, KeyCode::Char('j')) == MainAction::MoveDown,
{
}

/// Moving up selects the row above the selected one, and stays on the first
/// row; moving down selects the row below, and stays on the last row.
pub proof fn law_up_and_down_move_one_row(s: StateView, m: u8)
    requires
        s.selected < s.rows().len(),
        s.rows().len() <= usize::MAX,
    ensures
        list_action_post(s, main_action(m, KeyCode::Up)).selected == (if s.selected > 0 { s.selected - 1 } else { 0 }),
        list_action_post(s, main_action(m, KeyCode::Down)).selected
            == (if s.selected + 1 < s.rows().len() { s.selected + 1 } else { s.selected as int }),
        list_action_post(s, main_action(m, KeyCode::Up)).selected_row
            == Some(s.rows()[list_action_post(s, main_action(m, KeyCode::Up)).selected as int].key()),
        list_action_post(s, main_action(m, KeyCode::Down)).selected_row
            == Some(s.rows()[list_action_post(s, main_action(m, KeyCode::Down)).selected as int].key()),
{
}

/// Enter, `l`, the right arrow and Space activate the selected row with any
/// modifiers; `d` does so unless it is Ctrl-d (half a page down).
pub proof fn law_activation_keys(m: u8)
    ensures
        main_action(m, KeyCode::Enter) == MainAction::Primary,
        main_action(m, KeyCode::Char('l')) == MainAction::Primary,
        main_action(m, KeyCode::Right) == MainAction::Primary,
        main_action(m, KeyCode::Char(' ')) == MainAction::Primary,
        m != CONTROL ==> main_action(m, KeyCode::Char('d')) == MainAction::Primary,
        main_action(CONTROL, KeyCode::Char('d')) == MainAction::HalfPageDown,
{
}

/// In the diff overlay `k` and the up arrow scroll up one line, stopping at
/// the top; `j` and the down arrow scroll down one line. Nothing else
/// changes.
pub proof fn law_diff_overlay_scrolls_one_line(s: StateView, key: Key)
    ensures
        (key.code == KeyCode::Char('k') || key.code == KeyCode::Up) ==> diff_key_post(s, key) == (StateView {
            diff_scroll: if s.diff_scroll > 0 { (s.diff_scroll - 1) as usize } else { 0 },
            ..s
        }),
        (key.code == KeyCode::Char('j') || key.code == KeyCode::Down) ==> diff_key_post(s, key) == (StateView {
            diff_scroll: if s.diff_scroll < usize::MAX { (s.diff_scroll + 1) as usize } else { usize::MAX },
            ..s
        }),
{
}

} // verus!
