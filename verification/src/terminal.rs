//! What the keys do in the menu, the friend picker, the prompts and the
//! notices, and where text and cursor go.

use vstd::prelude::*;
use crate::failure::Failure;

verus! {

/// The keys that mean something.
#[derive(Clone, Copy, Debug, PartialEq, Eq, Structural)]
pub enum Key {
    Char(char),
    Enter,
    Esc,
    Backspace,
    Up,
    Down,
    Other,
}

/// How a key changed.
#[derive(Clone, Copy, Debug, PartialEq, Eq, Structural)]
pub enum KeyKind {
    Press,
    Repeat,
    Release,
}

/// What the terminal reports.
#[derive(Clone, Copy, Debug, PartialEq, Eq, Structural)]
pub enum TerminalEvent {
    Key(KeyKind, Key),
    Other,
}

impl TerminalEvent {
    /// The key that was pressed, if this is a key press.
    pub open spec fn press(&self) -> Option<Key> {
        match *self {
            TerminalEvent::Key(KeyKind::Press, key) => Some(key),
            _ => None,
        }
    }

    /// The key that was pressed, if this is a key press.
    pub fn pressed(&self) -> (key: Option<Key>)
        ensures
            key == self.press(),
    {
        match *self {
            TerminalEvent::Key(KeyKind::Press, key) => Some(key),
            _ => None,
        }
    }
}

/// How many lines the menu has.
pub const MENU_SIZE: usize = 4;

/// What the user can ask for in the menu.
#[derive(Clone, Copy, Debug, PartialEq, Eq, Structural)]
pub enum MenuAction {
    GenerateInvite,
    Join,
    Talk,
    Exit,
}

/// What a line of the menu stands for.
pub open spec fn menu_line(line: usize) -> MenuAction {
    if line == 0 {
        MenuAction::GenerateInvite
    } else if line == 1 {
        MenuAction::Join
    } else if line == 2 {
        MenuAction::Talk
    } else {
        MenuAction::Exit
    }
}

/// What comes of an event in a list.
#[derive(Clone, Copy, Debug, PartialEq, Eq, Structural)]
pub enum ListStep {
    /// This line is selected now.
    Select(usize),
    /// The user chose this line.
    Choose(usize),
    /// The user left the list.
    Leave,
}

/// What an event does in a list of `count` lines of which `selected` is
/// selected: the arrows, or `j` and `k`, move the selection and stop at the
/// ends.
pub open spec fn list_outcome(selected: usize, count: usize, event: TerminalEvent) -> ListStep {
    match event.press() {
        Some(Key::Char('q')) | Some(Key::Esc) => ListStep::Leave,
        Some(Key::Up) | Some(Key::Char('k')) => ListStep::Select(
            if selected == 0 {
                0
            } else {
                (selected - 1) as usize
            },
        ),
        Some(Key::Down) | Some(Key::Char('j')) => ListStep::Select(
            if selected + 1 < count {
                (selected + 1) as usize
            } else {
                (count - 1) as usize
            },
        ),
        Some(Key::Enter) => ListStep::Choose(selected),
        _ => ListStep::Select(selected),
    }
}

/// What an event does in a list.
pub fn list_step(selected: usize, count: usize, event: TerminalEvent) -> (step: ListStep)
    requires
        selected < count,
    ensures
        step == list_outcome(selected, count, event),
{
    match event.pressed() {
        Some(Key::Char('q')) | Some(Key::Esc) => ListStep::Leave,
        Some(Key::Up) | Some(Key::Char('k')) => ListStep::Select(selected.saturating_sub(1)),
        Some(Key::Down) | Some(Key::Char('j')) => {
            if selected + 1 < count {
                ListStep::Select(selected + 1)
            } else {
                ListStep::Select(count - 1)
            }
        },
        Some(Key::Enter) => ListStep::Choose(selected),
        _ => ListStep::Select(selected),
    }
}

/// The selection never leaves the list.
pub proof fn selection_stays_in_list(selected: usize, count: usize, event: TerminalEvent)
    requires
        selected < count,
    ensures
        match list_outcome(selected, count, event) {
            ListStep::Select(line) | ListStep::Choose(line) => line < count,
            ListStep::Leave => true,
        },
{
}

/// What comes of an event in the menu.
#[derive(Clone, Copy, Debug, PartialEq, Eq, Structural)]
pub enum MenuStep {
    /// This line is selected now.
    Select(usize),
    /// The user asked for this.
    Act(MenuAction),
}

/// What an event does in the menu. Leaving the menu is the same as choosing to
/// exit.
pub fn main_menu(selected: usize, event: TerminalEvent) -> (step: MenuStep)
    requires
        selected < MENU_SIZE,
    ensures
        step == match list_outcome(selected, MENU_SIZE, event) {
            ListStep::Select(line) => MenuStep::Select(line),
            ListStep::Choose(line) => MenuStep::Act(menu_line(line)),
            ListStep::Leave => MenuStep::Act(MenuAction::Exit),
        },
{
    match list_step(selected, MENU_SIZE, event) {
        ListStep::Select(line) => MenuStep::Select(line),
        ListStep::Choose(line) => MenuStep::Act(
            match line {
                0 => MenuAction::GenerateInvite,
                1 => MenuAction::Join,
                2 => MenuAction::Talk,
                _ => MenuAction::Exit,
            },
        ),
        ListStep::Leave => MenuStep::Act(MenuAction::Exit),
    }
}

/// The line that is selected when the friend picker opens; it does not open
/// where there are no friends.
pub fn select_friend(friends: usize) -> (selected: Result<usize, Failure>)
    ensures
        selected == (if friends == 0 {
            Err::<usize, Failure>(Failure::NoFriends)
        } else {
            Ok::<usize, Failure>(0)
        }),
{
    if friends == 0 {
        Err(Failure::NoFriends)
    } else {
        Ok(0)
    }
}

/// What comes of an event in a prompt.
#[derive(Clone, Copy, Debug, PartialEq, Eq, Structural)]
pub enum PromptStep {
    /// The user is still typing.
    Edit,
    /// The text is complete.
    Submit,
    /// The user left the prompt.
    Cancel,
}

/// A text after a key: a character is added at the end, Backspace takes the
/// last one away.
pub open spec fn edited(value: Seq<char>, event: TerminalEvent) -> Seq<char> {
    match event.press() {
        Some(Key::Char(character)) => value.push(character),
        Some(Key::Backspace) => if value.len() == 0 {
            value
        } else {
            value.drop_last()
        },
        _ => value,
    }
}

/// What an event does in a prompt.
pub fn prompt_text(value: &mut String, event: TerminalEvent) -> (step: PromptStep)
    ensures
        final(value)@ == edited(old(value)@, event),
        step == match event.press() {
            Some(Key::Esc) => PromptStep::Cancel,
            Some(Key::Enter) => PromptStep::Submit,
            _ => PromptStep::Edit,
        },
{
    match event.pressed() {
        Some(Key::Esc) => PromptStep::Cancel,
        Some(Key::Enter) => PromptStep::Submit,
        Some(Key::Backspace) => {
            let _ = value.pop();
            PromptStep::Edit
        },
        Some(Key::Char(character)) => {
            value.push(character);
            PromptStep::Edit
        },
        _ => PromptStep::Edit,
    }
}

/// Backspace takes back the character that was typed last.
pub proof fn backspace_undoes_typing(value: Seq<char>, character: char)
    ensures
        edited(
            edited(value, TerminalEvent::Key(KeyKind::Press, Key::Char(character))),
            TerminalEvent::Key(KeyKind::Press, Key::Backspace),
        ) == value,
{
    assert(value.push(character).drop_last() =~= value);
}

/// Whether an event closes a notice.
pub fn show_message(event: TerminalEvent) -> (closes: bool)
    ensures
        closes == (event.press() == Some(Key::Enter) || event.press() == Some(Key::Esc)
            || event.press() == Some(Key::Char('q'))),
{
    match event.pressed() {
        Some(Key::Enter) | Some(Key::Esc) | Some(Key::Char('q')) => true,
        _ => false,
    }
}

/// What a prompt shows of a text: a secret one is shown as that many dots.
pub open spec fn shown_text(value: Seq<char>, mask: bool) -> Seq<char> {
    if mask {
        Seq::new(value.len(), |i: int| '•')
    } else {
        value
    }
}

/// What a prompt shows of a text.
pub fn displayed(value: &str, mask: bool) -> (shown: String)
    ensures
        shown@ == shown_text(value@, mask),
{
    if !mask {
        return value.to_owned();
    }
    let count: usize = value.unicode_len();
    let mut shown: String = String::new();
    let mut done: usize = 0;
    while done < count
        invariant
            done <= count,
            shown@ == Seq::new(done as nat, |i: int| '•'),
        decreases count - done,
    {
        shown.push('•');
        done += 1;
        assert(shown@ =~= Seq::new(done as nat, |i: int| '•'));
    }
    shown
}

/// The sixteen bits that a count keeps on its way to a screen coordinate.
fn screen_count(count: usize) -> (coordinate: u16)
    ensures
        coordinate == count % 65536,
{
    let kept: usize = count % 65536;
    kept as u16
}

/// The column of the cursor behind a text of `count` characters in a bordered
/// field; of the count only sixteen bits are kept.
pub open spec fn cursor_place(left: int, count: int, right: int) -> int {
    let column = left + 1 + count % 65536;
    let border = if right == 0 {
        0
    } else {
        right - 1
    };
    if column < border {
        column
    } else {
        border
    }
}

/// How many lines of a chat are scrolled away, kept to sixteen bits.
pub open spec fn scroll_place(messages: int, height: int) -> int {
    let visible = if height < 2 {
        0
    } else {
        height - 2
    };
    (if messages < visible {
        0
    } else {
        messages - visible
    }) % 65536
}

/// The column of the cursor behind a text of `count` characters in a bordered
/// field that starts at column `left` and ends before column `right`: it
/// stops at the border.
pub fn cursor_column(left: u16, count: usize, right: u16) -> (column: u16)
    requires
        left + 1 + count % 65536 <= u16::MAX,
    ensures
        column == (if left + 1 + count % 65536 < right - 1 {
            left + 1 + count % 65536
        } else if right == 0 {
            0
        } else {
            right - 1
        }),
        column == cursor_place(left as int, count as int, right as int),
{
    let column: u16 = left + 1 + screen_count(count);
    let border: u16 = right.saturating_sub(1);
    if column < border {
        column
    } else {
        border
    }
}

/// How many lines of a chat are scrolled away so that the last ones stand in a
/// bordered field of this height.
pub fn scrolled_lines(messages: usize, height: u16) -> (scroll: u16)
    ensures
        scroll == (if height <= 2 {
            messages as int
        } else if messages <= height - 2 {
            0
        } else {
            messages - (height - 2)
        }) % 65536,
        scroll == scroll_place(messages as int, height as int),
{
    let visible: usize = height.saturating_sub(2) as usize;
    screen_count(messages.saturating_sub(visible))
}

/// Only the press of a key counts, and it counts for every key.
pub proof fn only_presses_count(event: TerminalEvent, key: Key)
    ensures
        event.press() == Some(key) <==> event == TerminalEvent::Key(KeyKind::Press, key),
{
}

/// In a list of any length, Down or `j` selects the next line, and on the last
/// line stays.
pub proof fn down_selects_the_next_line(selected: usize, count: usize, key: Key)
    requires
        selected < count,
        key == Key::Down || key == Key::Char('j'),
    ensures
        ({
            let step = list_outcome(selected, count, TerminalEvent::Key(KeyKind::Press, key));
            &&& step is Select
            &&& selected + 1 < count ==> step->Select_0 == selected + 1
            &&& selected + 1 == count ==> step->Select_0 == selected
        }),
{
}

/// In a list of any length, Up or `k` selects the line before, and on the first
/// line stays.
pub proof fn up_selects_the_line_before(selected: usize, count: usize, key: Key)
    requires
        selected < count,
        key == Key::Up || key == Key::Char('k'),
    ensures
        ({
            let step = list_outcome(selected, count, TerminalEvent::Key(KeyKind::Press, key));
            &&& step is Select
            &&& selected > 0 ==> step->Select_0 == selected - 1
            &&& selected == 0 ==> step->Select_0 == 0
        }),
{
}

/// Up undoes Down off the last line, and Down undoes Up off the first.
pub proof fn up_and_down_undo_each_other(selected: usize, count: usize)
    requires
        selected < count,
    ensures
        ({
            let up = TerminalEvent::Key(KeyKind::Press, Key::Up);
            let down = TerminalEvent::Key(KeyKind::Press, Key::Down);
            &&& selected + 1 < count ==> list_outcome(
                list_outcome(selected, count, down)->Select_0,
                count,
                up,
            ) == ListStep::Select(selected)
            &&& selected > 0 ==> list_outcome(
                list_outcome(selected, count, up)->Select_0,
                count,
                down,
            ) == ListStep::Select(selected)
        }),
{
}

/// The line that is selected after Down was pressed `times` times, from the
/// first line on.
pub open spec fn line_after_downs(count: usize, times: nat) -> usize
    decreases times,
{
    if times == 0 {
        0
    } else {
        list_outcome(
            line_after_downs(count, (times - 1) as nat),
            count,
            TerminalEvent::Key(KeyKind::Press, Key::Down),
        )->Select_0
    }
}

/// Every line of a list is reached from the first by pressing Down that many
/// times.
pub proof fn every_line_is_reached(line: usize, count: usize)
    requires
        line < count,
    ensures
        line_after_downs(count, line as nat) == line,
    decreases line,
{
    if line > 0 {
        every_line_is_reached((line - 1) as usize, count);
    }
}

/// Enter chooses the selected line, Esc and `q` leave the list, and whatever
/// else is reported than the keys of a list changes nothing.
pub proof fn lists_answer_to_their_keys_only(
    selected: usize,
    count: usize,
    event: TerminalEvent,
)
    requires
        selected < count,
    ensures
        list_outcome(selected, count, event) is Choose <==> event == TerminalEvent::Key(
            KeyKind::Press,
            Key::Enter,
        ),
        list_outcome(selected, count, event) is Choose ==> list_outcome(
            selected,
            count,
            event,
        )->Choose_0 == selected,
        list_outcome(selected, count, event) is Leave <==> event == TerminalEvent::Key(
            KeyKind::Press,
            Key::Esc,
        ) || event == TerminalEvent::Key(KeyKind::Press, Key::Char('q')),
        list_outcome(selected, count, event) is Select && list_outcome(
            selected,
            count,
            event,
        )->Select_0 != selected ==> event == TerminalEvent::Key(KeyKind::Press, Key::Up) || event
            == TerminalEvent::Key(KeyKind::Press, Key::Char('k')) || event == TerminalEvent::Key(
            KeyKind::Press,
            Key::Down,
        ) || event == TerminalEvent::Key(KeyKind::Press, Key::Char('j')),
{
}

/// Each line of the menu stands for an action of its own, in the order in which
/// they are shown.
pub proof fn menu_lines_stand_for_their_actions(line: usize, other: usize)
    requires
        line < 4,
        other < 4,
    ensures
        menu_line(line) == menu_line(other) ==> line == other,
        menu_line(line) is GenerateInvite <==> line == 0,
        menu_line(line) is Join <==> line == 1,
        menu_line(line) is Talk <==> line == 2,
        menu_line(line) is Exit <==> line == 3,
        MENU_SIZE == 4,
{
}

/// What a text becomes when these characters are typed behind it.
pub open spec fn typed(value: Seq<char>, characters: Seq<char>) -> Seq<char>
    decreases characters.len(),
{
    if characters.len() == 0 {
        value
    } else {
        edited(
            typed(value, characters.drop_last()),
            TerminalEvent::Key(KeyKind::Press, Key::Char(characters.last())),
        )
    }
}

/// Whatever is typed stands in the text, character by character, whichever
/// characters and however many they are.
pub proof fn typing_keeps_every_character(value: Seq<char>, characters: Seq<char>)
    ensures
        typed(value, characters) == value + characters,
    decreases characters.len(),
{
    if characters.len() > 0 {
        typing_keeps_every_character(value, characters.drop_last());
        assert(value + characters =~= (value + characters.drop_last()).push(characters.last()));
    } else {
        assert(value + characters =~= value);
    }
}

/// Backspace shortens a text by its last character and leaves an empty one
/// alone; nothing but characters and Backspace changes a text.
pub proof fn texts_change_by_characters_only(value: Seq<char>, event: TerminalEvent)
    ensures
        event == TerminalEvent::Key(KeyKind::Press, Key::Backspace) && value.len() > 0 ==> edited(
            value,
            event,
        ).len() == value.len() - 1 && edited(value, event).is_prefix_of(value),
        event == TerminalEvent::Key(KeyKind::Press, Key::Backspace) && value.len() == 0 ==> edited(
            value,
            event,
        ) == value,
        edited(value, event) != value ==> event.press() == Some(Key::Backspace) || (
        event.press() is Some && event.press()->0 is Char),
{
}

/// A secret text shows its length and nothing else; any other text is shown as
/// it is.
pub proof fn secrets_show_their_length_only(value: Seq<char>, other: Seq<char>)
    ensures
        shown_text(value, false) == value,
        shown_text(value, true).len() == value.len(),
        forall|i: int| 0 <= i < value.len() ==> #[trigger] shown_text(value, true)[i] == '•',
        value.len() == other.len() ==> shown_text(value, true) == shown_text(other, true),
{
    if value.len() == other.len() {
        assert(shown_text(value, true) =~= shown_text(other, true));
    }
}

/// The cursor starts one column into the field, moves on by one column with
/// every character, and stops before the border.
pub proof fn the_cursor_follows_the_text(left: int, count: int, right: int)
    requires
        0 <= left,
        0 <= count < 65535,
        0 < right,
    ensures
        cursor_place(left, 0, right) == if left + 1 < right {
            left + 1
        } else {
            right - 1
        },
        cursor_place(left, count + 1, right) == if cursor_place(left, count, right) + 1 < right {
            cursor_place(left, count, right) + 1
        } else {
            right - 1
        },
{
}

/// Of a chat with fewer lines than a screen coordinate can count, exactly as
/// many of the last lines stay as the field inside its borders can show.
pub proof fn the_last_lines_stay(messages: int, height: int)
    requires
        0 <= messages < 65536,
        2 <= height,
    ensures
        0 <= scroll_place(messages, height) <= messages,
        messages - scroll_place(messages, height) == if messages < height - 2 {
            messages
        } else {
            height - 2
        },
{
}

/// In the menu, choosing a line acts on that line and leaving the menu exits;
/// in a list of friends the same keys move, choose and leave.
pub proof fn menu_and_lists_move_alike(
    selected: usize,
    count: usize,
    event: TerminalEvent,
    step: ListStep,
    in_menu: MenuStep,
)
    requires
        selected < 4,
        selected < count,
        call_ensures(list_step, (selected, count, event), step),
        call_ensures(main_menu, (selected, event), in_menu),
    ensures
        event.press() == Some(Key::Down) ==> step == ListStep::Select(
            if selected + 1 < count {
                (selected + 1) as usize
            } else {
                selected
            },
        ) && in_menu == MenuStep::Select(
            if selected < 3 {
                (selected + 1) as usize
            } else {
                3
            },
        ),
        event.press() == Some(Key::Up) ==> step == ListStep::Select(
            if selected > 0 {
                (selected - 1) as usize
            } else {
                0
            },
        ) && in_menu == MenuStep::Select(step->Select_0),
        step is Choose <==> event.press() == Some(Key::Enter),
        step is Choose ==> step->Choose_0 == selected && in_menu == MenuStep::Act(
            menu_line(selected),
        ),
        step is Leave ==> in_menu == MenuStep::Act(MenuAction::Exit),
{
}

/// A list of friends opens on its first line exactly where there are friends,
/// however many.
pub proof fn lists_open_where_there_are_friends(friends: usize, selected: Result<usize, Failure>)
    requires
        call_ensures(select_friend, (friends,), selected),
    ensures
        selected is Ok <==> friends > 0,
        selected is Ok ==> selected->Ok_0 == 0,
        selected is Err ==> selected->Err_0 is NoFriends,
{
}

/// A notice is closed by Enter, Esc and `q`, and by nothing else.
pub proof fn notices_close_on_three_keys(event: TerminalEvent, closes: bool)
    requires
        call_ensures(show_message, (event,), closes),
    ensures
        closes <==> event == TerminalEvent::Key(KeyKind::Press, Key::Enter) || event
            == TerminalEvent::Key(KeyKind::Press, Key::Esc) || event == TerminalEvent::Key(
            KeyKind::Press,
            Key::Char('q'),
        ),
{
}

/// However long the text and wide the field, the cursor stands inside the
/// field, and one character more never moves it back.
pub proof fn cursors_stay_in_their_field(
    left: u16,
    count: usize,
    right: u16,
    column: u16,
    next: u16,
)
    requires
        left + 1 < right,
        count < 65535,
        call_ensures(cursor_column, (left, count, right), column),
        call_ensures(cursor_column, (left, (count + 1) as usize, right), next),
    ensures
        left < column < right,
        column <= next <= column + 1,
        next == column <==> column == right - 1,
{
}

} // verus!
