//! A window that shows frames: its title, and what it does on messages.
use vstd::prelude::*;

verus! {

/// Message that a window is about to go away.
pub const MESSAGE_DESTROY: u32 = 0x0002;

/// Message that a window has another size.
pub const MESSAGE_SIZE: u32 = 0x0005;

/// Message that a window must be drawn.
pub const MESSAGE_PAINT: u32 = 0x000f;

/// Message that a key is pressed.
pub const MESSAGE_KEY_DOWN: u32 = 0x0100;

/// In the message of another size: The window is minimized.
pub const SIZE_MINIMIZED: u32 = 1;

/// In the message of a key: The escape key.
pub const KEY_ESCAPE: u16 = 0x1b;

/// What a window does on a message.
#[derive(Clone, Copy, Debug, Eq, Hash, PartialEq, Structural)]
pub enum WindowAction {
    /// Run one frame.
    Paint,
    /// Fit the images to the window.
    Resize,
    /// End the main loop.
    Quit,
    /// Nothing.
    Ignore,
    /// Whatever windows do.
    Default,
}

/// What a window does on a message. The lowest bits of the parameter tell the key or the kind of
/// size.
pub open spec fn window_action(message: u32, parameter: u64) -> WindowAction {
    if message == MESSAGE_PAINT {
        WindowAction::Paint
    } else if message == MESSAGE_SIZE {
        if parameter % 0x1_0000_0000 == SIZE_MINIMIZED {
            WindowAction::Ignore
        } else {
            WindowAction::Resize
        }
    } else if message == MESSAGE_DESTROY || (message == MESSAGE_KEY_DOWN && parameter % 0x1_0000
        == KEY_ESCAPE) {
        WindowAction::Quit
    } else {
        WindowAction::Default
    }
}

/// A window paints on each message to paint, and quits when it is about to go away or when the
/// escape key is pressed. It fits its images on each message of another size, unless it is
/// minimized. All other messages are left to the default.
pub proof fn lemma_window_action(message: u32, parameter: u64)
    ensures
        window_action(message, parameter) is Paint <==> message == 0x0f,
        window_action(message, parameter) is Quit <==> message == 0x02 || (message == 0x0100
            && parameter % 0x1_0000 == 0x1b),
        window_action(message, parameter) is Resize <==> message == 0x05 && parameter
            % 0x1_0000_0000 != 1,
        window_action(message, parameter) is Ignore <==> message == 0x05 && parameter
            % 0x1_0000_0000 == 1,
{
}

/// What a window does on a message.
pub fn get_window_action(message: u32, parameter: u64) -> (action: WindowAction)
    ensures
        action == window_action(message, parameter),
{
    match message {
        MESSAGE_PAINT => WindowAction::Paint,
        MESSAGE_SIZE => if parameter % 0x1_0000_0000 == SIZE_MINIMIZED as u64 {
            WindowAction::Ignore
        } else {
            WindowAction::Resize
        },
        MESSAGE_KEY_DOWN => if parameter % 0x1_0000 == KEY_ESCAPE as u64 {
            WindowAction::Quit
        } else {
            WindowAction::Default
        },
        MESSAGE_DESTROY => WindowAction::Quit,
        _ => WindowAction::Default,
    }
}

/// Whether there is anything to draw on in a window with these edges.
pub fn has_area(left: i32, top: i32, right: i32, bottom: i32) -> (area: bool)
    ensures
        area <==> right - left != 0 && bottom - top != 0,
{
    right != left && bottom != top
}

/// The title of a window that runs a script.
pub open spec fn window_title(file: Option<Seq<char>>) -> Seq<char> {
    match file {
        Some(name) => "smoldr "@ + name,
        None => "smoldr"@,
    }
}

/// The title is the name of the program, and the name of the script behind a space if there is one.
pub proof fn lemma_window_title(file: Option<Seq<char>>)
    ensures
        ({
            let title = window_title(file);
            &&& title.take(6) == seq!['s', 'm', 'o', 'l', 'd', 'r']
            &&& file matches Some(name) ==> title[6] == ' ' && title.skip(7) == name
            &&& file is None ==> title.len() == 6
        }),
{
    reveal_strlit("smoldr ");
    reveal_strlit("smoldr");
    let title = window_title(file);
    assert(title.take(6) =~= seq!['s', 'm', 'o', 'l', 'd', 'r']);
    if let Some(name) = file {
        assert(title.skip(7) =~= name);
    }
}

/// The title of a window that runs a script.
pub fn get_window_title(file: &Option<String>) -> (title: String)
    ensures
        title@ == window_title(file.deep_view()),
{
    match file {
        Some(name) => {
            let mut title = String::from_str("smoldr ");
            title.append(name.as_str());
            title
        },
        None => String::from_str("smoldr"),
    }
}

} // verus!
