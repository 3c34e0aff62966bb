//! The window of a desktop shell: what a message from the page asks for, and
//! when the event loop ends.

use crate::text::same;
use vstd::prelude::*;

verus! {

/// The width of the window when it opens, in logical pixels.
pub const WIDTH: u32 = 1400;

/// The height of the window when it opens, in logical pixels.
pub const HEIGHT: u32 = 900;

/// What is to be done with the window.
#[derive(Clone, Copy, PartialEq, Eq, Structural, Debug)]
pub enum WindowCommand {
    EnterFullscreen,
    LeaveFullscreen,
    Quit,
    Nothing,
}

/// What the event loop has to tell.
#[derive(Clone, Copy, PartialEq, Eq, Structural, Debug)]
pub enum LoopEvent {
    /// The close button, or the system's own shortcut for it.
    CloseRequested,
    /// A request to quit that came from the page.
    QuitRequested,
    /// Anything else.
    Other,
}

/// What a message from the page asks for, where `fullscreen` says whether the
/// window fills the screen.
pub open spec fn command_of(message: Seq<char>, fullscreen: bool) -> WindowCommand {
    if message == "toggle-fullscreen"@ {
        if fullscreen {
            WindowCommand::LeaveFullscreen
        } else {
            WindowCommand::EnterFullscreen
        }
    } else if message == "escape"@ && fullscreen {
        WindowCommand::LeaveFullscreen
    } else if message == "quit"@ {
        WindowCommand::Quit
    } else {
        WindowCommand::Nothing
    }
}

/// Whether the window fills the screen after the command.
pub open spec fn fullscreen_after(fullscreen: bool, command: WindowCommand) -> bool {
    match command {
        WindowCommand::EnterFullscreen => true,
        WindowCommand::LeaveFullscreen => false,
        _ => fullscreen,
    }
}

/// Toggling changes the state, and toggling twice restores it.
pub proof fn lemma_toggle_is_its_own_inverse(fullscreen: bool)
    ensures
        ({
            let once = fullscreen_after(
                fullscreen,
                command_of("toggle-fullscreen"@, fullscreen),
            );
            once == !fullscreen && fullscreen_after(once, command_of("toggle-fullscreen"@, once))
                == fullscreen
        }),
{
}

/// After an escape the window never fills the screen, and an escape does not
/// quit.
pub proof fn lemma_escape_leaves_fullscreen(fullscreen: bool)
    ensures
        !fullscreen_after(fullscreen, command_of("escape"@, fullscreen)),
        command_of("escape"@, fullscreen) != WindowCommand::Quit,
{
    reveal_strlit("escape");
    reveal_strlit("quit");
    reveal_strlit("toggle-fullscreen");
    assert("escape"@.len() != "quit"@.len());
    assert("escape"@.len() != "toggle-fullscreen"@.len());
}

/// The window is asked to fill the screen only by toggling where it does not, to
/// stop filling it only by toggling or an escape where it does, and the shell is
/// asked to quit only by the message that says so.
pub proof fn lemma_what_messages_ask_for(message: Seq<char>, fullscreen: bool)
    ensures
        command_of(message, fullscreen) == WindowCommand::EnterFullscreen <==> !fullscreen
            && message == "toggle-fullscreen"@,
        command_of(message, fullscreen) == WindowCommand::LeaveFullscreen <==> fullscreen && (
        message == "toggle-fullscreen"@ || message == "escape"@),
        command_of(message, fullscreen) == WindowCommand::Quit <==> message == "quit"@,
{
    reveal_strlit("escape");
    reveal_strlit("quit");
    reveal_strlit("toggle-fullscreen");
    assert("escape"@.len() != "quit"@.len());
    assert("quit"@.len() != "toggle-fullscreen"@.len());
    assert("escape"@.len() != "toggle-fullscreen"@.len());
}

/// Only the two commands about the screen change whether the window fills it.
pub proof fn lemma_what_commands_do(fullscreen: bool)
    ensures
        fullscreen_after(fullscreen, WindowCommand::EnterFullscreen),
        !fullscreen_after(fullscreen, WindowCommand::LeaveFullscreen),
        fullscreen_after(fullscreen, WindowCommand::Quit) == fullscreen,
        fullscreen_after(fullscreen, WindowCommand::Nothing) == fullscreen,
{
}

/// A message other than the three known ones changes nothing.
pub proof fn lemma_unknown_messages_do_nothing(message: Seq<char>, fullscreen: bool)
    requires
        message != "toggle-fullscreen"@,
        message != "escape"@,
        message != "quit"@,
    ensures
        command_of(message, fullscreen) == WindowCommand::Nothing,
{
}

/// What a message from the page asks for.
pub fn ipc_command(message: &str, fullscreen: bool) -> (r: WindowCommand)
    ensures
        r == command_of(message@, fullscreen),
{
    if same(message, "toggle-fullscreen") {
        if fullscreen {
            WindowCommand::LeaveFullscreen
        } else {
            WindowCommand::EnterFullscreen
        }
    } else if same(message, "escape") && fullscreen {
        WindowCommand::LeaveFullscreen
    } else if same(message, "quit") {
        WindowCommand::Quit
    } else {
        WindowCommand::Nothing
    }
}

/// Whether the event loop ends.
pub fn ends_loop(event: LoopEvent) -> (r: bool)
    ensures
        r == (event is CloseRequested || event is QuitRequested),
{
    match event {
        LoopEvent::CloseRequested => true,
        LoopEvent::QuitRequested => true,
        LoopEvent::Other => false,
    }
}

/// The title of the window.
pub fn title() -> (r: &'static str)
    ensures
        r@ == "single-ion"@,
{
    "single-ion"
}

} // verus!
