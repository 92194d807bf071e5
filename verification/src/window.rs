//! Windows as the compositor reports them and as the overlay sees them.

use vstd::prelude::*;
use vstd::std_specs::cmp::PartialEqSpecImpl;
use vstd::std_specs::convert::FromSpecImpl;

verus! {

/// The compositor's handle for a window. Its text is never interpreted; two
/// addresses are the same window exactly when their texts are equal.
#[derive(Debug, Eq, Hash)]
pub struct Address {
    text: String,
}

impl View for Address {
    type V = Seq<char>;

    closed spec fn view(&self) -> Seq<char> {
        self.text@
    }
}

impl Address {
    /// Wraps the text of a compositor address.
    pub fn new(text: String) -> (a: Address)
        ensures
            a@ == text@,
    {
        Address { text }
    }

    /// The address text, as it was given to `new`.
    pub fn as_str(&self) -> (s: &str)
        ensures
            s@ == self@,
    {
        self.text.as_str()
    }
}

impl Clone for Address {
    fn clone(&self) -> (a: Address)
        ensures
            a == *self,
    {
        Address { text: self.text.clone() }
    }
}

impl PartialEq for Address {
    fn eq(&self, other: &Address) -> (r: bool) {
        self.text == other.text
    }
}

impl PartialEqSpecImpl for Address {
    open spec fn obeys_eq_spec() -> bool {
        true
    }

    open spec fn eq_spec(&self, other: &Address) -> bool {
        self@ == other@
    }
}

/// How far a window is blown up beyond its tiled size.
#[derive(Debug, Clone, Copy, PartialEq, Eq, Structural)]
pub enum FullscreenMode {
    /// Neither maximized nor fullscreen.
    Normal,
    /// The window fills its workspace; bars and gaps stay.
    Maximized,
    /// The window fills the whole screen.
    Fullscreen,
    /// The window is maximized and fullscreen at once.
    MaximizedFullscreen,
}

/// One entry of the compositor's client list, reduced to the fields the
/// overlay reads.
#[derive(Debug, PartialEq, Eq)]
pub struct Client {
    /// The handle of the window.
    pub address: Address,
    /// Screen position of the top-left corner, in pixels.
    pub at: (i16, i16),
    /// Width and height, in pixels.
    pub size: (i16, i16),
    /// The id of the workspace the window sits on.
    pub workspace: i32,
    /// The fullscreen mode the window is in.
    pub fullscreen: FullscreenMode,
    /// The window title.
    pub title: String,
    /// The addresses of the tabbed group the window sits in; empty or of
    /// length one for a window that is alone.
    pub grouped: Vec<Address>,
    /// Rank in the focus history; 0 is the window that has focus now.
    pub focus_history_id: i8,
}

/// One window of a snapshot.
#[derive(Debug, PartialEq, Eq)]
pub struct Window {
    /// The id of the workspace the window sits on.
    pub workspace: i32,
    /// The window title.
    pub title: String,
    /// The addresses of the tabbed group this window sits in, itself included.
    pub grouped: Vec<Address>,
    /// The handle by which the compositor is told to focus the window.
    pub address: Address,
    /// Screen position of the top-left corner, in pixels.
    pub position: (i32, i32),
    /// Width and height, in pixels.
    pub size: (i32, i32),
    /// Whether this is the most recently focused window.
    pub is_current: bool,
}

/// No two windows of a snapshot share an address. The compositor hands out
/// each address once, so every snapshot it reports is of this kind.
pub open spec fn addresses_distinct(windows: Seq<Window>) -> bool {
    forall|i: int, j: int|
        0 <= i < j < windows.len() ==> (#[trigger] windows[i]).address@
            != (#[trigger] windows[j]).address@
}

impl Clone for Client {
    fn clone(&self) -> (c: Client)
        ensures
            c.address == self.address,
            c.at == self.at,
            c.size == self.size,
            c.workspace == self.workspace,
            c.fullscreen == self.fullscreen,
            c.title == self.title,
            c.grouped@ == self.grouped@,
            c.focus_history_id == self.focus_history_id,
    {
        Client {
            address: self.address.clone(),
            at: (self.at.0, self.at.1),
            size: (self.size.0, self.size.1),
            workspace: self.workspace,
            fullscreen: self.fullscreen,
            title: self.title.clone(),
            grouped: self.grouped.clone(),
            focus_history_id: self.focus_history_id,
        }
    }
}

impl Clone for Window {
    fn clone(&self) -> (w: Window)
        ensures
            w.workspace == self.workspace,
            w.title == self.title,
            w.grouped@ == self.grouped@,
            w.address == self.address,
            w.position == self.position,
            w.size == self.size,
            w.is_current == self.is_current,
    {
        Window {
            workspace: self.workspace,
            title: self.title.clone(),
            grouped: self.grouped.clone(),
            address: self.address.clone(),
            position: (self.position.0, self.position.1),
            size: (self.size.0, self.size.1),
            is_current: self.is_current,
        }
    }
}

/// The window that a client of the compositor is shown as. It is the current
/// window exactly when it leads the focus history.
pub open spec fn window_of(client: Client) -> Window {
    Window {
        workspace: client.workspace,
        title: client.title,
        grouped: client.grouped,
        address: client.address,
        position: (client.at.0 as i32, client.at.1 as i32),
        size: (client.size.0 as i32, client.size.1 as i32),
        is_current: client.focus_history_id == 0,
    }
}

impl From<Client> for Window {
    fn from(client: Client) -> (w: Window) {
        Window {
            workspace: client.workspace,
            title: client.title,
            grouped: client.grouped,
            address: client.address,
            position: (client.at.0 as i32, client.at.1 as i32),
            size: (client.size.0 as i32, client.size.1 as i32),
            is_current: client.focus_history_id == 0,
        }
    }
}

impl FromSpecImpl<Client> for Window {
    open spec fn obeys_from_spec() -> bool {
        true
    }

    open spec fn from_spec(client: Client) -> Window {
        window_of(client)
    }
}

} // verus!
