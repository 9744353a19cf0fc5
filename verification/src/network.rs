//! Network reachability as the system's network manager reports it.

use vstd::prelude::*;
use vstd::string::*;

verus! {

/// The bus name under which the network manager answers on the system bus.
pub const MANAGER_NAME: &'static str = "org.freedesktop.NetworkManager";

/// The path of the manager's object.
pub const MANAGER_PATH: &'static str = "/org/freedesktop/NetworkManager";

/// The interface that holds the manager's properties.
pub const MANAGER_INTERFACE: &'static str = "org.freedesktop.NetworkManager";

/// The property that holds the connectivity class as a number.
pub const CONNECTIVITY_PROPERTY: &'static str = "Connectivity";

/// The connectivity class of the machine.
#[derive(Debug, Clone, Copy, PartialEq, Eq, Structural)]
pub enum Connectivity {
    Full,
    Limited,
    Portal,
    Disconnected,
    Unknown,
}

impl Connectivity {
    /// The class that the manager's numeric `Connectivity` property stands for.
    pub open spec fn of(value: u32) -> Connectivity {
        if value == 4 {
            Connectivity::Full
        } else if value == 3 {
            Connectivity::Limited
        } else if value == 2 {
            Connectivity::Portal
        } else if value == 1 {
            Connectivity::Disconnected
        } else {
            Connectivity::Unknown
        }
    }

    /// The one-character indicator shown for a class.
    pub open spec fn glyph(self) -> char {
        match self {
            Connectivity::Full => '✓',
            Connectivity::Limited => '⚠',
            Connectivity::Unknown => '?',
            Connectivity::Portal => '✗',
            Connectivity::Disconnected => '✗',
        }
    }

    /// Maps the manager's numeric property to a class; numbers it does not
    /// define map to `Unknown`.
    pub fn from_u32(value: u32) -> (c: Connectivity)
        ensures
            c == Connectivity::of(value),
    {
        match value {
            4 => Connectivity::Full,
            3 => Connectivity::Limited,
            2 => Connectivity::Portal,
            1 => Connectivity::Disconnected,
            _ => Connectivity::Unknown,
        }
    }
}

/// Every number maps to one class: 4, 3, 2 and 1 to `Full`, `Limited`,
/// `Portal` and `Disconnected`, and every other number to `Unknown`. The
/// glyphs tell `Full`, `Limited` and `Unknown` apart from each other and
/// from the two classes without a usable network, which share one.
pub proof fn lemma_connectivity_mapping(value: u32)
    ensures
        Connectivity::of(value) == Connectivity::Full <==> value == 4,
        Connectivity::of(value) == Connectivity::Limited <==> value == 3,
        Connectivity::of(value) == Connectivity::Portal <==> value == 2,
        Connectivity::of(value) == Connectivity::Disconnected <==> value == 1,
        Connectivity::of(value) == Connectivity::Unknown <==> value == 0 || value > 4,
        Connectivity::of(value).glyph() == '✓' <==> value == 4,
        Connectivity::of(value).glyph() == '⚠' <==> value == 3,
        Connectivity::of(value).glyph() == '✗' <==> value == 2 || value == 1,
        Connectivity::of(value).glyph() == '?' <==> value == 0 || value > 4,
{
}

/// The connectivity that was last reported.
pub struct NetworkState {
    connectivity: Connectivity,
}

impl View for NetworkState {
    type V = Connectivity;

    closed spec fn view(&self) -> Connectivity {
        self.connectivity
    }
}

impl NetworkState {
    /// The state after the manager was asked: the class of the number it
    /// answered with, and the class as it was where it gave no answer.
    pub open spec fn after(class: Connectivity, answer: Option<u32>) -> Connectivity {
        match answer {
            Some(value) => Connectivity::of(value),
            None => class,
        }
    }

    /// Takes the manager's answer to a query for its `Connectivity`
    /// property, `None` where the query failed, which changes nothing.
    pub fn update(&mut self, answer: Option<u32>)
        ensures
            final(self)@ == NetworkState::after(old(self)@, answer),
    {
        match answer {
            Some(value) => {
                self.connectivity = Connectivity::from_u32(value);
            },
            None => {},
        }
    }

    /// The connectivity that was last reported.
    pub fn connectivity(&self) -> (c: Connectivity)
        ensures
            c == self@,
    {
        self.connectivity
    }

    /// The indicator as text: the one glyph of the class.
    pub fn render(&self) -> (s: String)
        ensures
            s@ == seq![self@.glyph()],
    {
        let icon = match self.connectivity {
            Connectivity::Full => {
                proof {
                    reveal_strlit("✓");
                }
                "✓"
            },
            Connectivity::Limited => {
                proof {
                    reveal_strlit("⚠");
                }
                "⚠"
            },
            Connectivity::Unknown => {
                proof {
                    reveal_strlit("?");
                }
                "?"
            },
            _ => {
                proof {
                    reveal_strlit("✗");
                }
                "✗"
            },
        };
        let mut out = String::new();
        out.append(icon);
        proof {
            assert(out@ =~= seq![self@.glyph()]);
        }
        out
    }
}

impl Default for NetworkState {
    /// Nothing reported yet.
    fn default() -> (r: Self)
        ensures
            r@ == Connectivity::Unknown,
    {
        NetworkState { connectivity: Connectivity::Unknown }
    }
}

} // verus!
