//! Which plot a panel shows: the tab selection of a group of plots, driven by the
//! keyboard.

use vstd::prelude::*;

verus! {

/// Which keys select tabs in a `TabGroup`. Lets two panels coexist without clashing:
/// the left panel uses function keys, the right uses number keys.
#[derive(Clone, Copy, Debug, PartialEq, Eq, Structural)]
pub enum TabKeys {
    Digit,
    Function,
}

impl Default for TabKeys {
    fn default() -> (k: TabKeys)
        ensures
            k == TabKeys::Digit,
    {
        TabKeys::Digit
    }
}

/// A key press, as far as the monitor tells keys apart.
#[derive(Clone, Copy, Debug, PartialEq, Eq, Structural)]
pub enum KeyInput {
    Char(char),
    /// Function key `F(n)`.
    F(u8),
    Left,
    Right,
    Up,
    Down,
    Other,
}

/// `char::to_digit(10)`.
pub open spec fn decimal_digit(c: char) -> Option<u32> {
    if '0' <= c <= '9' {
        Some((c as u32 - '0' as u32) as u32)
    } else {
        None
    }
}

/// The tab index a key selects under `keys` (`'1'` or F1 select the first tab), or
/// `None` when the key is not one of `keys`. `'0'` and F0 stand for an index past any
/// tab (`usize::MAX`).
pub open spec fn key_tab_index(keys: TabKeys, key: KeyInput) -> Option<usize> {
    match (keys, key) {
        (TabKeys::Digit, KeyInput::Char(c)) => match decimal_digit(c) {
            Some(d) => Some(
                if d == 0 {
                    usize::MAX
                } else {
                    (d - 1) as usize
                },
            ),
            None => None,
        },
        (TabKeys::Function, KeyInput::F(n)) => Some(
            if n == 0 {
                usize::MAX
            } else {
                (n - 1) as usize
            },
        ),
        _ => None,
    }
}

/// The selection state of a group of tabs.
pub ghost struct TabGroupView {
    pub n_tabs: nat,
    pub active: nat,
    pub keys: TabKeys,
    pub prefer_last: bool,
    pub user_selected: bool,
}

/// The active tab after the group is given `n` tabs: the last one while the group
/// prefers it and the user has not picked one; otherwise the same one if it still
/// exists, else the first.
pub open spec fn rebuild_spec(g: TabGroupView, n: nat) -> TabGroupView {
    TabGroupView {
        n_tabs: n,
        active: if n == 0 {
            0
        } else if g.prefer_last && !g.user_selected {
            (n - 1) as nat
        } else if g.active >= n {
            0
        } else {
            g.active
        },
        ..g
    }
}

/// A key press: selects the tab it names when that tab exists.
pub open spec fn handle_key_spec(g: TabGroupView, key: KeyInput) -> (TabGroupView, bool) {
    match key_tab_index(g.keys, key) {
        Some(idx) => if idx < g.n_tabs {
            (TabGroupView { active: idx as nat, user_selected: true, ..g }, true)
        } else {
            (g, false)
        },
        None => (g, false),
    }
}

/// A tabbed panel's selection: how many tabs it has, which is active, which keys
/// select tabs, and whether it defaults to the last tab until the user picks one (so
/// the right panel can default to a different plot than the left).
#[derive(Debug)]
pub struct TabGroup {
    n_tabs: usize,
    active: usize,
    keys: TabKeys,
    prefer_last: bool,
    user_selected: bool,
}

impl View for TabGroup {
    type V = TabGroupView;

    closed spec fn view(&self) -> TabGroupView {
        TabGroupView {
            n_tabs: self.n_tabs as nat,
            active: self.active as nat,
            keys: self.keys,
            prefer_last: self.prefer_last,
            user_selected: self.user_selected,
        }
    }
}

impl TabGroup {
    /// The active tab always exists when there are tabs, and is the first otherwise.
    #[verifier::type_invariant]
    spec fn inv(self) -> bool {
        if self.n_tabs == 0 {
            self.active == 0
        } else {
            self.active < self.n_tabs
        }
    }

    /// Set which key family selects tabs (builder style).
    pub fn with_keys(self, keys: TabKeys) -> (res: TabGroup)
        ensures
            res@ == (TabGroupView { keys, ..self@ }),
    {
        proof {
            use_type_invariant(&self);
        }
        TabGroup { keys, ..self }
    }

    /// Default to the last tab (until the user picks one). Builder style.
    pub fn with_default_last(self) -> (res: TabGroup)
        ensures
            res@ == (TabGroupView { prefer_last: true, ..self@ }),
    {
        proof {
            use_type_invariant(&self);
        }
        TabGroup { prefer_last: true, ..self }
    }

    /// Replace all tabs by `n_tabs` new ones, preserving the active index if still in
    /// range.
    pub fn rebuild(&mut self, n_tabs: usize)
        ensures
            final(self)@ == rebuild_spec(old(self)@, n_tabs as nat),
    {
        proof {
            use_type_invariant(&*self);
        }
        let active = if n_tabs == 0 {
            0
        } else if self.prefer_last && !self.user_selected {
            n_tabs - 1
        } else if self.active >= n_tabs {
            0
        } else {
            self.active
        };
        *self = TabGroup {
            n_tabs,
            active,
            keys: self.keys,
            prefer_last: self.prefer_last,
            user_selected: self.user_selected,
        };
    }

    /// Handle a key press (number or function keys, depending on the group's keys).
    /// Returns true if consumed.
    pub fn handle_key(&mut self, code: KeyInput) -> (consumed: bool)
        ensures
            (final(self)@, consumed) == handle_key_spec(old(self)@, code),
    {
        proof {
            use_type_invariant(&*self);
        }
        let idx: usize = match (self.keys, code) {
            (TabKeys::Digit, KeyInput::Char(c)) => {
                if '0' <= c && c <= '9' {
                    let d = c as u32 - '0' as u32;
                    if d == 0 {
                        usize::MAX
                    } else {
                        (d - 1) as usize
                    }
                } else {
                    return false;
                }
            },
            (TabKeys::Function, KeyInput::F(n)) => {
                if n == 0 {
                    usize::MAX
                } else {
                    (n - 1) as usize
                }
            },
            _ => {
                return false;
            },
        };
        if idx < self.n_tabs {
            *self = TabGroup {
                n_tabs: self.n_tabs,
                active: idx,
                keys: self.keys,
                prefer_last: self.prefer_last,
                user_selected: true,
            };
            return true;
        }
        false
    }

    /// The index of the active tab.
    pub fn active(&self) -> (a: usize)
        ensures
            a == self@.active,
            self@.n_tabs == 0 ==> a == 0,
            self@.n_tabs > 0 ==> a < self@.n_tabs,
    {
        proof {
            use_type_invariant(self);
        }
        self.active
    }

    /// The number of tabs.
    pub fn num_tabs(&self) -> (n: usize)
        ensures
            n == self@.n_tabs,
    {
        self.n_tabs
    }

    /// The keys that select tabs.
    pub fn keys(&self) -> (k: TabKeys)
        ensures
            k == self@.keys,
    {
        self.keys
    }
}

impl Default for TabGroup {
    fn default() -> (g: TabGroup)
        ensures
            g@ == (TabGroupView {
                n_tabs: 0,
                active: 0,
                keys: TabKeys::Digit,
                prefer_last: false,
                user_selected: false,
            }),
    {
        TabGroup { n_tabs: 0, active: 0, keys: TabKeys::Digit, prefer_last: false, user_selected: false }
    }
}

/// A group keyed by function keys never takes a character key, and a group keyed by
/// digits never takes a function key: the two panels' keys do not collide.
pub proof fn lemma_key_families_do_not_collide(g: TabGroupView, c: char, n: u8)
    ensures
        g.keys == TabKeys::Function ==> handle_key_spec(g, KeyInput::Char(c)) == (g, false),
        g.keys == TabKeys::Digit ==> handle_key_spec(g, KeyInput::F(n)) == (g, false),
{
}

/// Two fresh panels given the same `n > 1` tabs, the right one defaulting to the last
/// tab, start on different tabs: the left on the first, the right on the last.
pub proof fn lemma_panels_default_apart(left_keys: TabKeys, right_keys: TabKeys, n: nat)
    requires
        n > 1,
    ensures
        ({
            let fresh = TabGroupView {
                n_tabs: 0,
                active: 0,
                keys: TabKeys::Digit,
                prefer_last: false,
                user_selected: false,
            };
            let left = rebuild_spec(TabGroupView { keys: left_keys, ..fresh }, n);
            let right = rebuild_spec(TabGroupView { keys: right_keys, prefer_last: true, ..fresh }, n);
            &&& left.active == 0
            &&& right.active == n - 1
            &&& left.active != right.active
        }),
{
}

/// Once the user has picked a tab, rebuilding with at least as many tabs keeps it.
pub proof fn lemma_rebuild_keeps_user_choice(g: TabGroupView, n: nat)
    requires
        g.user_selected,
        g.active < n,
    ensures
        rebuild_spec(g, n).active == g.active,
{
}

} // verus!
