//! Menu buttons: which one is selected, and which one the player presses.

use vstd::prelude::*;

verus! {

/// A button of a menu, in the menu's order.
#[derive(Clone, Copy, Debug, PartialEq, Eq, Structural)]
pub struct MenuEntry {
    pub id: u64,
    pub selected_by_default: bool,
}

/// Which button is selected, and which was when the buttons were last drawn.
#[derive(Clone, Copy, Debug, PartialEq, Eq, Structural)]
pub struct ButtonState {
    pub selected: Option<u64>,
    pub prev_selected: Option<u64>,
}

/// The menu keys pressed on this tick.
#[derive(Clone, Copy, Debug, PartialEq, Eq, Structural)]
pub struct MenuKeys {
    /// Move the selection up.
    pub up: bool,
    /// Move the selection down.
    pub down: bool,
    /// Press the selected button.
    pub confirm: bool,
}

/// What the pointer does to a button.
#[derive(Clone, Copy, Debug, PartialEq, Eq, Structural)]
pub enum ButtonInteraction {
    Clicked,
    Hovered,
    Idle,
}

/// Whether `e` is the button the keys move from: the selected one, or one
/// selected by default.
pub open spec fn is_anchor(e: MenuEntry, selected: Option<u64>) -> bool {
    selected == Some(e.id) || e.selected_by_default
}

/// The first of the first `n` buttons that the keys move from, or -1.
pub open spec fn first_anchor(buttons: Seq<MenuEntry>, selected: Option<u64>, n: int) -> int
    decreases n,
{
    if n <= 0 {
        -1
    } else {
        let prev = first_anchor(buttons, selected, n - 1);
        if prev >= 0 {
            prev
        } else if is_anchor(buttons[n - 1], selected) {
            n - 1
        } else {
            -1
        }
    }
}

/// The first button selected by default among the first `n`, or -1.
pub open spec fn first_default(buttons: Seq<MenuEntry>, n: int) -> int
    decreases n,
{
    if n <= 0 {
        -1
    } else {
        let prev = first_default(buttons, n - 1);
        if prev >= 0 {
            prev
        } else if buttons[n - 1].selected_by_default {
            n - 1
        } else {
            -1
        }
    }
}

/// Some button is selected by default.
pub open spec fn has_default(buttons: Seq<MenuEntry>) -> bool {
    exists|i: int| 0 <= i < buttons.len() && buttons[i].selected_by_default
}

/// The selection after the up or down key: from the first button that is
/// selected or selected by default, to the next one down (the first after
/// the last) or up (the last before the first).
pub open spec fn moved_selection(buttons: Seq<MenuEntry>, selected: Option<u64>, down: bool) -> Option<u64> {
    let k = first_anchor(buttons, selected, buttons.len() as int);
    if k < 0 {
        selected
    } else if down {
        if k + 1 < buttons.len() {
            Some(buttons[k + 1].id)
        } else {
            Some(buttons[0].id)
        }
    } else {
        if k > 0 {
            Some(buttons[k - 1].id)
        } else {
            Some(buttons[buttons.len() - 1].id)
        }
    }
}

/// The selection after `keys`.
pub open spec fn selection_after(buttons: Seq<MenuEntry>, selected: Option<u64>, keys: MenuKeys) -> Option<u64> {
    if keys.down || keys.up {
        moved_selection(buttons, selected, keys.down)
    } else {
        selected
    }
}

impl ButtonState {
    /// Nothing selected.
    pub fn new() -> (r: ButtonState)
        ensures
            r.selected == Option::<u64>::None,
            r.prev_selected == Option::<u64>::None,
    {
        ButtonState { selected: None, prev_selected: None }
    }

    /// Reacts to the menu keys of a tick: up and down move the selection
    /// (down when both are pressed); confirm presses the selected button,
    /// or the first one selected by default when none is. Returns the
    /// button pressed, if any.
    pub fn keyboard_interaction(&mut self, buttons: &Vec<MenuEntry>, keys: MenuKeys) -> (pressed:
        Option<u64>)
        requires
            buttons@.len() > 0,
            has_default(buttons@),
        ensures
            final(self).selected == selection_after(buttons@, old(self).selected, keys),
            final(self).prev_selected == old(self).prev_selected,
            pressed == if keys.confirm {
                match final(self).selected {
                    Some(id) => Some(id),
                    None => Some(buttons@[first_default(buttons@, buttons@.len() as int)].id),
                }
            } else {
                Option::<u64>::None
            },
    {
        let n = buttons.len();
        if keys.down || keys.up {
            if let Some(k) = find_anchor(buttons, self.selected) {
                let next = if keys.down {
                    if k + 1 < n { buttons[k + 1].id } else { buttons[0].id }
                } else {
                    if k > 0 { buttons[k - 1].id } else { buttons[n - 1].id }
                };
                self.selected = Some(next);
            }
        }
        if keys.confirm {
            match self.selected {
                Some(id) => Some(id),
                None => {
                    let d = find_default(buttons);
                    Some(buttons[d].id)
                },
            }
        } else {
            None
        }
    }

    /// Reacts to the pointer on button `id`: a click selects and presses
    /// it, hovering selects it. Returns the button pressed, if any.
    pub fn pointer_interaction(&mut self, id: u64, interaction: ButtonInteraction) -> (pressed: Option<
        u64,
    >)
        ensures
            final(self).prev_selected == old(self).prev_selected,
            final(self).selected == match interaction {
                ButtonInteraction::Idle => old(self).selected,
                _ => Some(id),
            },
            pressed == match interaction {
                ButtonInteraction::Clicked => Some(id),
                _ => Option::<u64>::None,
            },
    {
        match interaction {
            ButtonInteraction::Clicked => {
                self.selected = Some(id);
                Some(id)
            },
            ButtonInteraction::Hovered => {
                self.selected = Some(id);
                None
            },
            ButtonInteraction::Idle => None,
        }
    }

    /// Whether the selection changed since the buttons were last drawn;
    /// where it did, they are now drawn.
    pub fn selected_button_changed(&mut self) -> (changed: bool)
        ensures
            changed == (old(self).selected != old(self).prev_selected),
            final(self).selected == old(self).selected,
            final(self).prev_selected == old(self).selected,
    {
        let changed = self.selected != self.prev_selected;
        if changed {
            self.prev_selected = self.selected;
        }
        changed
    }
}

proof fn lemma_anchor_stays(buttons: Seq<MenuEntry>, selected: Option<u64>, m: int, n: int)
    requires
        0 < m <= n,
        first_anchor(buttons, selected, m) >= 0,
    ensures
        first_anchor(buttons, selected, n) == first_anchor(buttons, selected, m),
    decreases n - m,
{
    if m < n {
        lemma_anchor_stays(buttons, selected, m, n - 1);
    }
}

/// The first button that the keys move from, if any.
fn find_anchor(buttons: &Vec<MenuEntry>, selected: Option<u64>) -> (r: Option<usize>)
    ensures
        match r {
            Some(k) => k == first_anchor(buttons@, selected, buttons@.len() as int) && k < buttons@.len(),
            None => first_anchor(buttons@, selected, buttons@.len() as int) < 0,
        },
{
    let n = buttons.len();
    let mut i: usize = 0;
    while i < n
        invariant
            n == buttons@.len(),
            0 <= i <= n,
            first_anchor(buttons@, selected, i as int) < 0,
        decreases n - i,
    {
        let e = buttons[i];
        let anchor = match selected {
            Some(s) => s == e.id,
            None => false,
        } || e.selected_by_default;
        if anchor {
            proof {
                assert(first_anchor(buttons@, selected, i + 1) == i);
                lemma_anchor_stays(buttons@, selected, i + 1, n as int);
            }
            return Some(i);
        }
        i = i + 1;
    }
    None
}

/// The first button selected by default.
fn find_default(buttons: &Vec<MenuEntry>) -> (r: usize)
    requires
        has_default(buttons@),
    ensures
        r == first_default(buttons@, buttons@.len() as int),
        r < buttons@.len(),
{
    let n = buttons.len();
    let mut i: usize = 0;
    while i < n
        invariant
            n == buttons@.len(),
            0 <= i <= n,
            first_default(buttons@, i as int) < 0,
            forall|j: int| 0 <= j < i ==> !(#[trigger] buttons@[j]).selected_by_default,
        decreases n - i,
    {
        if buttons[i].selected_by_default {
            proof {
                assert(first_default(buttons@, i + 1) == i);
                lemma_default_stays(buttons@, i + 1, n as int);
            }
            return i;
        }
        i = i + 1;
    }
    proof {
        let k = choose|k: int| 0 <= k < buttons@.len() && buttons@[k].selected_by_default;
        assert(!buttons@[k].selected_by_default);
    }
    0
}

proof fn lemma_default_stays(buttons: Seq<MenuEntry>, m: int, n: int)
    requires
        0 < m <= n,
        first_default(buttons, m) >= 0,
    ensures
        first_default(buttons, n) == first_default(buttons, m),
    decreases n - m,
{
    if m < n {
        lemma_default_stays(buttons, m, n - 1);
    }
}

} // verus!
