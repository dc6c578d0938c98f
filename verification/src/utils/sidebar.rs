use vstd::prelude::*;

verus! {

/// Which entry of a list is selected, if any.
pub struct SelectionState {
    pub selected: Option<usize>,
}

impl SelectionState {
    /// Selects the given entry (or none).
    pub fn select(&mut self, index: Option<usize>)
        ensures
            final(self).selected == index,
    {
        self.selected = index;
    }
}

/// The list of titles on the left of the screen, with its selection and whether it has focus.
pub struct Sidebar {
    pub titles: Vec<String>,
    pub state: SelectionState,
    pub focused: bool,
}

impl Sidebar {
    /// An empty, focused sidebar with nothing selected.
    pub fn new() -> (r: Sidebar)
        ensures
            r.titles@.len() == 0,
            r.state.selected is None,
            r.focused,
    {
        Sidebar { titles: Vec::new(), state: SelectionState { selected: None }, focused: true }
    }
}

/// The entry selected after moving down a list of `len` entries: the one after the selected
/// entry, wrapping from the last (or from beyond it) to the first; the first when nothing is
/// selected.
pub open spec fn next_selection(selected: Option<usize>, len: nat) -> nat {
    match selected {
        Some(i) => if i >= len - 1 {
            0
        } else {
            (i + 1) as nat
        },
        None => 0,
    }
}

/// The entry selected after moving up a list of `len` entries: the one before the selected
/// entry, wrapping from the first to the last; the first when nothing is selected.
pub open spec fn previous_selection(selected: Option<usize>, len: nat) -> nat {
    match selected {
        Some(i) => if i == 0 {
            (len - 1) as nat
        } else {
            (i - 1) as nat
        },
        None => 0,
    }
}

/// Moves the selection of a non-empty list of `len` entries down by one, wrapping around.
pub fn next_index(selected: Option<usize>, len: usize) -> (r: usize)
    requires
        len > 0,
    ensures
        r == next_selection(selected, len as nat),
{
    match selected {
        Some(i) => if i >= len - 1 {
            0
        } else {
            i + 1
        },
        None => 0,
    }
}

/// Moves the selection of a non-empty list of `len` entries up by one, wrapping around.
pub fn previous_index(selected: Option<usize>, len: usize) -> (r: usize)
    requires
        len > 0,
    ensures
        r == previous_selection(selected, len as nat),
{
    match selected {
        Some(i) => if i == 0 {
            len - 1
        } else {
            i - 1
        },
        None => 0,
    }
}

/// Moving down and then up a list gives back the entry that was selected.
pub proof fn lemma_previous_undoes_next(i: usize, len: usize)
    requires
        i < len,
    ensures
        previous_selection(Some(next_selection(Some(i), len as nat) as usize), len as nat) == i,
{
}

/// Moving up and then down a list gives back the entry that was selected.
pub proof fn lemma_next_undoes_previous(i: usize, len: usize)
    requires
        i < len,
    ensures
        next_selection(Some(previous_selection(Some(i), len as nat) as usize), len as nat) == i,
{
}

/// Position reached from entry `i` after `k` moves down a list of `len` entries.
pub open spec fn after_next_moves(i: nat, k: nat, len: nat) -> nat
    decreases k,
{
    if k == 0 {
        i
    } else {
        next_selection(Some(after_next_moves(i, (k - 1) as nat, len) as usize), len)
    }
}

proof fn lemma_after_next_moves_formula(i: nat, k: nat, len: nat)
    requires
        i < len,
        len <= usize::MAX,
    ensures
        after_next_moves(i, k, len) == ((i + k) as int) % (len as int),
    decreases k,
{
    if k > 0 {
        lemma_after_next_moves_formula(i, (k - 1) as nat, len);
        let p = after_next_moves(i, (k - 1) as nat, len);
        assert(p == ((i + k - 1) as int) % (len as int));
        assert(p < len) by {
            vstd::arithmetic::div_mod::lemma_mod_bound((i + k - 1) as int, len as int);
        }
        vstd::arithmetic::div_mod::lemma_add_mod_noop((i + k - 1) as int, 1, len as int);
        if len == 1 {
            vstd::arithmetic::div_mod::lemma_mod_self_0(1);
            assert(1int % 1 == 0);
        } else {
            vstd::arithmetic::div_mod::lemma_small_mod(1, len);
        }
        if p + 1 == len {
            vstd::arithmetic::div_mod::lemma_mod_self_0(len as int);
        } else {
            vstd::arithmetic::div_mod::lemma_small_mod((p + 1) as nat, len);
        }
    } else {
        vstd::arithmetic::div_mod::lemma_small_mod(i, len);
    }
}

/// Moving down a list as many times as it has entries comes back to the selected entry.
pub proof fn lemma_next_cycles(i: usize, len: usize)
    requires
        i < len,
    ensures
        after_next_moves(i as nat, len as nat, len as nat) == i,
{
    lemma_after_next_moves_formula(i as nat, len as nat, len as nat);
    vstd::arithmetic::div_mod::lemma_mod_add_multiples_vanish(i as int, len as int);
    vstd::arithmetic::div_mod::lemma_small_mod(i as nat, len as nat);
}

} // verus!
