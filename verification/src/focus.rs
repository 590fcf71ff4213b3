use vstd::prelude::*;

verus! {

/// Which entry, if any, the user has picked out.
#[derive(Debug)]
pub struct FocusState {
    pub selected: Option<String>,
}

/// The focus after `name` was picked: picking the entry in focus clears
/// the focus, picking any other moves the focus to it.
pub open spec fn spec_select(focus: Option<Seq<char>>, name: Seq<char>) -> Option<Seq<char>> {
    if focus == Some(name) {
        None
    } else {
        Some(name)
    }
}

impl FocusState {
    /// The name in focus, as a sequence of characters.
    pub open spec fn view(&self) -> Option<Seq<char>> {
        match self.selected {
            Some(name) => Some(name@),
            None => None,
        }
    }

    /// Nothing is in focus.
    pub fn new() -> (focus: FocusState)
        ensures
            focus@ is None,
    {
        FocusState { selected: None }
    }

    /// Whether `name` is the entry in focus.
    pub fn is_focused(&self, name: &String) -> (focused: bool)
        ensures
            focused == (self@ == Some(name@)),
    {
        match &self.selected {
            Some(current) => *current == *name,
            None => false,
        }
    }

    /// Registers that the user picked `name`.
    pub fn select(&mut self, name: String)
        ensures
            final(self)@ == spec_select(old(self)@, name@),
    {
        if self.is_focused(&name) {
            self.selected = None;
        } else {
            self.selected = Some(name);
        }
    }
}

/// Picking an entry that is not in focus and then picking it again leaves
/// nothing in focus.
pub proof fn lemma_select_twice_clears(focus: Option<Seq<char>>, name: Seq<char>)
    requires
        focus != Some(name),
    ensures
        spec_select(spec_select(focus, name), name) is None,
{
}

/// Picking one entry and then a different one leaves the second in focus
/// and no other: there is never more than one name in focus.
pub proof fn lemma_select_other_switches(
    focus: Option<Seq<char>>,
    first: Seq<char>,
    second: Seq<char>,
)
    requires
        first != second,
    ensures
        spec_select(spec_select(focus, first), second) == Some(second),
        spec_select(spec_select(focus, first), second) != Some(first),
{
}

} // verus!
