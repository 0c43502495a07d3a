use vstd::prelude::*;

verus! {

/// A tab of the start menu.
#[derive(Clone, Copy, PartialEq, Eq, Structural, Debug)]
pub enum MenuTab {
    Main,
    Controls,
    Colors,
    Difficulty,
}

/// Number of tabs in the tab bar.
pub const TAB_COUNT: usize = 4;

/// The tabs in the order the tab bar shows them, left to right.
pub open spec fn tab_order() -> Seq<MenuTab> {
    seq![MenuTab::Main, MenuTab::Controls, MenuTab::Colors, MenuTab::Difficulty]
}

/// Position of a tab in the tab bar.
pub open spec fn spec_tab_index(tab: MenuTab) -> int {
    match tab {
        MenuTab::Main => 0,
        MenuTab::Controls => 1,
        MenuTab::Colors => 2,
        MenuTab::Difficulty => 3,
    }
}

/// The tab to the right of `tab`, wrapping from the last to the first.
pub open spec fn spec_tab_next(tab: MenuTab) -> MenuTab {
    tab_order()[(spec_tab_index(tab) + 1) % (TAB_COUNT as int)]
}

/// The tab to the left of `tab`, wrapping from the first to the last.
pub open spec fn spec_tab_prev(tab: MenuTab) -> MenuTab {
    tab_order()[(spec_tab_index(tab) + TAB_COUNT - 1) % (TAB_COUNT as int)]
}

/// The tab at position `i` of the tab bar.
pub fn tab_at(i: usize) -> (tab: MenuTab)
    requires
        i < TAB_COUNT,
    ensures
        tab == tab_order()[i as int],
{
    match i {
        0 => MenuTab::Main,
        1 => MenuTab::Controls,
        2 => MenuTab::Colors,
        _ => MenuTab::Difficulty,
    }
}

/// Position of `tab` in the tab bar, found by searching the tab order.
pub fn tab_index(tab: MenuTab) -> (i: usize)
    ensures
        i < TAB_COUNT,
        i == spec_tab_index(tab),
        tab_order()[i as int] == tab,
{
    let mut i: usize = 0;
    while i < TAB_COUNT
        invariant
            i <= TAB_COUNT,
            forall|j: int| 0 <= j < i ==> tab_order()[j] != tab,
        decreases TAB_COUNT - i,
    {
        if tab_at(i) == tab {
            return i;
        }
        i += 1;
    }
    assert(tab_order()[spec_tab_index(tab)] == tab);
    0
}

/// The next tab to the right, wrapping around.
pub fn tab_next(tab: MenuTab) -> (next: MenuTab)
    ensures
        next == spec_tab_next(tab),
{
    tab_at((tab_index(tab) + 1) % TAB_COUNT)
}

/// The next tab to the left, wrapping around.
pub fn tab_prev(tab: MenuTab) -> (prev: MenuTab)
    ensures
        prev == spec_tab_prev(tab),
{
    tab_at((tab_index(tab) + TAB_COUNT - 1) % TAB_COUNT)
}

/// Every tab stands at its own index in the tab order.
pub proof fn lemma_tab_index_of_order(i: int)
    requires
        0 <= i < TAB_COUNT,
    ensures
        spec_tab_index(tab_order()[i]) == i,
{
}

/// Moving right and then left, or left and then right, comes back to the same tab.
pub proof fn lemma_tab_next_prev_inverse(tab: MenuTab)
    ensures
        spec_tab_prev(spec_tab_next(tab)) == tab,
        spec_tab_next(spec_tab_prev(tab)) == tab,
{
}

/// Moving right once per tab goes round the whole tab bar and back.
pub proof fn lemma_tab_next_cycle(tab: MenuTab)
    ensures
        spec_tab_next(spec_tab_next(spec_tab_next(spec_tab_next(tab)))) == tab,
{
}

} // verus!
