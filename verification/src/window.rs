//! What a window knows of its tabs.

use vstd::prelude::*;

verus! {

/// What a window knows of one tab: its title and, for each of its panes
/// from first to last, the name of the program in the foreground, if one
/// is running there.
pub struct TabInfo {
    pub title: String,
    pub foreground: Vec<Option<String>>,
}

/// The tabs of a window and which of them is shown.
pub struct KovaView {
    pub tabs: Vec<TabInfo>,
    pub active_tab: usize,
}

/// A tab's title with the name of a program that runs in it.
pub struct Running {
    pub title: Seq<char>,
    pub name: Seq<char>,
}

/// The programs that run in the panes from `i` on, each with `title`.
pub open spec fn running_in(title: Seq<char>, foreground: Seq<Option<String>>, i: int) -> Seq<
    Running,
>
    decreases foreground.len() - i,
{
    if 0 <= i < foreground.len() {
        match foreground[i] {
            Some(name) => seq![Running { title, name: name@ }] + running_in(
                title,
                foreground,
                i + 1,
            ),
            None => running_in(title, foreground, i + 1),
        }
    } else {
        Seq::empty()
    }
}

/// The programs that run in the tabs from `t` on.
pub open spec fn running_from(tabs: Seq<TabInfo>, t: int) -> Seq<Running>
    decreases tabs.len() - t,
{
    if 0 <= t < tabs.len() {
        running_in(tabs[t].title@, tabs[t].foreground@, 0) + running_from(tabs, t + 1)
    } else {
        Seq::empty()
    }
}

/// The pairs of title and name as contracts see them.
pub open spec fn running_of(v: Seq<(String, String)>) -> Seq<Running> {
    Seq::new(v.len(), |i: int| Running { title: v[i].0@, name: v[i].1@ })
}

impl KovaView {
    /// For every pane with a program in the foreground, the title of its
    /// tab and the name of the program: tabs in order, and the panes of a
    /// tab in order.
    pub fn running_processes(&self) -> (r: Vec<(String, String)>)
        ensures
            running_of(r@) == running_from(self.tabs@, 0),
    {
        let mut result: Vec<(String, String)> = Vec::new();
        let ghost target = running_from(self.tabs@, 0);
        let mut t: usize = 0;
        assert(running_of(result@) + target =~= target);
        while t < self.tabs.len()
            invariant
                t <= self.tabs.len(),
                running_of(result@) + running_from(self.tabs@, t as int) == target,
            decreases self.tabs.len() - t,
        {
            let tab = &self.tabs[t];
            let ghost done = running_of(result@);
            let ghost here = running_in(tab.title@, tab.foreground@, 0);
            let mut i: usize = 0;
            assert(running_of(result@) + here =~= done + here);
            while i < tab.foreground.len()
                invariant
                    i <= tab.foreground.len(),
                    running_of(result@) + running_in(tab.title@, tab.foreground@, i as int)
                        == done + here,
                decreases tab.foreground.len() - i,
            {
                let ghost so_far = running_of(result@);
                match &tab.foreground[i] {
                    Some(name) => {
                        result.push((tab.title.clone(), name.clone()));
                        assert(running_of(result@) =~= so_far + seq![
                            Running { title: tab.title@, name: name@ },
                        ]);
                        assert(running_of(result@) + running_in(
                            tab.title@,
                            tab.foreground@,
                            i + 1,
                        ) =~= so_far + running_in(tab.title@, tab.foreground@, i as int));
                    },
                    None => {},
                }
                i += 1;
            }
            assert(running_of(result@) + Seq::<Running>::empty() =~= running_of(result@));
            assert(running_of(result@) + running_from(self.tabs@, t + 1) =~= done + (here
                + running_from(self.tabs@, t + 1)));
            t += 1;
        }
        assert(running_of(result@) + Seq::<Running>::empty() =~= running_of(result@));
        result
    }

    /// Shows the tab at `idx`; an index past the last tab changes nothing.
    pub fn do_switch_tab(&mut self, idx: usize)
        ensures
            final(self).tabs == old(self).tabs,
            final(self).active_tab == (if idx < old(self).tabs.len() {
                idx
            } else {
                old(self).active_tab
            }),
    {
        if idx < self.tabs.len() {
            self.active_tab = idx;
        }
    }
}

} // verus!
