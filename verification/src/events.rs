//! What a view does with the events of its query box, and what the actions
//! list does with the events of its own.

use vstd::prelude::*;

use crate::form::QueryEvent;
use crate::keys::{Keystroke, Modifiers, same_keystroke};
use crate::list::{Accessory, Item, ItemBuilder};
use crate::state::{Action, Actions, is_combined, next_value};

verus! {

/// A keystroke of `key` with no modifier and no input-method text.
pub open spec fn is_bare(k: Keystroke, key: Seq<char>) -> bool {
    &&& k.key@ == key
    &&& k.modifiers == Modifiers::none_spec()
    &&& k.ime_key is None
}

/// The action at `i` of `all` is the first whose shortcut is `k`.
pub open spec fn first_bound(all: Seq<Action>, k: Keystroke, i: int) -> bool {
    &&& 0 <= i < all.len()
    &&& all[i].shortcut matches Some(s) && same_keystroke(s.inner, k)
    &&& forall|j: int| 0 <= j < i ==> !(#[trigger] all[j].shortcut matches Some(s) && same_keystroke(s.inner, k))
}

/// No action of `all` is bound to `k`.
pub open spec fn none_bound(all: Seq<Action>, k: Keystroke) -> bool {
    forall|j: int| 0 <= j < all.len() ==> !(#[trigger] all[j].shortcut matches Some(s) && same_keystroke(s.inner, k))
}

/// What a view does about an event of its query box.
pub struct ViewReaction {
    /// Run the action at this index of the view's actions.
    pub run: Option<usize>,
    /// The dropdown moved to its next value.
    pub cycled: bool,
    /// Hide the window.
    pub close_window: bool,
    /// Go back to the view below.
    pub pop: bool,
}

fn bare(k: &Keystroke, key: &str) -> (r: bool)
    ensures
        r == is_bare(*k, key@),
{
    k.key_is(key) && k.modifiers == Modifiers::none() && k.ime_key.is_none()
}

impl Actions {
    /// A key press in the view's query box: the action bound to it runs
    /// (not on a held key); else a bare tab moves the dropdown on; escape
    /// hides the window either way. Backspace in an empty box goes back.
    pub fn on_view_event(&mut self, ev: &QueryEvent, macos: bool) -> (r: ViewReaction)
        ensures
            final(self).local == old(self).local,
            final(self).global == old(self).global,
            final(self).show == old(self).show,
            final(self).dropdown.items == old(self).dropdown.items,
            *ev is Back ==> r.pop && r.run is None && !r.cycled && !r.close_window && final(self).dropdown
                == old(self).dropdown,
            !(*ev is Back) && !(*ev is KeyDown) ==> !r.pop && r.run is None && !r.cycled && !r.close_window
                && final(self).dropdown == old(self).dropdown,
            *ev matches QueryEvent::KeyDown(e) ==> {
                &&& !r.pop
                &&& r.close_window == (e.keystroke.key@ == "escape"@)
                &&& exists|all: Seq<Action>|
                    #![trigger is_combined(old(self).local@, old(self).global@, macos, all)]
                    {
                        &&& is_combined(old(self).local@, old(self).global@, macos, all)
                        &&& match r.run {
                            Some(i) => first_bound(all, e.keystroke, i as int) && !e.is_held,
                            None => none_bound(all, e.keystroke) || e.is_held,
                        }
                        &&& r.cycled == (none_bound(all, e.keystroke) && !e.is_held && is_bare(e.keystroke, "tab"@))
                    }
                &&& r.cycled && old(self).dropdown.items@.len() > 0 ==> final(self).dropdown.value@ == next_value(
                    old(self).dropdown.items@,
                    old(self).dropdown.value@,
                )
                &&& !(r.cycled && old(self).dropdown.items@.len() > 0) ==> final(self).dropdown.value
                    == old(self).dropdown.value
            },
    {
        match ev {
            QueryEvent::Back => ViewReaction { run: None, cycled: false, close_window: false, pop: true },
            QueryEvent::KeyDown(e) => {
                let k = &e.keystroke;
                let found = self.check(k, macos);
                let mut run: Option<usize> = None;
                let mut cycled = false;
                match found {
                    Some((i, _)) => {
                        if !e.is_held {
                            run = Some(i);
                        }
                    },
                    None => {
                        if !e.is_held && bare(k, "tab") {
                            self.dropdown_cycle();
                            cycled = true;
                        }
                    },
                }
                let close_window = k.key_is("escape");
                ViewReaction { run, cycled, close_window, pop: false }
            },
            _ => ViewReaction { run: None, cycled: false, close_window: false, pop: false },
        }
    }
}

/// What the actions list does about an event of its query box.
pub struct PopupReaction {
    /// Run the selected item's action.
    pub run_default: bool,
    /// Run the action at this index of the view's actions.
    pub run: Option<usize>,
}

impl Actions {
    /// An event in the actions list's own query box: leaving it or going
    /// back closes the list; enter closes it and runs the selected action;
    /// an action bound to the key runs (not on a held key); escape closes it.
    pub fn on_popup_event(&mut self, ev: &QueryEvent, macos: bool) -> (r: PopupReaction)
        ensures
            final(self).local == old(self).local,
            final(self).global == old(self).global,
            final(self).dropdown == old(self).dropdown,
            *ev is Blur || *ev is Back ==> !final(self).show && !r.run_default && r.run is None,
            *ev is Input ==> final(self).show == old(self).show && !r.run_default && r.run is None,
            *ev matches QueryEvent::KeyDown(e) ==> {
                if is_bare(e.keystroke, "enter"@) {
                    !final(self).show && r.run_default && r.run is None
                } else {
                    &&& !r.run_default
                    &&& exists|all: Seq<Action>|
                        #![trigger is_combined(old(self).local@, old(self).global@, macos, all)]
                        {
                            &&& is_combined(old(self).local@, old(self).global@, macos, all)
                            &&& match r.run {
                                Some(i) => first_bound(all, e.keystroke, i as int) && !e.is_held,
                                None => none_bound(all, e.keystroke) || e.is_held,
                            }
                            &&& final(self).show == if none_bound(all, e.keystroke) && e.keystroke.key@ == "escape"@ {
                                false
                            } else {
                                old(self).show
                            }
                        }
                }
            },
    {
        match ev {
            QueryEvent::Blur | QueryEvent::Back => {
                self.show = false;
                PopupReaction { run_default: false, run: None }
            },
            QueryEvent::KeyDown(e) => {
                let k = &e.keystroke;
                if bare(k, "enter") {
                    self.show = false;
                    return PopupReaction { run_default: true, run: None };
                }
                match self.check(k, macos) {
                    Some((i, _)) => {
                        if e.is_held {
                            PopupReaction { run_default: false, run: None }
                        } else {
                            PopupReaction { run_default: false, run: Some(i) }
                        }
                    },
                    None => {
                        if k.key_is("escape") {
                            self.show = false;
                        }
                        PopupReaction { run_default: false, run: None }
                    },
                }
            },
            QueryEvent::Input(_) => PopupReaction { run_default: false, run: None },
        }
    }

    /// The actions the actions list shows: every action of the view that
    /// is not hidden, in order.
    pub fn visible(&self, macos: bool) -> (r: Vec<Action>)
        ensures
            exists|all: Seq<Action>|
                #![trigger is_combined(self.local@, self.global@, macos, all)]
                is_combined(self.local@, self.global@, macos, all) && r@ == all.filter(|a: Action| !a.hide),
    {
        let all = self.combined(macos);
        let mut r: Vec<Action> = Vec::new();
        let mut i: usize = 0;
        while i < all.len()
            invariant
                i <= all@.len(),
                r@ == all@.take(i as int).filter(|a: Action| !a.hide),
            decreases all.len() - i,
        {
            proof {
                assert(all@.take(i + 1) =~= all@.take(i as int).push(all@[i as int]));
                all@.take(i as int).lemma_filter_push(all@[i as int], |a: Action| !a.hide);
            }
            if !all[i].hide {
                r.push(all[i].clone_action());
            }
            i = i + 1;
        }
        proof {
            assert(all@.take(i as int) =~= all@);
        }
        r
    }
}

/// The entry of an action in the actions list (item id `id`): found by its
/// label, running it, with its shortcut, if it has one, at the end of its
/// row.
pub fn action_entry(id: u64, action: Action) -> (r: Item)
    ensures
        match action.shortcut {
            Some(s) => r.accessory == Some(Accessory::Shortcut(s)),
            None => r.accessory is None,
        },
        r.id == id,
        r.keywords@.map_values(|k: String| k@) == seq![action.label@],
        r.actions@ == seq![action],
        !r.preview,
        r.weight is None,
{
    let mut keywords: Vec<String> = Vec::new();
    keywords.push(action.label.clone());
    proof {
        assert(keywords@.map_values(|k: String| k@) =~= seq![action.label@]);
    }
    let accessory = match &action.shortcut {
        Some(s) => Some(Accessory::Shortcut(s.clone_shortcut())),
        None => None,
    };
    let mut actions: Vec<Action> = Vec::new();
    let ghost a = action;
    actions.push(action);
    proof {
        assert(actions@ =~= seq![a]);
    }
    let builder = ItemBuilder::new(id).keywords(keywords).actions(actions);
    match accessory {
        Some(acc) => builder.accessory(acc).build(),
        None => builder.build(),
    }
}

} // verus!
