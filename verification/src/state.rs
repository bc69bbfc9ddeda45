//! The launcher's view stack, the actions offered for the current view, the
//! dropdown beside the query, toasts and the loading indicator.

use vstd::prelude::*;

use crate::chars::same_str;
use crate::keys::{Keystroke, Modifiers, same_keystroke};

verus! {

// ---------------------------------------------------------------- toasts

/// A message at the bottom of the window. Times are milliseconds on the
/// caller's clock.
#[derive(Clone, Debug)]
pub enum ToastState {
    Success { message: String, fade_in: u64, fade_out: Option<u64> },
    Error { message: String, fade_in: u64, fade_out: Option<u64> },
    Loading { message: String, fade_in: u64, fade_out: Option<u64> },
    Idle,
}

/// How long a success toast stays, in milliseconds.
pub const SUCCESS_MILLIS: u64 = 3000;

/// How long an error toast stays, in milliseconds.
pub const ERROR_MILLIS: u64 = 4000;

/// The toast of a view.
#[derive(Clone, Debug)]
pub struct Toast {
    pub state: ToastState,
}

impl Toast {
    /// No toast shown.
    pub fn init() -> (r: Toast)
        ensures
            r.state is Idle,
    {
        Toast { state: ToastState::Idle }
    }

    /// Shows `message` with a spinner until something replaces it.
    pub fn loading(&mut self, message: &str, now: u64)
        ensures
            final(self).state matches ToastState::Loading { message: m, fade_in, fade_out }
                && m@ == message@ && fade_in == now && fade_out is None,
    {
        self.state = ToastState::Loading { message: message.to_owned(), fade_in: now, fade_out: None };
    }

    /// Shows `message` as a success for three seconds.
    pub fn success(&mut self, message: &str, now: u64)
        requires
            now <= u64::MAX - SUCCESS_MILLIS,
        ensures
            final(self).state matches ToastState::Success { message: m, fade_in, fade_out }
                && m@ == message@ && fade_in == now && fade_out == Some((now + SUCCESS_MILLIS) as u64),
    {
        self.state = ToastState::Success {
            message: message.to_owned(),
            fade_in: now,
            fade_out: Some(now + SUCCESS_MILLIS),
        };
    }

    /// Shows `message` as an error for four seconds.
    pub fn error(&mut self, message: &str, now: u64)
        requires
            now <= u64::MAX - ERROR_MILLIS,
        ensures
            final(self).state matches ToastState::Error { message: m, fade_in, fade_out }
                && m@ == message@ && fade_in == now && fade_out == Some((now + ERROR_MILLIS) as u64),
    {
        self.state = ToastState::Error {
            message: message.to_owned(),
            fade_in: now,
            fade_out: Some(now + ERROR_MILLIS),
        };
    }

    /// The toast's time is up.
    pub fn timeout(&mut self)
        ensures
            final(self).state is Idle,
    {
        self.state = ToastState::Idle;
    }
}

// ------------------------------------------------------------ view stack

/// What the stack keeps of a view: the command it belongs to and whether it
/// fills the window (`workspace`) or only backs a preview.
#[derive(Clone, Debug)]
pub struct StateItem {
    pub id: String,
    pub workspace: bool,
}

/// The stack of views; the last one has the focus.
pub struct State {
    pub stack: Vec<StateItem>,
}

/// The view stack that the window renders and the back key pops.
pub struct StateModel {
    pub inner: State,
}

impl StateModel {
    /// An empty stack.
    pub fn init() -> (r: StateModel)
        ensures
            r.inner.stack@.len() == 0,
    {
        StateModel { inner: State { stack: Vec::new() } }
    }

    /// Goes back one view, but never below the first.
    pub fn pop(&mut self)
        ensures
            final(self).inner.stack@ == popped(old(self).inner.stack@),
    {
        if self.inner.stack.len() > 1 {
            self.inner.stack.pop();
        }
    }

    /// Opens the view of command `id` over the current one, filling the
    /// window.
    pub fn push(&mut self, id: String)
        ensures
            pushed(old(self).inner.stack@, id@, final(self).inner.stack@),
    {
        self.inner.stack.push(StateItem { id, workspace: true });
        proof {
            assert(self.inner.stack@.drop_last() =~= old(self).inner.stack@);
        }
    }

    /// Puts `item` on top of the stack.
    pub fn push_item(&mut self, item: StateItem)
        ensures
            final(self).inner.stack@ == old(self).inner.stack@.push(item),
    {
        self.inner.stack.push(item);
    }

    /// Replaces the current view by the view of command `id` (on the first
    /// view, which is never popped, this opens `id` over it).
    pub fn replace(&mut self, id: String)
        ensures
            ({
                let base = if old(self).inner.stack@.len() > 1 {
                    old(self).inner.stack@.drop_last()
                } else {
                    old(self).inner.stack@
                };
                &&& final(self).inner.stack@.drop_last() == base
                &&& final(self).inner.stack@.len() == base.len() + 1
                &&& final(self).inner.stack@.last().id@ == id@
                &&& final(self).inner.stack@.last().workspace
            }),
    {
        self.pop();
        self.push(id);
    }

    /// Goes back to the first view; tells whether there is one, whose query
    /// is then to be emptied.
    pub fn reset(&mut self) -> (r: bool)
        ensures
            final(self).inner.stack@ == old(self).inner.stack@.take(
                if old(self).inner.stack@.len() > 0 { 1int } else { 0int },
            ),
            r == (old(self).inner.stack@.len() > 0),
    {
        self.inner.stack.truncate(1);
        self.inner.stack.len() > 0
    }

    /// Whether the window shows a back button (which pops): only when more
    /// than one view is open.
    pub fn shows_back(&self) -> (r: bool)
        ensures
            r == (self.inner.stack@.len() > 1),
    {
        self.inner.stack.len() > 1
    }

    /// The view with the focus: the top of the stack.
    pub fn current(&self) -> (r: Option<usize>)
        ensures
            self.inner.stack@.len() == 0 ==> r is None,
            self.inner.stack@.len() > 0 ==> r == Some((self.inner.stack@.len() - 1) as usize),
    {
        if self.inner.stack.len() == 0 {
            None
        } else {
            Some(self.inner.stack.len() - 1)
        }
    }

    /// The view that fills the window: the topmost one marked `workspace`.
    pub fn workspace_view(&self) -> (r: Option<usize>)
        ensures
            r is None ==> forall|i: int| 0 <= i < self.inner.stack@.len() ==> !(#[trigger] self.inner.stack@[i]).workspace,
            r matches Some(i) ==> {
                &&& i < self.inner.stack@.len()
                &&& self.inner.stack@[i as int].workspace
                &&& forall|j: int| i < j < self.inner.stack@.len() ==> !(#[trigger] self.inner.stack@[j]).workspace
            },
    {
        let mut i = self.inner.stack.len();
        while i > 0
            invariant
                i <= self.inner.stack@.len(),
                forall|j: int| i <= j < self.inner.stack@.len() ==> !(#[trigger] self.inner.stack@[j]).workspace,
            decreases i,
        {
            if self.inner.stack[i - 1].workspace {
                return Some(i - 1);
            }
            i = i - 1;
        }
        None
    }

    /// Whether the view with the focus belongs to command `id`.
    pub fn is_active(&self, id: &str) -> (r: bool)
        ensures
            r == (self.inner.stack@.len() > 0 && self.inner.stack@.last().id@ == id@),
    {
        if self.inner.stack.len() == 0 {
            false
        } else {
            same_str(self.inner.stack[self.inner.stack.len() - 1].id.as_str(), id)
        }
    }
}

/// The stack after going back from `s`: one view fewer, never below the
/// first.
pub open spec fn popped(s: Seq<StateItem>) -> Seq<StateItem> {
    if s.len() > 1 {
        s.drop_last()
    } else {
        s
    }
}

/// `after` is `before` with the view of command `id` opened on top.
pub open spec fn pushed(before: Seq<StateItem>, id: Seq<char>, after: Seq<StateItem>) -> bool {
    &&& after.len() == before.len() + 1
    &&& after.drop_last() == before
    &&& after.last().id@ == id
    &&& after.last().workspace
}

/// Opening a view and going back returns to the stack as it was, where a
/// view was open before.
pub proof fn law_push_then_pop(before: Seq<StateItem>, id: Seq<char>, after: Seq<StateItem>)
    requires
        before.len() >= 1,
        pushed(before, id, after),
    ensures
        popped(after) == before,
{
}

/// Going back never closes the first view.
pub proof fn law_pop_keeps_first(s: Seq<StateItem>)
    requires
        s.len() >= 1,
    ensures
        popped(s).len() >= 1,
        popped(s)[0] == s[0],
{
}

/// Going back to the first view twice is going back once.
pub proof fn law_reset_idempotent(s: Seq<StateItem>)
    ensures
        ({
            let once = s.take(if s.len() > 0 { 1int } else { 0int });
            once.take(if once.len() > 0 { 1int } else { 0int }) == once
        }),
{
    let once = s.take(if s.len() > 0 { 1int } else { 0int });
    assert(once.take(if once.len() > 0 { 1int } else { 0int }) =~= once);
}

// ------------------------------------------------------------- shortcuts

/// A keystroke that triggers an action.
#[derive(Clone, Debug)]
pub struct Shortcut {
    pub inner: Keystroke,
}

impl Shortcut {
    /// The shortcut of `key` alone.
    pub fn new(key: &str) -> (r: Shortcut)
        ensures
            r.inner.key@ == key@,
            r.inner.modifiers == Modifiers::none_spec(),
            r.inner.ime_key is None,
    {
        Shortcut { inner: Keystroke::new(key) }
    }

    /// The shortcut of a keystroke.
    pub fn from(keystroke: &Keystroke) -> (r: Shortcut)
        ensures
            same_keystroke(r.inner, *keystroke),
    {
        let ime_key = match &keystroke.ime_key {
            Some(k) => Some(k.clone()),
            None => None,
        };
        Shortcut {
            inner: Keystroke { modifiers: keystroke.modifiers, key: keystroke.key.clone(), ime_key },
        }
    }

    /// Adds the command key on macOS, control elsewhere.
    pub fn cmd(self, macos: bool) -> (r: Shortcut)
        ensures
            r.inner.key == self.inner.key,
            r.inner.ime_key == self.inner.ime_key,
            r.inner.modifiers == if macos {
                (Modifiers { platform: true, ..self.inner.modifiers })
            } else {
                (Modifiers { control: true, ..self.inner.modifiers })
            },
    {
        let mut s = self;
        if macos {
            s.inner.modifiers.platform = true;
        } else {
            s.inner.modifiers.control = true;
        }
        s
    }

    /// Adds control on macOS, the platform key elsewhere.
    pub fn ctrl(self, macos: bool) -> (r: Shortcut)
        ensures
            r.inner.key == self.inner.key,
            r.inner.ime_key == self.inner.ime_key,
            r.inner.modifiers == if macos {
                (Modifiers { control: true, ..self.inner.modifiers })
            } else {
                (Modifiers { platform: true, ..self.inner.modifiers })
            },
    {
        let mut s = self;
        if macos {
            s.inner.modifiers.control = true;
        } else {
            s.inner.modifiers.platform = true;
        }
        s
    }

    /// Adds shift.
    pub fn shift(self) -> (r: Shortcut)
        ensures
            r.inner.key == self.inner.key,
            r.inner.ime_key == self.inner.ime_key,
            r.inner.modifiers == (Modifiers { shift: true, ..self.inner.modifiers }),
    {
        let mut s = self;
        s.inner.modifiers.shift = true;
        s
    }

    /// Adds alt.
    pub fn alt(self) -> (r: Shortcut)
        ensures
            r.inner.key == self.inner.key,
            r.inner.ime_key == self.inner.ime_key,
            r.inner.modifiers == (Modifiers { alt: true, ..self.inner.modifiers }),
    {
        let mut s = self;
        s.inner.modifiers.alt = true;
        s
    }

    /// The keystroke.
    pub fn get(&self) -> (r: Keystroke)
        ensures
            same_keystroke(r, self.inner),
    {
        Shortcut::from(&self.inner).inner
    }
}

// --------------------------------------------------------------- actions

/// An action offered for the current view. What running it does is kept
/// beside it by the caller; the library decides which action runs.
#[derive(Clone, Debug)]
pub struct Action {
    pub label: String,
    pub shortcut: Option<Shortcut>,
    /// Hidden from the actions list (still reachable by its shortcut).
    pub hide: bool,
}

impl Action {
    pub fn new(label: &str, shortcut: Option<Shortcut>, hide: bool) -> (r: Action)
        ensures
            r.label@ == label@,
            r.shortcut == shortcut,
            r.hide == hide,
    {
        Action { label: label.to_owned(), shortcut, hide }
    }
}

/// `a` is a visible action labelled `label`, bound to the key and
/// modifiers of `shortcut` where there is one, else to no shortcut.
pub open spec fn action_is(a: Action, label: Seq<char>, shortcut: Option<(Seq<char>, Modifiers)>) -> bool {
    &&& a.label@ == label
    &&& !a.hide
    &&& match shortcut {
        None => a.shortcut is None,
        Some((key, modifiers)) => a.shortcut matches Some(s) && s.inner.key@ == key && s.inner.modifiers
            == modifiers && s.inner.ime_key is None,
    }
}

/// The label of the action that opens the actions list.
pub open spec fn actions_label() -> Seq<char> {
    "Actions"@
}

/// The value after `value` among the items, wrapping around (after the
/// first item when `value` is not an item's).
pub open spec fn next_value(items: Seq<(String, String)>, value: Seq<char>) -> Seq<char> {
    let index = match first_with_value(items, value) {
        Some(i) => i,
        None => 0,
    };
    items[(index + 1) % (items.len() as int)].0@
}

/// The dropdown beside the query: a chosen value among `(value, label)`
/// items.
#[derive(Clone, Debug)]
pub struct Dropdown {
    pub value: String,
    pub items: Vec<(String, String)>,
}

/// Index of the first item whose value is `value`, if any.
pub open spec fn first_with_value(items: Seq<(String, String)>, value: Seq<char>) -> Option<int> {
    if exists|i: int| 0 <= i < items.len() && (#[trigger] items[i]).0@ == value {
        let i = choose|i: int|
            0 <= i < items.len() && (#[trigger] items[i]).0@ == value && forall|j: int|
                0 <= j < i ==> (#[trigger] items[j]).0@ != value;
        Some(i)
    } else {
        None
    }
}

/// The actions of the current view: those of the selected item (`local`)
/// and those of the view (`global`).
#[derive(Clone, Debug)]
pub struct Actions {
    pub global: Vec<Action>,
    pub local: Vec<Action>,
    /// Whether the actions list is open.
    pub show: bool,
    pub toast: Toast,
    pub dropdown: Dropdown,
}

/// The shortcut of keystroke `key` with `modifiers` and no input-method text.
pub open spec fn is_shortcut_of(s: Option<Shortcut>, key: Seq<char>, modifiers: Modifiers) -> bool {
    s matches Some(sc) && sc.inner.key@ == key && sc.inner.modifiers == modifiers && sc.inner.ime_key is None
}

/// `r` is `local ++ global` where, when that is not empty, the first action
/// runs on `enter` and a hidden "Actions" action on the shortcut modifier
/// with `k` is appended.
pub open spec fn is_combined(local: Seq<Action>, global: Seq<Action>, macos: bool, r: Seq<Action>) -> bool {
    let all = local + global;
    if all.len() == 0 {
        r.len() == 0
    } else {
        let cmd = if macos {
            Modifiers { platform: true, ..Modifiers::none_spec() }
        } else {
            Modifiers { control: true, ..Modifiers::none_spec() }
        };
        &&& r.len() == all.len() + 1
        &&& r[0].label == all[0].label && r[0].hide == all[0].hide
        &&& is_shortcut_of(r[0].shortcut, "enter"@, Modifiers::none_spec())
        &&& forall|i: int| 1 <= i < all.len() ==> #[trigger] r[i] == all[i]
        &&& r[all.len() as int].label@ == actions_label()
        &&& r[all.len() as int].hide
        &&& is_shortcut_of(r[all.len() as int].shortcut, "k"@, cmd)
    }
}

impl Actions {
    /// No actions, the list closed, no toast, an empty dropdown.
    pub fn new() -> (r: Actions)
        ensures
            r.global@.len() == 0,
            r.local@.len() == 0,
            !r.show,
            r.toast.state is Idle,
            r.dropdown.value@ == Seq::<char>::empty(),
            r.dropdown.items@.len() == 0,
    {
        Actions {
            global: Vec::new(),
            local: Vec::new(),
            show: false,
            toast: Toast::init(),
            dropdown: Dropdown { value: String::new(), items: Vec::new() },
        }
    }

    /// Every action of the view, in the order they are offered.
    pub fn combined(&self, macos: bool) -> (r: Vec<Action>)
        ensures
            is_combined(self.local@, self.global@, macos, r@),
    {
        let mut combined: Vec<Action> = Vec::new();
        let mut i: usize = 0;
        while i < self.local.len()
            invariant
                i <= self.local@.len(),
                combined@ == self.local@.take(i as int),
            decreases self.local.len() - i,
        {
            combined.push(self.local[i].clone_action());
            i = i + 1;
            proof {
                assert(combined@ =~= self.local@.take(i as int));
            }
        }
        let mut j: usize = 0;
        while j < self.global.len()
            invariant
                i == self.local@.len(),
                j <= self.global@.len(),
                combined@ == self.local@ + self.global@.take(j as int),
            decreases self.global.len() - j,
        {
            combined.push(self.global[j].clone_action());
            j = j + 1;
            proof {
                assert(combined@ =~= self.local@ + self.global@.take(j as int));
            }
        }
        proof {
            assert(self.global@.take(j as int) =~= self.global@);
            assert(self.local@.take(i as int) =~= self.local@);
        }
        if combined.len() > 0 {
            let first = combined[0].clone_action();
            combined.set(0, Action { label: first.label, shortcut: Some(Shortcut::new("enter")), hide: first.hide });
            combined.push(Action::new("Actions", Some(Shortcut::new("k").cmd(macos)), true));
        }
        combined
    }

    /// The first action whose shortcut is `keystroke`, with its index in
    /// `combined`.
    pub fn check(&self, keystroke: &Keystroke, macos: bool) -> (r: Option<(usize, Action)>)
        ensures
            exists|all: Seq<Action>|
                #![trigger is_combined(self.local@, self.global@, macos, all)]
                {
                    &&& is_combined(self.local@, self.global@, macos, all)
                    &&& match r {
                        Some((i, a)) => {
                            &&& i < all.len()
                            &&& a == all[i as int]
                            &&& all[i as int].shortcut matches Some(s) && same_keystroke(s.inner, *keystroke)
                            &&& forall|j: int|
                                0 <= j < i ==> !(#[trigger] all[j].shortcut matches Some(s) && same_keystroke(
                                    s.inner,
                                    *keystroke,
                                ))
                        },
                        None => forall|j: int|
                            0 <= j < all.len() ==> !(#[trigger] all[j].shortcut matches Some(s)
                                && same_keystroke(s.inner, *keystroke)),
                    }
                },
    {
        let actions = self.combined(macos);
        let ghost all = actions@;
        let mut i: usize = 0;
        while i < actions.len()
            invariant
                i <= actions@.len(),
                all == actions@,
                is_combined(self.local@, self.global@, macos, all),
                forall|j: int|
                    0 <= j < i ==> !(#[trigger] actions@[j].shortcut matches Some(s) && same_keystroke(
                        s.inner,
                        *keystroke,
                    )),
            decreases actions.len() - i,
        {
            if let Some(shortcut) = &actions[i].shortcut {
                if shortcut.inner.same_as(keystroke) {
                    return Some((i, actions[i].clone_action()));
                }
            }
            i = i + 1;
        }
        None
    }

    /// The "Actions" action: opens or closes the actions list.
    pub fn toggle_show(&mut self)
        ensures
            final(self).show == !old(self).show,
            final(self).global == old(self).global,
            final(self).local == old(self).local,
    {
        self.show = !self.show;
    }

    /// Closes the actions list.
    pub fn close_list(&mut self)
        ensures
            !final(self).show,
            final(self).global == old(self).global,
            final(self).local == old(self).local,
    {
        self.show = false;
    }

    /// Replaces the view's own actions.
    pub fn update_global(&mut self, actions: Vec<Action>)
        ensures
            final(self).global == actions,
            final(self).local == old(self).local,
            final(self).show == old(self).show,
    {
        self.global = actions;
    }

    /// Replaces the selected item's actions.
    pub fn update_local(&mut self, actions: Vec<Action>)
        ensures
            final(self).local == actions,
            final(self).global == old(self).global,
            final(self).show == old(self).show,
    {
        self.local = actions;
    }

    /// Nothing selected: no item actions.
    pub fn clear_local(&mut self)
        ensures
            final(self).local@.len() == 0,
            final(self).global == old(self).global,
            final(self).show == old(self).show,
    {
        self.local.clear();
    }

    /// Chooses `value` in the dropdown when it is one of the items' values,
    /// or clears the choice when `value` is empty; any other value is
    /// ignored.
    pub fn set_dropdown_value(&mut self, value: &str)
        ensures
            final(self).dropdown.items == old(self).dropdown.items,
            final(self).dropdown.value@ == if value@.len() == 0 || (exists|i: int|
                0 <= i < old(self).dropdown.items@.len() && (#[trigger] old(self).dropdown.items@[i]).0@
                    == value@) {
                value@
            } else {
                old(self).dropdown.value@
            },
            final(self).global == old(self).global,
            final(self).local == old(self).local,
    {
        let chars = crate::chars::chars_of(value);
        if chars.len() > 0 {
            let mut i: usize = 0;
            while i < self.dropdown.items.len()
                invariant
                    i <= self.dropdown.items@.len(),
                    self.dropdown == old(self).dropdown,
                    self.global == old(self).global,
                    self.local == old(self).local,
                    forall|j: int| 0 <= j < i ==> (#[trigger] self.dropdown.items@[j]).0@ != value@,
                decreases self.dropdown.items.len() - i,
            {
                if same_str(self.dropdown.items[i].0.as_str(), value) {
                    self.dropdown.value = value.to_owned();
                    return;
                }
                i = i + 1;
            }
        } else {
            self.dropdown.value = value.to_owned();
        }
    }

    /// Moves the dropdown to the item after the chosen one (after the first
    /// item when the chosen value is not an item's), wrapping around.
    pub fn dropdown_cycle(&mut self)
        ensures
            final(self).dropdown.items == old(self).dropdown.items,
            old(self).dropdown.items@.len() == 0 ==> final(self).dropdown.value == old(self).dropdown.value,
            old(self).dropdown.items@.len() > 0 ==> final(self).dropdown.value@ == next_value(
                old(self).dropdown.items@,
                old(self).dropdown.value@,
            ),
            final(self).global == old(self).global,
            final(self).local == old(self).local,
            final(self).show == old(self).show,
    {
        let n = self.dropdown.items.len();
        if n == 0 {
            return;
        }
        let mut index: usize = 0;
        let mut i: usize = 0;
        let mut found = false;
        while i < n
            invariant
                n == self.dropdown.items@.len(),
                i <= n,
                !found ==> index == 0,
                !found ==> forall|j: int| 0 <= j < i ==> (#[trigger] self.dropdown.items@[j]).0@ != self.dropdown.value@,
                found ==> index < n && self.dropdown.items@[index as int].0@ == self.dropdown.value@,
                found ==> forall|j: int| 0 <= j < index ==> (#[trigger] self.dropdown.items@[j]).0@ != self.dropdown.value@,
            decreases n - i,
        {
            if !found && same_str(self.dropdown.items[i].0.as_str(), self.dropdown.value.as_str()) {
                index = i;
                found = true;
            }
            i = i + 1;
        }
        proof {
            let items = self.dropdown.items@;
            let v = self.dropdown.value@;
            if found {
                let c = choose|c: int|
                    0 <= c < items.len() && (#[trigger] items[c]).0@ == v && forall|j: int|
                        0 <= j < c ==> (#[trigger] items[j]).0@ != v;
                if c < index {
                    assert(items[c].0@ != v);
                }
                if c > index {
                    assert(items[index as int].0@ != v);
                }
                assert(c == index);
            } else {
                assert(!(exists|c: int| 0 <= c < items.len() && (#[trigger] items[c]).0@ == v));
            }
        }
        let next = (index + 1) % n;
        self.dropdown.value = self.dropdown.items[next].0.clone();
    }

    /// Sets the dropdown's items, then its value as `set_dropdown_value` does.
    pub fn set_dropdown(&mut self, value: &str, items: Vec<(String, String)>)
        ensures
            final(self).dropdown.items == items,
            final(self).dropdown.value@ == if value@.len() == 0 || (exists|i: int|
                0 <= i < items@.len() && (#[trigger] items@[i]).0@ == value@) {
                value@
            } else {
                old(self).dropdown.value@
            },
            final(self).global == old(self).global,
            final(self).local == old(self).local,
    {
        self.dropdown.items = items;
        self.set_dropdown_value(value);
    }

    /// The dropdown's chosen value.
    pub fn get_dropdown_value(&self) -> (r: String)
        ensures
            r@ == self.dropdown.value@,
    {
        self.dropdown.value.clone()
    }
}

impl Dropdown {
    /// The label of the chosen item, if the chosen value is an item's; none
    /// when there are no items.
    pub fn label(&self) -> (r: Option<String>)
        ensures
            match first_with_value(self.items@, self.value@) {
                Some(i) => r is Some && r->0@ == self.items@[i].1@,
                None => r is None,
            },
    {
        let mut i: usize = 0;
        while i < self.items.len()
            invariant
                i <= self.items@.len(),
                forall|j: int| 0 <= j < i ==> (#[trigger] self.items@[j]).0@ != self.value@,
            decreases self.items.len() - i,
        {
            if same_str(self.items[i].0.as_str(), self.value.as_str()) {
                proof {
                    let c = choose|c: int|
                        0 <= c < self.items@.len() && (#[trigger] self.items@[c]).0@ == self.value@
                            && forall|j: int| 0 <= j < c ==> (#[trigger] self.items@[j]).0@ != self.value@;
                    assert(c == i);
                }
                return Some(self.items[i].1.clone());
            }
            i = i + 1;
        }
        None
    }
}

impl Action {
    /// A copy of the action.
    pub fn clone_action(&self) -> (r: Action)
        ensures
            r == *self,
    {
        Action {
            label: self.label.clone(),
            shortcut: match &self.shortcut {
                Some(s) => Some(s.clone_shortcut()),
                None => None,
            },
            hide: self.hide,
        }
    }
}

impl Shortcut {
    /// A copy of the shortcut.
    pub fn clone_shortcut(&self) -> (r: Shortcut)
        ensures
            r == *self,
    {
        Shortcut {
            inner: Keystroke {
                modifiers: self.inner.modifiers,
                key: self.inner.key.clone(),
                ime_key: match &self.inner.ime_key {
                    Some(k) => Some(k.clone()),
                    None => None,
                },
            },
        }
    }
}

// -------------------------------------------------------------- windows

/// Whether the launcher's window is hidden.
pub struct Window {
    pub hidden: bool,
}

impl Window {
    pub fn init() -> (r: Window)
        ensures
            !r.hidden,
    {
        Window { hidden: false }
    }

    /// Shows the window; tells whether it was hidden (and so must be
    /// activated).
    pub fn open(&mut self) -> (r: bool)
        ensures
            !final(self).hidden,
            r == old(self).hidden,
    {
        let was = self.hidden;
        self.hidden = false;
        was
    }

    /// Hides the window.
    pub fn close(&mut self)
        ensures
            final(self).hidden,
    {
        self.hidden = true;
    }
}

/// Whether the clipboard history records new entries; paused while the
/// launcher pastes.
pub struct ClipboardWatcher {
    pub enabled: bool,
}

impl ClipboardWatcher {
    pub fn init() -> (r: ClipboardWatcher)
        ensures
            r.enabled,
    {
        ClipboardWatcher { enabled: true }
    }

    pub fn enabled(&mut self)
        ensures
            final(self).enabled,
    {
        self.enabled = true;
    }

    pub fn disabled(&mut self)
        ensures
            !final(self).enabled,
    {
        self.enabled = false;
    }

    pub fn is_enabled(&self) -> (r: bool)
        ensures
            r == self.enabled,
    {
        self.enabled
    }
}

// ------------------------------------------------------------- loaders

/// The loading bar: shown while any loader is active; `timestamp` is when
/// it last appeared or disappeared.
pub struct LoaderState {
    pub show: bool,
    pub timestamp: u64,
    /// The loaders, by id, and whether each is still active.
    pub loaders: Vec<(u64, bool)>,
    pub next_id: u64,
}

impl LoaderState {
    pub fn new(now: u64) -> (r: LoaderState)
        ensures
            !r.show,
            r.timestamp == now,
            r.loaders@.len() == 0,
            r.next_id == 0,
    {
        LoaderState { show: false, timestamp: now, loaders: Vec::new(), next_id: 0 }
    }

    /// Starts a loader; returns its id.
    pub fn add(&mut self) -> (id: u64)
        requires
            old(self).next_id < u64::MAX,
        ensures
            id == old(self).next_id,
            final(self).next_id == old(self).next_id + 1,
            final(self).loaders@ == old(self).loaders@.push((id, true)),
            final(self).show == old(self).show,
            final(self).timestamp == old(self).timestamp,
    {
        let id = self.next_id;
        self.loaders.push((id, true));
        self.next_id = id + 1;
        id
    }

    /// Stops loader `id` and forgets every stopped loader.
    pub fn remove(&mut self, id: u64)
        ensures
            final(self).loaders@ == old(self).loaders@.filter(|l: (u64, bool)| l.1 && l.0 != id),
            final(self).show == old(self).show,
            final(self).timestamp == old(self).timestamp,
            final(self).next_id == old(self).next_id,
    {
        let ghost keep = |l: (u64, bool)| l.1 && l.0 != id;
        let mut kept: Vec<(u64, bool)> = Vec::new();
        let mut i: usize = 0;
        while i < self.loaders.len()
            invariant
                i <= self.loaders@.len(),
                keep == (|l: (u64, bool)| l.1 && l.0 != id),
                kept@ == self.loaders@.take(i as int).filter(keep),
            decreases self.loaders.len() - i,
        {
            reveal_with_fuel(Seq::<(u64, bool)>::filter, 1);
            let (lid, active) = self.loaders[i];
            proof {
                assert(self.loaders@.take(i + 1).drop_last() =~= self.loaders@.take(i as int));
            }
            if active && lid != id {
                kept.push((lid, active));
            }
            i = i + 1;
        }
        proof {
            assert(self.loaders@.take(i as int) =~= self.loaders@);
        }
        self.loaders = kept;
    }

    /// Whether the bar shows, and since when: it shows exactly while some
    /// loader is active, and the time moves to `now` when that changes.
    pub fn get(&mut self, now: u64) -> (r: (bool, u64))
        ensures
            ({
                let active = exists|i: int| 0 <= i < old(self).loaders@.len() && (#[trigger] old(self).loaders@[i]).1;
                &&& final(self).show == active
                &&& final(self).timestamp == if active != old(self).show {
                    now
                } else {
                    old(self).timestamp
                }
                &&& r == (final(self).show, final(self).timestamp)
            }),
            final(self).loaders == old(self).loaders,
    {
        let mut active = false;
        let mut i: usize = 0;
        while i < self.loaders.len()
            invariant
                i <= self.loaders@.len(),
                active == exists|k: int| 0 <= k < i && (#[trigger] self.loaders@[k]).1,
            decreases self.loaders.len() - i,
        {
            if self.loaders[i].1 {
                active = true;
            }
            i = i + 1;
        }
        if self.show != active {
            self.show = active;
            self.timestamp = now;
        }
        (self.show, self.timestamp)
    }
}

/// Cycling the dropdown always lands on one of its items.
pub proof fn law_cycle_in_items(items: Seq<(String, String)>, value: Seq<char>)
    requires
        items.len() > 0,
    ensures
        exists|i: int| 0 <= i < items.len() && (#[trigger] items[i]).0@ == next_value(items, value),
{
    let index = match first_with_value(items, value) {
        Some(i) => i,
        None => 0,
    };
    let k = (index + 1) % (items.len() as int);
    assert(0 <= k < items.len());
    assert(items[k].0@ == next_value(items, value));
}

/// Keeping the loaders that `keep` accepts keeps all of them where it
/// accepts each.
proof fn lemma_filter_all(loaders: Seq<(u64, bool)>, id: u64)
    requires
        forall|k: int| 0 <= k < loaders.len() ==> (#[trigger] loaders[k]).1 && loaders[k].0 != id,
    ensures
        loaders.filter(|l: (u64, bool)| l.1 && l.0 != id) == loaders,
    decreases loaders.len(),
{
    if loaders.len() > 0 {
        let init = loaders.drop_last();
        assert forall|k: int| 0 <= k < init.len() implies (#[trigger] init[k]).1 && init[k].0 != id by {
            assert(init[k] == loaders[k]);
        }
        lemma_filter_all(init, id);
        assert(loaders =~= init.push(loaders.last()));
        init.lemma_filter_push(loaders.last(), |l: (u64, bool)| l.1 && l.0 != id);
    } else {
        assert(loaders.filter(|l: (u64, bool)| l.1 && l.0 != id) =~= loaders);
    }
}

/// A loader started and stopped again leaves the other loaders as they
/// were, where they are all active and were started before it.
pub proof fn law_add_then_remove(loaders: Seq<(u64, bool)>, next_id: u64)
    requires
        forall|k: int| 0 <= k < loaders.len() ==> (#[trigger] loaders[k]).1 && loaders[k].0 < next_id,
    ensures
        loaders.push((next_id, true)).filter(|l: (u64, bool)| l.1 && l.0 != next_id) == loaders,
{
    lemma_filter_all(loaders, next_id);
    loaders.lemma_filter_push((next_id, true), |l: (u64, bool)| l.1 && l.0 != next_id);
}

} // verus!
