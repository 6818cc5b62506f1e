//! The hotkey registrar as a state machine. The underlying hook binds a
//! callback per main key, so replacing a binding must unbind the previous
//! main key before binding the new one; skipping that leaks a stale,
//! silently firing callback. The registrar decides the exact actions; the
//! application performs them on the real hook.
use vstd::prelude::*;

use crate::hotkey::Key;

verus! {

/// One chord: the main key and the modifier keys that must be held.
#[derive(Clone, PartialEq, Eq, Debug)]
pub struct HotkeyBinding {
    pub main: Key,
    pub mods: Vec<Key>,
}

/// An instruction to the real keyboard hook.
#[derive(Clone, PartialEq, Eq, Debug)]
pub enum HookAction {
    Unbind(Key),
    Bind(Key, Vec<Key>),
}

/// The registrar: at most one binding is active at a time.
pub struct Registrar {
    pub current: Option<HotkeyBinding>,
}

/// The set of main keys with an installed callback, after one action.
pub open spec fn apply_action(active: Set<Key>, a: HookAction) -> Set<Key> {
    match a {
        HookAction::Unbind(k) => active.remove(k),
        HookAction::Bind(k, _) => active.insert(k),
    }
}

/// The set of main keys with an installed callback, after a sequence of
/// actions.
pub open spec fn apply_actions(active: Set<Key>, acts: Seq<HookAction>) -> Set<Key>
    decreases acts.len(),
{
    if acts.len() == 0 {
        active
    } else {
        apply_actions(apply_action(active, acts[0]), acts.drop_first())
    }
}

/// The hook state the registrar believes: exactly the current main key is
/// bound, or nothing.
pub open spec fn registrar_active(r: Registrar) -> Set<Key> {
    match r.current {
        None => Set::empty(),
        Some(b) => Set::empty().insert(b.main),
    }
}

/// `a` binds `main` with the modifier keys `mods`.
pub open spec fn is_bind(a: HookAction, main: Key, mods: Seq<Key>) -> bool {
    match a {
        HookAction::Bind(k, m) => k == main && m@ == mods,
        _ => false,
    }
}

/// `a` unbinds `main`.
pub open spec fn is_unbind(a: HookAction, main: Key) -> bool {
    a == HookAction::Unbind(main)
}

fn copy_keys(v: &Vec<Key>) -> (r: Vec<Key>)
    ensures
        r@ == v@,
{
    let n = v.len();
    let mut r: Vec<Key> = Vec::new();
    let mut i: usize = 0;
    while i < n
        invariant
            0 <= i <= n,
            n == v@.len(),
            r@ == v@.take(i as int),
        decreases n - i,
    {
        r.push(v[i]);
        proof {
            assert(v@.take(i as int + 1) =~= v@.take(i as int).push(v@[i as int]));
        }
        i += 1;
    }
    proof {
        assert(v@.take(n as int) =~= v@);
    }
    r
}

impl Registrar {
    /// A registrar with nothing bound.
    pub fn new() -> (r: Registrar)
        ensures
            r.current is None,
    {
        Registrar { current: None }
    }

    /// Replace the active binding: unbind the previous main key first (if
    /// any), then bind the new chord.
    pub fn rebind(&mut self, new_main: Key, new_mods: Vec<Key>) -> (acts: Vec<HookAction>)
        ensures
            final(self).current is Some,
            final(self).current->Some_0.main == new_main,
            final(self).current->Some_0.mods@ == new_mods@,
            old(self).current is None ==> acts@.len() == 1 && is_bind(
                acts@[0],
                new_main,
                new_mods@,
            ),
            old(self).current is Some ==> acts@.len() == 2 && is_unbind(
                acts@[0],
                old(self).current->Some_0.main,
            ) && is_bind(acts@[1], new_main, new_mods@),
    {
        let mut acts: Vec<HookAction> = Vec::new();
        match &self.current {
            Some(b) => {
                acts.push(HookAction::Unbind(b.main));
            },
            None => {},
        }
        let mods_for_hook = copy_keys(&new_mods);
        acts.push(HookAction::Bind(new_main, mods_for_hook));
        self.current = Some(HotkeyBinding { main: new_main, mods: new_mods });
        acts
    }
}

/// Rebinding leaves exactly one active binding: whatever single key was
/// bound before, after the rebind actions run on the hook, the new main
/// key is bound and nothing else — the old and the new chord never both
/// fire.
pub proof fn lemma_rebind_single_binding(
    before: Registrar,
    after: Registrar,
    acts: Seq<HookAction>,
    new_main: Key,
    new_mods: Seq<Key>,
)
    requires
        after.current is Some,
        after.current->Some_0.main == new_main,
        before.current is None ==> acts.len() == 1 && is_bind(acts[0], new_main, new_mods),
        before.current is Some ==> acts.len() == 2 && is_unbind(
            acts[0],
            before.current->Some_0.main,
        ) && is_bind(acts[1], new_main, new_mods),
    ensures
        apply_actions(registrar_active(before), acts) =~= Set::empty().insert(new_main),
        apply_actions(registrar_active(before), acts) =~= registrar_active(after),
{
    reveal_with_fuel(apply_actions, 4);
    match before.current {
        None => {
            match acts[0] {
                HookAction::Bind(k, _) => {
                    assert(k == new_main);
                },
                HookAction::Unbind(_) => {
                    assert(false);
                },
            }
            assert(acts.drop_first() =~= Seq::<HookAction>::empty());
        },
        Some(b) => {
            assert(acts[0] == HookAction::Unbind(b.main));
            assert(registrar_active(before).remove(b.main) =~= Set::empty());
            match acts[1] {
                HookAction::Bind(k, _) => {
                    assert(k == new_main);
                },
                HookAction::Unbind(_) => {
                    assert(false);
                },
            }
            assert(acts.drop_first()[0] == acts[1]);
            assert(acts.drop_first().drop_first() =~= Seq::<HookAction>::empty());
        },
    }
}

/// A chord fires only when every modifier key is currently held.
pub fn chord_satisfied(mods: &Vec<Key>, held: &Vec<Key>) -> (r: bool)
    ensures
        r == forall|i: int| 0 <= i < mods@.len() ==> held@.contains(mods@[i]),
{
    let n = mods.len();
    let mut i: usize = 0;
    while i < n
        invariant
            0 <= i <= n,
            n == mods@.len(),
            forall|j: int| 0 <= j < i ==> held@.contains(mods@[j]),
        decreases n - i,
    {
        if !key_held(held, mods[i]) {
            return false;
        }
        i += 1;
    }
    true
}

fn key_held(held: &Vec<Key>, k: Key) -> (r: bool)
    ensures
        r == held@.contains(k),
{
    let n = held.len();
    let mut i: usize = 0;
    while i < n
        invariant
            0 <= i <= n,
            n == held@.len(),
            forall|j: int| 0 <= j < i ==> held@[j] != k,
        decreases n - i,
    {
        if held[i] == k {
            return true;
        }
        i += 1;
    }
    false
}

} // verus!
