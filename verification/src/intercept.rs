//! The intercepted keys and the action each of them is mapped to.

use vstd::prelude::*;

verus! {

/// Key code of the backward side button of a mouse.
pub const BTN_SIDE: u16 = 275;

/// Key code of the forward side button of a mouse.
pub const BTN_EXTRA: u16 = 276;

/// The actions an intercepted key can be mapped to.
#[derive(Clone, Copy, Debug, PartialEq, Eq, Structural)]
pub enum Action {
    /// Copy the current selection to the clipboard.
    Copy,
    /// Show the clipboard history panel.
    ShowClipboard,
}

/// One intercepted key with its action.
#[derive(Clone, Copy, Debug, PartialEq, Eq, Structural)]
pub struct KeyBinding {
    pub key: u16,
    pub action: Action,
}

/// The action of the first binding of `key` in `bindings`, if it has one.
pub open spec fn first_action(bindings: Seq<KeyBinding>, key: u16) -> Option<Action>
    decreases bindings.len(),
{
    if bindings.len() == 0 {
        None
    } else {
        match first_action(bindings.drop_last(), key) {
            Some(action) => Some(action),
            None => if bindings.last().key == key {
                Some(bindings.last().action)
            } else {
                None
            },
        }
    }
}

/// The map from key to action that a list of bindings stands for.
pub open spec fn bindings_map(bindings: Seq<KeyBinding>) -> Map<u16, Action> {
    Map::new(
        |key: u16| first_action(bindings, key) is Some,
        |key: u16| first_action(bindings, key).unwrap(),
    )
}

/// A key is mapped exactly if some binding names it.
pub proof fn lemma_first_action_some(bindings: Seq<KeyBinding>, key: u16)
    ensures
        first_action(bindings, key) is Some <==> exists|i: int|
            0 <= i < bindings.len() && #[trigger] bindings[i].key == key,
    decreases bindings.len(),
{
    if bindings.len() > 0 {
        let shorter = bindings.drop_last();
        lemma_first_action_some(shorter, key);
        if first_action(shorter, key) is Some {
            let i = choose|i: int| 0 <= i < shorter.len() && #[trigger] shorter[i].key == key;
            assert(bindings[i].key == key);
        } else if bindings.last().key == key {
            assert(bindings[bindings.len() - 1].key == key);
        } else {
            if exists|i: int| 0 <= i < bindings.len() && #[trigger] bindings[i].key == key {
                let i = choose|i: int| 0 <= i < bindings.len() && #[trigger] bindings[i].key == key;
                assert(shorter[i].key == key);
            }
        }
    }
}

/// A binding found in a prefix stays the first one in the whole list.
pub proof fn lemma_first_action_prefix(bindings: Seq<KeyBinding>, n: int, key: u16)
    requires
        0 <= n <= bindings.len(),
        first_action(bindings.take(n), key) is Some,
    ensures
        first_action(bindings, key) == first_action(bindings.take(n), key),
    decreases bindings.len() - n,
{
    if n < bindings.len() {
        assert(bindings.take(n + 1).drop_last() =~= bindings.take(n));
        lemma_first_action_prefix(bindings, n + 1, key);
    } else {
        assert(bindings.take(n) =~= bindings);
    }
}

/// The set of intercepted keys, each mapped to exactly one action.
#[derive(Debug)]
pub struct InterceptedKeys {
    bindings: Vec<KeyBinding>,
}

impl View for InterceptedKeys {
    type V = Map<u16, Action>;

    closed spec fn view(&self) -> Map<u16, Action> {
        bindings_map(self.bindings@)
    }
}

impl InterceptedKeys {
    /// The bindings in the order in which they were added.
    pub closed spec fn listing(&self) -> Seq<KeyBinding> {
        self.bindings@
    }

    /// The view is the map that the listing stands for.
    pub proof fn lemma_view_of_listing(&self)
        ensures
            self@ == bindings_map(self.listing()),
    {
    }

    /// A set that intercepts nothing.
    pub fn new() -> (keys: InterceptedKeys)
        ensures
            keys@ == Map::<u16, Action>::empty(),
            keys.listing() == Seq::<KeyBinding>::empty(),
    {
        let keys = InterceptedKeys { bindings: Vec::new() };
        assert(keys@ =~= Map::<u16, Action>::empty());
        keys
    }

    /// The action that `key` is mapped to, if it is intercepted.
    pub fn action_for(&self, key: u16) -> (action: Option<Action>)
        ensures
            action == (if self@.contains_key(key) {
                Some(self@[key])
            } else {
                None::<Action>
            }),
    {
        let mut i: usize = 0;
        while i < self.bindings.len()
            invariant
                i <= self.bindings.len(),
                first_action(self.bindings@.take(i as int), key) is None,
            decreases self.bindings.len() - i,
        {
            let binding = self.bindings[i];
            proof {
                assert(self.bindings@.take(i + 1).drop_last() =~= self.bindings@.take(i as int));
            }
            if binding.key == key {
                proof {
                    lemma_first_action_prefix(self.bindings@, i + 1, key);
                }
                return Some(binding.action);
            }
            i = i + 1;
        }
        proof {
            assert(self.bindings@.take(i as int) =~= self.bindings@);
        }
        None
    }

    /// Whether `key` is intercepted.
    pub fn contains(&self, key: u16) -> (found: bool)
        ensures
            found == self@.contains_key(key),
    {
        self.action_for(key).is_some()
    }

    /// Maps `key` to `action` unless the key is mapped already.
    pub fn bind(&mut self, key: u16, action: Action) -> (added: bool)
        ensures
            added == !old(self)@.contains_key(key),
            added ==> final(self)@ == old(self)@.insert(key, action),
            added ==> final(self).listing() == old(self).listing().push(KeyBinding { key, action }),
            !added ==> *final(self) == *old(self),
    {
        if self.contains(key) {
            return false;
        }
        let ghost before = self.bindings@;
        self.bindings.push(KeyBinding { key, action });
        proof {
            let after = self.bindings@;
            assert(after.drop_last() =~= before);
            assert forall|k: u16| #[trigger]
                first_action(after, k) == (if k == key {
                    Some(action)
                } else {
                    first_action(before, k)
                }) by {}
            assert(bindings_map(after) =~= bindings_map(before).insert(key, action));
        }
        true
    }

    /// The number of bindings in the listing.
    pub fn len(&self) -> (n: usize)
        ensures
            n == self.listing().len(),
    {
        self.bindings.len()
    }

    /// The binding at position `i` of the listing.
    pub fn binding_at(&self, i: usize) -> (binding: KeyBinding)
        requires
            i < self.listing().len(),
        ensures
            binding == self.listing()[i as int],
    {
        self.bindings[i]
    }
}

} // verus!
