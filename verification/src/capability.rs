//! Capability sets of devices, and the capabilities of the synthetic device
//! that mirrors a physical one.
//!
//! The sets are kept in the bit sets of the `evdev` crate. What such a bit set
//! does is stated here, not proved: see [`KeySet`] and [`AxisSet`].

use crate::intercept::{Action, InterceptedKeys};
use vstd::prelude::*;

verus! {

/// Key codes lie below this bound: a key bit set has one bit for each of them.
pub const KEY_CODE_LIMIT: u16 = 768;

/// Relative axis codes lie below this bound.
pub const AXIS_CODE_LIMIT: u16 = 16;

/// A set of key codes, held in an `evdev::AttributeSet<evdev::KeyCode>`.
/// The verifier does not look inside: it knows the set by [`key_set_codes`]
/// alone.
#[verifier::external_body]
#[derive(Debug)]
pub struct KeySet {
    bits: evdev::AttributeSet<evdev::KeyCode>,
}

/// A set of relative axis codes, held in an
/// `evdev::AttributeSet<evdev::RelativeAxisCode>`. The verifier knows the set
/// by [`axis_set_codes`] alone.
#[verifier::external_body]
#[derive(Debug)]
pub struct AxisSet {
    bits: evdev::AttributeSet<evdev::RelativeAxisCode>,
}

/// The key codes whose bit is raised in a [`KeySet`].
pub uninterp spec fn key_set_codes(set: KeySet) -> Set<u16>;

/// The axis codes whose bit is raised in an [`AxisSet`].
pub uninterp spec fn axis_set_codes(set: AxisSet) -> Set<u16>;

impl View for KeySet {
    type V = Set<u16>;

    open spec fn view(&self) -> Set<u16> {
        key_set_codes(*self)
    }
}

impl View for AxisSet {
    type V = Set<u16>;

    open spec fn view(&self) -> Set<u16> {
        axis_set_codes(*self)
    }
}

/// The codes among the first `n` of `codes` that lie below `limit` and
/// outside `dropped`.
spec fn kept_codes(codes: Seq<u16>, n: int, limit: u16, dropped: Set<u16>) -> Set<u16> {
    Set::new(
        |code: u16|
            code < limit && !dropped.contains(code) && exists|j: int|
                0 <= j < n && j < codes.len() && codes[j] == code,
    )
}

/// Taking one more code into account adds it to the kept codes or leaves them
/// as they are.
proof fn lemma_kept_codes_step(codes: Seq<u16>, n: int, limit: u16, dropped: Set<u16>)
    requires
        0 <= n < codes.len(),
    ensures
        kept_codes(codes, n + 1, limit, dropped) == (if codes[n] < limit && !dropped.contains(
            codes[n],
        ) {
            kept_codes(codes, n, limit, dropped).insert(codes[n])
        } else {
            kept_codes(codes, n, limit, dropped)
        }),
{
    let before = kept_codes(codes, n, limit, dropped);
    let after = kept_codes(codes, n + 1, limit, dropped);
    let expected = if codes[n] < limit && !dropped.contains(codes[n]) {
        before.insert(codes[n])
    } else {
        before
    };
    assert forall|code: u16| after.contains(code) <==> expected.contains(code) by {
        if after.contains(code) {
            let j = choose|j: int| 0 <= j < n + 1 && j < codes.len() && codes[j] == code;
            if j < n {
                assert(before.contains(code));
            }
        }
        if before.contains(code) {
            let j = choose|j: int| 0 <= j < n && j < codes.len() && codes[j] == code;
            assert(0 <= j < n + 1 && codes[j] == code);
        }
    }
    assert(after =~= expected);
}

impl KeySet {
    /// `evdev::AttributeSet::new`: a bit set with no bit raised.
    #[verifier::external_body]
    fn blank() -> (set: KeySet)
        ensures
            key_set_codes(set) == Set::<u16>::empty(),
    {
        KeySet { bits: evdev::AttributeSet::new() }
    }

    /// `evdev::AttributeSetRef::insert`: raises the bit of `code` and leaves
    /// every other bit as it is. The bit set has `KEY_CODE_LIMIT` bits, and
    /// a code beyond them would make the call panic.
    #[verifier::external_body]
    fn raise(&mut self, code: u16)
        requires
            code < KEY_CODE_LIMIT,
        ensures
            key_set_codes(*final(self)) == key_set_codes(*old(self)).insert(code),
    {
        self.bits.insert(evdev::KeyCode(code));
    }

    /// `evdev::AttributeSetRef::contains`: whether the bit of `code` is
    /// raised; a code beyond the bits of the set is not in it.
    #[verifier::external_body]
    fn holds(&self, code: u16) -> (found: bool)
        ensures
            found == key_set_codes(*self).contains(code),
    {
        self.bits.contains(evdev::KeyCode(code))
    }

    /// `evdev::AttributeSetRef::iter`: the codes whose bit is raised, each
    /// once, in ascending order; all of them are below `KEY_CODE_LIMIT`.
    #[verifier::external_body]
    fn raised(&self) -> (codes: Vec<u16>)
        ensures
            forall|i: int, j: int| 0 <= i < j < codes@.len() ==> codes@[i] < codes@[j],
            forall|i: int| 0 <= i < codes@.len() ==> codes@[i] < KEY_CODE_LIMIT,
            forall|code: u16| codes@.contains(code) <==> key_set_codes(*self).contains(code),
    {
        self.bits.iter().map(|key| key.0).collect()
    }

    /// The set of those of `codes` that are key codes.
    pub fn from_codes(codes: &Vec<u16>) -> (set: KeySet)
        ensures
            forall|code: u16|
                set@.contains(code) <==> code < KEY_CODE_LIMIT && codes@.contains(code),
    {
        let mut set = KeySet::blank();
        let mut i: usize = 0;
        proof {
            assert(kept_codes(codes@, 0, KEY_CODE_LIMIT, Set::empty()) =~= Set::<u16>::empty());
        }
        while i < codes.len()
            invariant
                i <= codes.len(),
                set@ == kept_codes(codes@, i as int, KEY_CODE_LIMIT, Set::empty()),
            decreases codes.len() - i,
        {
            let code = codes[i];
            proof {
                lemma_kept_codes_step(codes@, i as int, KEY_CODE_LIMIT, Set::empty());
            }
            if code < KEY_CODE_LIMIT {
                set.raise(code);
            }
            i = i + 1;
        }
        set
    }

    /// Whether `code` is in the set.
    pub fn contains(&self, code: u16) -> (found: bool)
        ensures
            found == self@.contains(code),
    {
        self.holds(code)
    }

    /// The codes of the set, each once, in ascending order.
    pub fn codes(&self) -> (codes: Vec<u16>)
        ensures
            forall|i: int, j: int| 0 <= i < j < codes@.len() ==> codes@[i] < codes@[j],
            forall|code: u16| codes@.contains(code) <==> self@.contains(code),
    {
        self.raised()
    }

    /// The set without the intercepted keys.
    pub fn without(&self, intercepted: &InterceptedKeys) -> (rest: KeySet)
        ensures
            rest@ == self@.difference(intercepted@.dom()),
    {
        let codes = self.raised();
        let mut rest = KeySet::blank();
        let mut i: usize = 0;
        proof {
            assert(kept_codes(codes@, 0, KEY_CODE_LIMIT, intercepted@.dom()) =~= Set::<
                u16,
            >::empty());
        }
        while i < codes.len()
            invariant
                i <= codes.len(),
                forall|j: int| 0 <= j < codes@.len() ==> codes@[j] < KEY_CODE_LIMIT,
                rest@ == kept_codes(codes@, i as int, KEY_CODE_LIMIT, intercepted@.dom()),
            decreases codes.len() - i,
        {
            let code = codes[i];
            proof {
                lemma_kept_codes_step(codes@, i as int, KEY_CODE_LIMIT, intercepted@.dom());
            }
            if !intercepted.contains(code) {
                rest.raise(code);
            }
            i = i + 1;
        }
        proof {
            assert forall|code: u16|
                rest@.contains(code) <==> self@.difference(intercepted@.dom()).contains(
                    code,
                ) by {
                if self@.contains(code) {
                    assert(codes@.contains(code));
                }
            }
            assert(rest@ =~= self@.difference(intercepted@.dom()));
        }
        rest
    }
}

impl AxisSet {
    /// `evdev::AttributeSet::new`: a bit set with no bit raised.
    #[verifier::external_body]
    fn blank() -> (set: AxisSet)
        ensures
            axis_set_codes(set) == Set::<u16>::empty(),
    {
        AxisSet { bits: evdev::AttributeSet::new() }
    }

    /// `evdev::AttributeSetRef::insert`: raises the bit of `code` and leaves
    /// every other bit as it is. The bit set has `AXIS_CODE_LIMIT` bits, and
    /// a code beyond them would make the call panic.
    #[verifier::external_body]
    fn raise(&mut self, code: u16)
        requires
            code < AXIS_CODE_LIMIT,
        ensures
            axis_set_codes(*final(self)) == axis_set_codes(*old(self)).insert(code),
    {
        self.bits.insert(evdev::RelativeAxisCode(code));
    }

    /// `evdev::AttributeSetRef::iter`: the codes whose bit is raised, each
    /// once, in ascending order; all of them are below `AXIS_CODE_LIMIT`.
    #[verifier::external_body]
    fn raised(&self) -> (codes: Vec<u16>)
        ensures
            forall|i: int, j: int| 0 <= i < j < codes@.len() ==> codes@[i] < codes@[j],
            forall|i: int| 0 <= i < codes@.len() ==> codes@[i] < AXIS_CODE_LIMIT,
            forall|code: u16| codes@.contains(code) <==> axis_set_codes(*self).contains(code),
    {
        self.bits.iter().map(|axis| axis.0).collect()
    }

    /// The set of those of `codes` that are relative axis codes.
    pub fn from_codes(codes: &Vec<u16>) -> (set: AxisSet)
        ensures
            forall|code: u16|
                set@.contains(code) <==> code < AXIS_CODE_LIMIT && codes@.contains(code),
    {
        let mut set = AxisSet::blank();
        let mut i: usize = 0;
        proof {
            assert(kept_codes(codes@, 0, AXIS_CODE_LIMIT, Set::empty()) =~= Set::<u16>::empty());
        }
        while i < codes.len()
            invariant
                i <= codes.len(),
                set@ == kept_codes(codes@, i as int, AXIS_CODE_LIMIT, Set::empty()),
            decreases codes.len() - i,
        {
            let code = codes[i];
            proof {
                lemma_kept_codes_step(codes@, i as int, AXIS_CODE_LIMIT, Set::empty());
            }
            if code < AXIS_CODE_LIMIT {
                set.raise(code);
            }
            i = i + 1;
        }
        set
    }

    /// The codes of the set, each once, in ascending order.
    pub fn codes(&self) -> (codes: Vec<u16>)
        ensures
            forall|i: int, j: int| 0 <= i < j < codes@.len() ==> codes@[i] < codes@[j],
            forall|code: u16| codes@.contains(code) <==> self@.contains(code),
    {
        self.raised()
    }

    /// A set of its own with the same codes.
    pub fn mirror(&self) -> (copy: AxisSet)
        ensures
            copy@ == self@,
    {
        let codes = self.raised();
        let copy = AxisSet::from_codes(&codes);
        proof {
            assert(copy@ =~= self@);
        }
        copy
    }
}

/// What a physical device declares: its keys and its relative axes. A device
/// that has no events of a kind declares no set for it.
#[derive(Debug)]
pub struct Capabilities {
    pub keys: Option<KeySet>,
    pub axes: Option<AxisSet>,
}

/// The mathematical value of [`Capabilities`].
pub struct CapabilitiesView {
    pub keys: Option<Set<u16>>,
    pub axes: Option<Set<u16>>,
}

impl View for Capabilities {
    type V = CapabilitiesView;

    open spec fn view(&self) -> CapabilitiesView {
        CapabilitiesView {
            keys: match self.keys {
                Some(set) => Some(set@),
                None => None,
            },
            axes: match self.axes {
                Some(set) => Some(set@),
                None => None,
            },
        }
    }
}

/// What the synthetic device is to be created with.
#[derive(Debug)]
pub struct VirtualPlan {
    pub name: String,
    pub keys: Option<KeySet>,
    pub axes: Option<AxisSet>,
}

/// The mathematical value of a [`VirtualPlan`].
pub struct VirtualPlanView {
    pub name: Seq<char>,
    pub keys: Option<Set<u16>>,
    pub axes: Option<Set<u16>>,
}

impl View for VirtualPlan {
    type V = VirtualPlanView;

    open spec fn view(&self) -> VirtualPlanView {
        VirtualPlanView {
            name: self.name@,
            keys: match self.keys {
                Some(set) => Some(set@),
                None => None,
            },
            axes: match self.axes {
                Some(set) => Some(set@),
                None => None,
            },
        }
    }
}

/// The synthetic device mirrors the physical one: all of its relative axes,
/// and its keys but for the intercepted ones.
pub open spec fn mirrored(
    name: Seq<char>,
    physical: CapabilitiesView,
    intercepted: Map<u16, Action>,
) -> VirtualPlanView {
    VirtualPlanView {
        name,
        keys: match physical.keys {
            Some(keys) => Some(keys.difference(intercepted.dom())),
            None => None,
        },
        axes: physical.axes,
    }
}

/// The synthetic device declares no intercepted key, and every other key of
/// the physical device.
pub proof fn law_mirror_leaves_out_intercepted(
    name: Seq<char>,
    physical: CapabilitiesView,
    intercepted: Map<u16, Action>,
    key: u16,
)
    requires
        physical.keys is Some,
    ensures
        mirrored(name, physical, intercepted).keys is Some,
        mirrored(name, physical, intercepted).keys.unwrap().contains(key) <==> (
        physical.keys.unwrap().contains(key) && !intercepted.contains_key(key)),
{
}

/// Works out what the synthetic device for `physical` is created with.
pub fn plan_virtual(name: &str, physical: &Capabilities, intercepted: &InterceptedKeys) -> (plan:
    VirtualPlan)
    ensures
        plan@ == mirrored(name@, physical@, intercepted@),
{
    let axes = match &physical.axes {
        Some(set) => Some(set.mirror()),
        None => None,
    };
    let keys = match &physical.keys {
        Some(set) => Some(set.without(intercepted)),
        None => None,
    };
    VirtualPlan { name: name.to_owned(), keys, axes }
}

} // verus!
