//! Finding the physical device among the input sources of the machine.

use crate::capability::{Capabilities, CapabilitiesView};
use crate::config::{ConfigView, EngineConfig};
use crate::intercept::{bindings_map, lemma_first_action_some, Action, InterceptedKeys};
use crate::outcome::EngineError;
use vstd::prelude::*;

verus! {

/// What is known of one input source: its name and what it declares.
#[derive(Debug)]
pub struct DeviceInfo {
    pub name: String,
    pub capabilities: Capabilities,
}

/// The mathematical value of a [`DeviceInfo`].
pub struct DeviceInfoView {
    pub name: Seq<char>,
    pub capabilities: CapabilitiesView,
}

impl View for DeviceInfo {
    type V = DeviceInfoView;

    open spec fn view(&self) -> DeviceInfoView {
        DeviceInfoView { name: self.name@, capabilities: self.capabilities@ }
    }
}

/// `needle` stands in `haystack` from position `at` on.
pub open spec fn occurs_at(haystack: Seq<char>, needle: Seq<char>, at: int) -> bool {
    0 <= at && at + needle.len() <= haystack.len() && haystack.subrange(
        at,
        at + needle.len(),
    ) == needle
}

/// `needle` stands somewhere in `haystack`.
pub open spec fn occurs_in(haystack: Seq<char>, needle: Seq<char>) -> bool {
    exists|at: int| occurs_at(haystack, needle, at)
}

/// Each of `fragments` stands somewhere in `name`.
pub open spec fn names_all(name: Seq<char>, fragments: Seq<Seq<char>>) -> bool {
    forall|i: int| 0 <= i < fragments.len() ==> occurs_in(name, #[trigger] fragments[i])
}

/// The device declares every intercepted key.
pub open spec fn declares_all(keys: Option<Set<u16>>, intercepted: Map<u16, Action>) -> bool {
    keys is Some && forall|key: u16|
        intercepted.contains_key(key) ==> #[trigger] keys.unwrap().contains(key)
}

/// The match rule: the name holds each configured text, and the device
/// declares keys, every intercepted key among them.
pub open spec fn satisfies(device: DeviceInfoView, config: ConfigView) -> bool {
    names_all(device.name, config.name_fragments) && declares_all(
        device.capabilities.keys,
        config.intercepted,
    )
}

/// The characters of a text.
fn chars_of(text: &str) -> (chars: Vec<char>)
    ensures
        chars@ == text@,
{
    let n = text.unicode_len();
    let mut chars: Vec<char> = Vec::new();
    let mut i: usize = 0;
    while i < n
        invariant
            n == text@.len(),
            i <= n,
            chars@ == text@.take(i as int),
        decreases n - i,
    {
        chars.push(text.get_char(i));
        proof {
            assert(text@.take(i + 1) =~= text@.take(i as int).push(text@[i as int]));
        }
        i = i + 1;
    }
    proof {
        assert(text@.take(n as int) =~= text@);
    }
    chars
}

/// Whether `needle` stands in `haystack` from position `at` on.
fn matches_at(haystack: &Vec<char>, needle: &Vec<char>, at: usize) -> (found: bool)
    requires
        at + needle@.len() <= haystack@.len(),
    ensures
        found == occurs_at(haystack@, needle@, at as int),
{
    let mut j: usize = 0;
    let n: usize = haystack.len();
    while j < needle.len()
        invariant
            n == haystack@.len(),
            j <= needle@.len(),
            at + needle@.len() <= haystack@.len(),
            forall|k: int| 0 <= k < j ==> haystack@[at + k] == needle@[k],
        decreases needle@.len() - j,
    {
        if haystack[at + j] != needle[j] {
            proof {
                let part = haystack@.subrange(at as int, at + needle@.len());
                assert(part[j as int] == haystack@[at + j]);
            }
            return false;
        }
        j = j + 1;
    }
    proof {
        assert(haystack@.subrange(at as int, at + needle@.len()) =~= needle@);
    }
    true
}

/// Whether `needle` stands somewhere in `haystack`. The empty text stands in
/// every text.
pub fn contains_text(haystack: &str, needle: &str) -> (found: bool)
    ensures
        found == occurs_in(haystack@, needle@),
{
    let hay = chars_of(haystack);
    let pin = chars_of(needle);
    if pin.len() > hay.len() {
        return false;
    }
    let last: usize = hay.len() - pin.len();
    let mut at: usize = 0;
    loop
        invariant
            pin@.len() <= hay@.len(),
            last == hay@.len() - pin@.len(),
            at <= last,
            hay@ == haystack@,
            pin@ == needle@,
            forall|k: int| 0 <= k < at ==> !occurs_at(hay@, pin@, k),
        decreases last - at,
    {
        if matches_at(&hay, &pin, at) {
            return true;
        }
        if at == last {
            return false;
        }
        at = at + 1;
    }
}

/// Whether the set declares every intercepted key.
fn declares_every(keys: &crate::capability::KeySet, intercepted: &InterceptedKeys) -> (all: bool)
    ensures
        all == declares_all(Some(keys@), intercepted@),
{
    let n = intercepted.len();
    let mut i: usize = 0;
    proof {
        intercepted.lemma_view_of_listing();
    }
    while i < n
        invariant
            n == intercepted.listing().len(),
            i <= n,
            intercepted@ == bindings_map(intercepted.listing()),
            forall|j: int| 0 <= j < i ==> keys@.contains(#[trigger] intercepted.listing()[j].key),
        decreases n - i,
    {
        let binding = intercepted.binding_at(i);
        if !keys.contains(binding.key) {
            proof {
                lemma_first_action_some(intercepted.listing(), binding.key);
                assert(intercepted.listing()[i as int].key == binding.key);
                assert(intercepted@.contains_key(binding.key));
                assert(!Some(keys@).unwrap().contains(binding.key));
            }
            return false;
        }
        i = i + 1;
    }
    proof {
        assert forall|key: u16| intercepted@.contains_key(key) implies keys@.contains(key) by {
            lemma_first_action_some(intercepted.listing(), key);
            let j = choose|j: int|
                0 <= j < intercepted.listing().len() && #[trigger] intercepted.listing()[j].key
                    == key;
            assert(keys@.contains(intercepted.listing()[j].key));
        }
    }
    true
}

/// Whether `device` satisfies the match rule of `config`.
pub fn is_match(device: &DeviceInfo, config: &EngineConfig) -> (fits: bool)
    ensures
        fits == satisfies(device@, config@),
{
    let mut i: usize = 0;
    while i < config.name_fragments.len()
        invariant
            i <= config.name_fragments.len(),
            forall|j: int|
                0 <= j < i ==> occurs_in(device@.name, #[trigger] config@.name_fragments[j]),
        decreases config.name_fragments.len() - i,
    {
        if !contains_text(device.name.as_str(), config.name_fragments[i].as_str()) {
            proof {
                assert(config@.name_fragments[i as int] == config.name_fragments@[i as int]@);
            }
            return false;
        }
        proof {
            assert(config@.name_fragments[i as int] == config.name_fragments@[i as int]@);
        }
        i = i + 1;
    }
    match &device.capabilities.keys {
        Some(keys) => declares_every(keys, &config.intercepted),
        None => false,
    }
}

/// The mathematical values of a list of candidates.
pub open spec fn device_views(candidates: Seq<DeviceInfo>) -> Seq<DeviceInfoView> {
    candidates.map_values(|device: DeviceInfo| device@)
}

/// `index` is the first of `candidates` that satisfies the match rule.
pub open spec fn first_match(
    candidates: Seq<DeviceInfoView>,
    config: ConfigView,
    index: int,
) -> bool {
    &&& 0 <= index < candidates.len()
    &&& satisfies(candidates[index], config)
    &&& forall|j: int| 0 <= j < index ==> !satisfies(#[trigger] candidates[j], config)
}

/// None of `candidates` satisfies the match rule.
pub open spec fn no_match(candidates: Seq<DeviceInfoView>, config: ConfigView) -> bool {
    forall|j: int| 0 <= j < candidates.len() ==> !satisfies(#[trigger] candidates[j], config)
}

/// Finds the physical device: the position of the first of `candidates`, in
/// the order in which they were enumerated, that satisfies the match rule.
/// Where several do, the first one is taken.
pub fn locate(candidates: &Vec<DeviceInfo>, config: &EngineConfig) -> (found: Result<
    usize,
    EngineError,
>)
    ensures
        match found {
            Ok(index) => first_match(device_views(candidates@), config@, index as int),
            Err(error) => error == EngineError::NotFound && no_match(
                device_views(candidates@),
                config@,
            ),
        },
{
    let mut i: usize = 0;
    while i < candidates.len()
        invariant
            i <= candidates.len(),
            forall|j: int|
                0 <= j < i ==> !satisfies(#[trigger] device_views(candidates@)[j], config@),
        decreases candidates.len() - i,
    {
        proof {
            assert(device_views(candidates@)[i as int] == candidates@[i as int]@);
        }
        if is_match(&candidates[i], config) {
            return Ok(i);
        }
        i = i + 1;
    }
    Err(EngineError::NotFound)
}

} // verus!
