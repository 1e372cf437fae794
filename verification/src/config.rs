//! The configuration of a run. It is supplied once, at startup, and does not
//! change while the engine runs.

use crate::intercept::{Action, InterceptedKeys, BTN_EXTRA, BTN_SIDE};
use vstd::prelude::*;

verus! {

/// The inactivity bound of the standard configuration, in milliseconds.
pub const STANDARD_INACTIVITY_TIMEOUT_MS: u64 = 30000;

/// The poll interval of the standard configuration, in milliseconds.
pub const STANDARD_POLL_INTERVAL_MS: u64 = 10;

/// Everything that is fixed for a run.
#[derive(Debug)]
pub struct EngineConfig {
    /// The intercepted keys with their actions.
    pub intercepted: InterceptedKeys,
    /// The run ends once no batch has arrived for this long.
    pub inactivity_timeout_ms: u64,
    /// How long the pump sleeps after a read that found nothing.
    pub poll_interval_ms: u64,
    /// The physical device is one whose name holds each of these texts.
    pub name_fragments: Vec<String>,
    /// The display name of the synthetic device.
    pub virtual_name: String,
}

/// The mathematical value of an [`EngineConfig`].
pub struct ConfigView {
    pub intercepted: Map<u16, Action>,
    pub inactivity_timeout_ms: u64,
    pub poll_interval_ms: u64,
    pub name_fragments: Seq<Seq<char>>,
    pub virtual_name: Seq<char>,
}

impl View for EngineConfig {
    type V = ConfigView;

    open spec fn view(&self) -> ConfigView {
        ConfigView {
            intercepted: self.intercepted@,
            inactivity_timeout_ms: self.inactivity_timeout_ms,
            poll_interval_ms: self.poll_interval_ms,
            name_fragments: self.name_fragments.deep_view(),
            virtual_name: self.virtual_name@,
        }
    }
}

/// The standard configuration: the two side buttons of a Logitech G502 mouse,
/// the backward one mapped to copying and the forward one to the clipboard
/// panel, thirty seconds of allowed inactivity and a poll every ten
/// milliseconds.
pub open spec fn standard_config() -> ConfigView {
    ConfigView {
        intercepted: Map::<u16, Action>::empty().insert(BTN_SIDE, Action::Copy).insert(
            BTN_EXTRA,
            Action::ShowClipboard,
        ),
        inactivity_timeout_ms: STANDARD_INACTIVITY_TIMEOUT_MS,
        poll_interval_ms: STANDARD_POLL_INTERVAL_MS,
        name_fragments: seq!["Logitech"@, "G502"@, "Mouse"@],
        virtual_name: "Mouse Virtual (mouse-clipboard)"@,
    }
}

impl EngineConfig {
    /// The standard configuration.
    pub fn standard() -> (config: EngineConfig)
        ensures
            config@ == standard_config(),
    {
        let mut intercepted = InterceptedKeys::new();
        intercepted.bind(BTN_SIDE, Action::Copy);
        intercepted.bind(BTN_EXTRA, Action::ShowClipboard);
        let mut name_fragments: Vec<String> = Vec::new();
        name_fragments.push("Logitech".to_owned());
        name_fragments.push("G502".to_owned());
        name_fragments.push("Mouse".to_owned());
        let config = EngineConfig {
            intercepted,
            inactivity_timeout_ms: STANDARD_INACTIVITY_TIMEOUT_MS,
            poll_interval_ms: STANDARD_POLL_INTERVAL_MS,
            name_fragments,
            virtual_name: "Mouse Virtual (mouse-clipboard)".to_owned(),
        };
        proof {
            assert(config@.name_fragments =~= standard_config().name_fragments);
        }
        config
    }
}

} // verus!
