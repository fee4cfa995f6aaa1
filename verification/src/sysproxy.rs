//! The system proxy configurator's rules: which settings are written when the
//! system is pointed at the filtering proxy, and which are put back.

use vstd::prelude::*;
use vstd::string::StringExecFns;

verus! {

/// The system's proxy settings: the enable flag and the server string.
pub struct ProxySettings {
    pub enabled: u32,
    pub server: String,
}

/// The proxy settings, with the server string as characters.
pub struct ProxySettingsView {
    pub enabled: u32,
    pub server: Seq<char>,
}

impl View for ProxySettings {
    type V = ProxySettingsView;

    open spec fn view(&self) -> ProxySettingsView {
        ProxySettingsView { enabled: self.enabled, server: self.server@ }
    }
}

/// The settings as they are read from the system: a flag that is not set
/// counts as 0, a server that is not set as the empty string.
pub open spec fn settings_read(enabled: Option<u32>, server: Option<Seq<char>>) -> ProxySettingsView {
    ProxySettingsView {
        enabled: match enabled {
            Some(flag) => flag,
            None => 0,
        },
        server: match server {
            Some(text) => text,
            None => Seq::<char>::empty(),
        },
    }
}

/// The settings that point the system at the proxy at `address`.
pub open spec fn settings_for(address: Seq<char>) -> ProxySettingsView {
    ProxySettingsView { enabled: 1, server: address }
}

/// The settings as read from the system, where either may not be set.
pub fn read_settings(enabled: Option<u32>, server: Option<String>) -> (r: ProxySettings)
    ensures
        r@ == settings_read(
            enabled,
            match server {
                Some(text) => Some(text@),
                None => None,
            },
        ),
{
    ProxySettings {
        enabled: match enabled {
            Some(flag) => flag,
            None => 0,
        },
        server: match server {
            Some(text) => text,
            None => String::new(),
        },
    }
}

/// The snapshot that is held once the system was pointed at the proxy while
/// its settings were `current`: the one that was held before, where there was
/// one, else `current`.
pub open spec fn snapshot_kept(
    held: Option<ProxySettingsView>,
    current: ProxySettingsView,
) -> Option<ProxySettingsView> {
    match held {
        Some(first) => Some(first),
        None => Some(current),
    }
}

/// Holds the snapshot of the settings that were in force before the system
/// was pointed at the proxy. At most one snapshot is held.
pub struct Configurator {
    saved: Option<ProxySettings>,
}

impl Configurator {
    /// The snapshot that is held.
    pub closed spec fn snapshot(&self) -> Option<ProxySettingsView> {
        match self.saved {
            Some(settings) => Some(settings@),
            None => None,
        }
    }

    /// A configurator that holds no snapshot.
    pub fn new() -> (r: Configurator)
        ensures
            r.snapshot() is None,
    {
        Configurator { saved: None }
    }

    /// Whether a snapshot is held.
    pub fn holds_snapshot(&self) -> (r: bool)
        ensures
            r == self.snapshot() is Some,
    {
        self.saved.is_some()
    }

    /// Points the system at the proxy at `address`. `current` is what the
    /// system's settings are now; it becomes the snapshot, unless one is held
    /// already, which then stays. The result is what is to be written.
    pub fn enable(&mut self, current: ProxySettings, address: &str) -> (to_write: ProxySettings)
        ensures
            to_write@ == settings_for(address@),
            final(self).snapshot() == snapshot_kept(old(self).snapshot(), current@),
    {
        if self.saved.is_none() {
            self.saved = Some(current);
        }
        ProxySettings { enabled: 1, server: String::from_str(address) }
    }

    /// Gives the snapshot back for the system's settings to be restored from
    /// it, and holds none afterwards. Without a snapshot nothing is to be
    /// written.
    pub fn disable(&mut self) -> (to_write: Option<ProxySettings>)
        ensures
            final(self).snapshot() is None,
            match to_write {
                Some(settings) => old(self).snapshot() == Some(settings@),
                None => old(self).snapshot() is None,
            },
    {
        self.saved.take()
    }
}

/// The system's settings together with the snapshot that the configurator
/// holds.
pub struct SystemView {
    pub held: Option<ProxySettingsView>,
    pub settings: ProxySettingsView,
}

/// The system once it was pointed at the proxy at `address`: what `enable`
/// hands back is written, and the snapshot is what `enable` keeps.
pub open spec fn pointed_at(system: SystemView, address: Seq<char>) -> SystemView {
    SystemView {
        held: snapshot_kept(system.held, system.settings),
        settings: settings_for(address),
    }
}

/// The system once that was undone: what `disable` hands back is written,
/// and no snapshot is held.
pub open spec fn restored(system: SystemView) -> SystemView {
    SystemView {
        held: None,
        settings: match system.held {
            Some(snapshot) => snapshot,
            None => system.settings,
        },
    }
}

/// Pointing the system at the proxy and undoing it puts back exactly the
/// settings that were in force before, flag and server string.
pub proof fn lemma_restores_prior_settings(settings: ProxySettingsView, address: Seq<char>)
    ensures
        restored(pointed_at(SystemView { held: None, settings }, address)) == (SystemView {
            held: None,
            settings,
        }),
{
}

/// Undoing without a snapshot changes nothing, so undoing twice is undoing
/// once.
pub proof fn lemma_restore_is_idempotent(system: SystemView)
    ensures
        system.held is None ==> restored(system) == system,
        restored(restored(system)) == restored(system),
{
}

/// A snapshot that is held is never replaced: where the system is pointed at
/// the proxy a second time before the first was undone, undoing puts back
/// the settings that were in force before the first.
pub proof fn lemma_snapshot_not_replaced(
    settings: ProxySettingsView,
    first: Seq<char>,
    second: Seq<char>,
)
    ensures
        restored(pointed_at(pointed_at(SystemView { held: None, settings }, first), second))
            == (SystemView { held: None, settings }),
{
}

} // verus!
