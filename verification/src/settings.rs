//! The settings of a node: their defaults, what overrides them, and which
//! values are accepted.

use vstd::prelude::*;
use vstd::string::*;
use crate::frame::MTU_FRAME;

verus! {

/// The smallest accepted `maxpacketsize`.
pub const MIN_PACKET_SIZE: usize = 10;

/// The largest accepted `maxpacketsize`: the largest frame that the radio
/// carries.
pub const MAX_PACKET_SIZE: usize = MTU_FRAME;

/// The default port of the radio.
pub const DEFAULT_RADIO_PORT: &'static str = "/dev/ttyUSB0";

/// The settings of a node.
#[derive(Debug)]
pub struct Settings {
    /// The ID of this LoRa node
    pub nodeid: u8,
    /// Activate debug mode
    pub debug: bool,
    /// Set if node is a gateway to internet
    pub isgateway: bool,
    /// Local device port for radio
    pub radioport: String,
    /// Radio initialization command file
    pub radiocfg: Option<String>,
    /// Maximum frame size sent to radio [10..250]
    pub maxpacketsize: usize,
    /// The size of the transmission slot, in milliseconds, used for transmission
    /// rate limiting
    pub txslot: u64,
    /// Amount of time (ms) to wait for end-of-transmission signal before transmitting
    pub eotwait: u64,
    /// Timeout (ms) to drop incomplete packet chunks
    pub chunktimeout: u64,
    /// Maximum number of hops a packet should travel
    pub maxhops: u8,
}

/// What a settings file or the environment says: a value for each setting
/// that it names.
#[derive(Debug)]
pub struct SettingsOverlay {
    pub nodeid: Option<u8>,
    pub debug: Option<bool>,
    pub isgateway: Option<bool>,
    pub radioport: Option<String>,
    pub radiocfg: Option<String>,
    pub maxpacketsize: Option<usize>,
    pub txslot: Option<u64>,
    pub eotwait: Option<u64>,
    pub chunktimeout: Option<u64>,
    pub maxhops: Option<u8>,
}

/// Why settings are refused.
#[derive(Clone, Copy, PartialEq, Eq, Debug, Structural)]
pub enum SettingsError {
    /// `maxpacketsize` is smaller than 10 or larger than 250.
    PacketSizeOutOfRange,
}

/// The values of settings.
pub struct SettingsView {
    pub nodeid: u8,
    pub debug: bool,
    pub isgateway: bool,
    pub radioport: Seq<char>,
    pub radiocfg: Option<Seq<char>>,
    pub maxpacketsize: usize,
    pub txslot: u64,
    pub eotwait: u64,
    pub chunktimeout: u64,
    pub maxhops: u8,
}

/// The values that an overlay names.
pub struct OverlayView {
    pub nodeid: Option<u8>,
    pub debug: Option<bool>,
    pub isgateway: Option<bool>,
    pub radioport: Option<Seq<char>>,
    pub radiocfg: Option<Seq<char>>,
    pub maxpacketsize: Option<usize>,
    pub txslot: Option<u64>,
    pub eotwait: Option<u64>,
    pub chunktimeout: Option<u64>,
    pub maxhops: Option<u8>,
}

/// The characters of a text that may be missing.
pub open spec fn text_view(text: Option<String>) -> Option<Seq<char>> {
    match text {
        Some(t) => Some(t@),
        None => None,
    }
}

/// The settings of a node for which nothing is configured.
pub open spec fn default_settings() -> SettingsView {
    SettingsView {
        nodeid: 0,
        debug: false,
        isgateway: false,
        radioport: DEFAULT_RADIO_PORT@,
        radiocfg: None,
        maxpacketsize: 200,
        txslot: 200,
        eotwait: 1000,
        chunktimeout: 10000,
        maxhops: 2,
    }
}

/// What an overlay holds that names no setting.
pub open spec fn empty_overlay() -> OverlayView {
    OverlayView {
        nodeid: None,
        debug: None,
        isgateway: None,
        radioport: None,
        radiocfg: None,
        maxpacketsize: None,
        txslot: None,
        eotwait: None,
        chunktimeout: None,
        maxhops: None,
    }
}

/// `over` if it is there, else `base`.
pub open spec fn pick<T>(base: T, over: Option<T>) -> T {
    match over {
        Some(value) => value,
        None => base,
    }
}

/// The settings with every value replaced that the overlay names.
pub open spec fn merged(base: SettingsView, over: OverlayView) -> SettingsView {
    SettingsView {
        nodeid: pick(base.nodeid, over.nodeid),
        debug: pick(base.debug, over.debug),
        isgateway: pick(base.isgateway, over.isgateway),
        radioport: pick(base.radioport, over.radioport),
        radiocfg: match over.radiocfg {
            Some(path) => Some(path),
            None => base.radiocfg,
        },
        maxpacketsize: pick(base.maxpacketsize, over.maxpacketsize),
        txslot: pick(base.txslot, over.txslot),
        eotwait: pick(base.eotwait, over.eotwait),
        chunktimeout: pick(base.chunktimeout, over.chunktimeout),
        maxhops: pick(base.maxhops, over.maxhops),
    }
}

/// The settings after the overlays were laid over them, first to last.
pub open spec fn merged_all(base: SettingsView, overlays: Seq<OverlayView>) -> SettingsView
    decreases overlays.len(),
{
    if overlays.len() == 0 {
        base
    } else {
        merged(merged_all(base, overlays.drop_last()), overlays[overlays.len() - 1])
    }
}

/// What is wrong with settings, if anything.
pub open spec fn settings_fault(settings: SettingsView) -> Option<SettingsError> {
    if settings.maxpacketsize < MIN_PACKET_SIZE || settings.maxpacketsize > MAX_PACKET_SIZE {
        Some(SettingsError::PacketSizeOutOfRange)
    } else {
        None
    }
}

/// The default settings have no fault.
pub proof fn lemma_defaults_accepted()
    ensures
        settings_fault(default_settings()).is_none(),
{
}

/// The views of a list of overlays.
pub open spec fn overlay_views(overlays: Seq<SettingsOverlay>) -> Seq<OverlayView> {
    overlays.map_values(|o: SettingsOverlay| o@)
}

impl View for Settings {
    type V = SettingsView;

    open spec fn view(&self) -> SettingsView {
        SettingsView {
            nodeid: self.nodeid,
            debug: self.debug,
            isgateway: self.isgateway,
            radioport: self.radioport@,
            radiocfg: text_view(self.radiocfg),
            maxpacketsize: self.maxpacketsize,
            txslot: self.txslot,
            eotwait: self.eotwait,
            chunktimeout: self.chunktimeout,
            maxhops: self.maxhops,
        }
    }
}

impl View for SettingsOverlay {
    type V = OverlayView;

    open spec fn view(&self) -> OverlayView {
        OverlayView {
            nodeid: self.nodeid,
            debug: self.debug,
            isgateway: self.isgateway,
            radioport: text_view(self.radioport),
            radiocfg: text_view(self.radiocfg),
            maxpacketsize: self.maxpacketsize,
            txslot: self.txslot,
            eotwait: self.eotwait,
            chunktimeout: self.chunktimeout,
            maxhops: self.maxhops,
        }
    }
}

/// A copy of a text that may be missing.
fn copy_text(text: &Option<String>) -> (copy: Option<String>)
    ensures
        text_view(copy) == text_view(*text),
{
    match text {
        Some(t) => Some(t.clone()),
        None => None,
    }
}

impl Clone for Settings {
    fn clone(&self) -> (copy: Self)
        ensures
            copy@ == self@,
    {
        Settings {
            nodeid: self.nodeid,
            debug: self.debug,
            isgateway: self.isgateway,
            radioport: self.radioport.clone(),
            radiocfg: copy_text(&self.radiocfg),
            maxpacketsize: self.maxpacketsize,
            txslot: self.txslot,
            eotwait: self.eotwait,
            chunktimeout: self.chunktimeout,
            maxhops: self.maxhops,
        }
    }
}

impl SettingsOverlay {
    /// The overlay that names no setting: laid over any settings it
    /// changes nothing.
    pub fn none() -> (overlay: Self)
        ensures
            overlay@ == empty_overlay(),
            forall|base: SettingsView| #[trigger] merged(base, overlay@) == base,
    {
        let overlay = SettingsOverlay {
            nodeid: None,
            debug: None,
            isgateway: None,
            radioport: None,
            radiocfg: None,
            maxpacketsize: None,
            txslot: None,
            eotwait: None,
            chunktimeout: None,
            maxhops: None,
        };
        overlay
    }
}

impl Settings {
    /// The settings of a node for which nothing is configured.
    pub fn defaults() -> (settings: Self)
        ensures
            settings@ == default_settings(),
    {
        Settings {
            nodeid: 0,
            debug: false,
            isgateway: false,
            radioport: String::from_str(DEFAULT_RADIO_PORT),
            radiocfg: None,
            maxpacketsize: 200,
            txslot: 200,
            eotwait: 1000,
            chunktimeout: 10000,
            maxhops: 2,
        }
    }

    /// Replaces every value that the overlay names.
    pub fn merge(self, overlay: &SettingsOverlay) -> (settings: Self)
        ensures
            settings@ == merged(self@, overlay@),
    {
        Settings {
            nodeid: match overlay.nodeid {
                Some(v) => v,
                None => self.nodeid,
            },
            debug: match overlay.debug {
                Some(v) => v,
                None => self.debug,
            },
            isgateway: match overlay.isgateway {
                Some(v) => v,
                None => self.isgateway,
            },
            radioport: match &overlay.radioport {
                Some(v) => v.clone(),
                None => self.radioport,
            },
            radiocfg: match &overlay.radiocfg {
                Some(v) => Some(v.clone()),
                None => self.radiocfg,
            },
            maxpacketsize: match overlay.maxpacketsize {
                Some(v) => v,
                None => self.maxpacketsize,
            },
            txslot: match overlay.txslot {
                Some(v) => v,
                None => self.txslot,
            },
            eotwait: match overlay.eotwait {
                Some(v) => v,
                None => self.eotwait,
            },
            chunktimeout: match overlay.chunktimeout {
                Some(v) => v,
                None => self.chunktimeout,
            },
            maxhops: match overlay.maxhops {
                Some(v) => v,
                None => self.maxhops,
            },
        }
    }

    /// Says what is wrong with the settings, if anything.
    pub fn validate(&self) -> (checked: Result<(), SettingsError>)
        ensures
            match settings_fault(self@) {
                Some(fault) => checked == Err::<(), SettingsError>(fault),
                None => checked.is_ok(),
            },
    {
        if self.maxpacketsize < MIN_PACKET_SIZE || self.maxpacketsize > MAX_PACKET_SIZE {
            Err(SettingsError::PacketSizeOutOfRange)
        } else {
            Ok(())
        }
    }

    /// The default settings with the overlays laid over them, first to
    /// last, if the result has no fault.
    pub fn load(overlays: &Vec<SettingsOverlay>) -> (loaded: Result<Self, SettingsError>)
        ensures
            match settings_fault(merged_all(default_settings(), overlay_views(overlays@))) {
                Some(fault) => loaded == Err::<Self, SettingsError>(fault),
                None => loaded.is_ok() && loaded.unwrap()@ == merged_all(
                    default_settings(),
                    overlay_views(overlays@),
                ),
            },
    {
        let mut settings = Settings::defaults();
        let mut i: usize = 0;
        assert(overlay_views(overlays@).take(0) =~= Seq::<OverlayView>::empty());
        while i < overlays.len()
            invariant
                i <= overlays@.len(),
                settings@ == merged_all(default_settings(), overlay_views(overlays@).take(i as int)),
            decreases overlays@.len() - i,
        {
            proof {
                let all = overlay_views(overlays@);
                assert(all.take(i as int + 1).drop_last() =~= all.take(i as int));
                assert(all.take(i as int + 1)[i as int] == overlays@[i as int]@);
            }
            settings = settings.merge(&overlays[i]);
            i = i + 1;
        }
        assert(overlay_views(overlays@).take(i as int) =~= overlay_views(overlays@));
        match settings.validate() {
            Ok(()) => Ok(settings),
            Err(fault) => Err(fault),
        }
    }

    /// The settings of a node for which no file and no variable of the
    /// environment says anything: the defaults.
    pub fn new() -> (loaded: Result<Self, SettingsError>)
        ensures
            loaded.is_ok(),
            loaded.unwrap()@ == default_settings(),
    {
        let overlays: Vec<SettingsOverlay> = Vec::new();
        assert(overlay_views(overlays@) =~= Seq::<OverlayView>::empty());
        Settings::load(&overlays)
    }
}

} // verus!
