//! The settings form. Fields are held as text while being typed, since a half-typed port
//! range is not a range, and become settings only when saved.

use crate::config::{fault_message, parsed_range};
use crate::gateway::config::{GatewayConfig, UplinkMode, VideoConfig};
use crate::gateway::prompt::{cloud_dials, needs_public_host};
use crate::setup::{blank_to_none, none_if_blank};
use crate::text::{
    blank, dec, decimal, lemma_decimal_is_read_back, opt_text, parse_number, parsed_number, trim,
    trimmed,
};
use vstd::prelude::*;

verus! {

#[derive(Debug)]
pub struct Form {
    pub gateway_name: String,
    pub open_live_url: String,
    pub open_live_key: String,
    pub auth_mode: String,
    pub register: bool,
    pub strom_url: String,
    pub strom_key: String,
    pub cloud_host: String,
    pub uplink_mode: UplinkMode,
    pub public_host: String,
    pub port_range: String,
    pub latency_ms: String,
    pub resolution: String,
    pub framerate: String,
    pub bitrate_kbps: String,
}

pub open spec fn or_blank(o: Option<String>) -> Seq<char> {
    match o {
        Some(s) => s@,
        None => Seq::empty(),
    }
}

fn text_or_blank(o: &Option<String>) -> (r: String)
    ensures
        r@ == or_blank(*o),
{
    match o {
        Some(s) => s.clone(),
        None => String::new(),
    }
}

impl Form {
    /// Shows the settings: an absent value as an empty field, a number in digits.
    pub open spec fn shows(&self, cfg: GatewayConfig) -> bool {
        &&& self.gateway_name@ == cfg.gateway.name@
        &&& self.open_live_url@ == or_blank(cfg.open_live.url)
        &&& self.open_live_key@ == or_blank(cfg.open_live.api_key)
        &&& self.auth_mode@ == cfg.open_live.auth_mode@
        &&& self.register == cfg.open_live.register
        &&& self.strom_url@ == cfg.strom.url@
        &&& self.strom_key@ == or_blank(cfg.strom.api_key)
        &&& self.cloud_host@ == or_blank(cfg.app.uplink.host)
        &&& self.uplink_mode == cfg.app.uplink.mode
        &&& self.public_host@ == or_blank(cfg.app.uplink.public_host)
        &&& self.port_range@ == cfg.app.uplink.port_range@
        &&& self.latency_ms@ == dec(cfg.app.uplink.latency_ms as nat)
        &&& self.resolution@ == cfg.app.video_resolution@
        &&& self.framerate@ == cfg.app.video_framerate@
        &&& self.bitrate_kbps@ == dec(cfg.app.video.bitrate_kbps as nat)
    }

    pub fn from_config(cfg: &GatewayConfig) -> (r: Form)
        ensures
            r.shows(*cfg),
    {
        Form {
            gateway_name: cfg.gateway.name.clone(),
            open_live_url: text_or_blank(&cfg.open_live.url),
            open_live_key: text_or_blank(&cfg.open_live.api_key),
            auth_mode: cfg.open_live.auth_mode.clone(),
            register: cfg.open_live.register,
            strom_url: cfg.strom.url.clone(),
            strom_key: text_or_blank(&cfg.strom.api_key),
            cloud_host: text_or_blank(&cfg.app.uplink.host),
            uplink_mode: cfg.app.uplink.mode,
            public_host: text_or_blank(&cfg.app.uplink.public_host),
            port_range: cfg.app.uplink.port_range.clone(),
            latency_ms: decimal(cfg.app.uplink.latency_ms as u64),
            resolution: cfg.app.video_resolution.clone(),
            framerate: cfg.app.video_framerate.clone(),
            bitrate_kbps: decimal(cfg.app.video.bitrate_kbps as u64),
        }
    }

    /// The first thing that keeps the form from being saved. The port range and the
    /// direction are only exercised when a device is started, which would put the error
    /// a long way from the setting that caused it.
    pub open spec fn problem(&self) -> Option<Seq<char>> {
        if blank(self.gateway_name@) {
            Some("Name cannot be empty — it labels the sources in Studio"@)
        } else if parsed_number(trimmed(self.latency_ms@), u32::MAX as nat) is None {
            Some("SRT latency must be a whole number of milliseconds"@)
        } else if parsed_number(trimmed(self.bitrate_kbps@), u32::MAX as nat) is None {
            Some("Bitrate must be a whole number of kbps"@)
        } else if parsed_range(trimmed(self.port_range@)) is Err {
            let fault = parsed_range(trimmed(self.port_range@))->Err_0;
            Some("Port range: "@ + fault_message(fault.0, fault.1))
        } else if cloud_dials(self.uplink_mode) && blank(self.public_host@) {
            Some(
                "This uplink direction has the cloud dial the venue, so it needs this machine's address as the cloud sees it"@,
            )
        } else {
            None
        }
    }

    /// What the settings become: what the form shows, and what it does not show as it
    /// was.
    pub open spec fn saved_as(&self, base: GatewayConfig, cfg: GatewayConfig) -> bool {
        &&& cfg.gateway.name@ == trimmed(self.gateway_name@)
        &&& cfg.gateway.id == base.gateway.id
        &&& opt_text(cfg.open_live.url) == none_if_blank(self.open_live_url@)
        &&& opt_text(cfg.open_live.api_key) == none_if_blank(self.open_live_key@)
        &&& cfg.open_live.auth_mode@ == self.auth_mode@
        &&& cfg.open_live.register == self.register
        &&& cfg.open_live.state_path == base.open_live.state_path
        &&& cfg.strom.url@ == trimmed(self.strom_url@)
        &&& opt_text(cfg.strom.api_key) == none_if_blank(self.strom_key@)
        &&& cfg.strom.manage == base.strom.manage
        &&& cfg.strom.binary == base.strom.binary
        &&& cfg.strom.data_dir == base.strom.data_dir
        &&& cfg.app.uplink.mode == self.uplink_mode
        &&& opt_text(cfg.app.uplink.host) == none_if_blank(self.cloud_host@)
        &&& opt_text(cfg.app.uplink.public_host) == none_if_blank(self.public_host@)
        &&& cfg.app.uplink.port_range@ == trimmed(self.port_range@)
        &&& Some(cfg.app.uplink.latency_ms as nat) == parsed_number(
            trimmed(self.latency_ms@),
            u32::MAX as nat,
        )
        &&& cfg.app.uplink.passphrase == base.app.uplink.passphrase
        &&& cfg.app.uplink.pbkeylen == base.app.uplink.pbkeylen
        &&& cfg.app.video_resolution@ == trimmed(self.resolution@)
        &&& cfg.app.video_framerate@ == trimmed(self.framerate@)
        &&& Some(cfg.app.video.bitrate_kbps as nat) == parsed_number(
            trimmed(self.bitrate_kbps@),
            u32::MAX as nat,
        )
        &&& cfg.app.video == (VideoConfig {
            bitrate_kbps: cfg.app.video.bitrate_kbps,
            ..base.app.video
        })
        &&& cfg.inputs@ == base.inputs@
        &&& cfg.control == base.control
        &&& cfg.log == base.log
    }

    /// Folds the form back into settings, keeping anything it does not show from those
    /// it came from.
    pub fn to_config(&self, base: &GatewayConfig) -> (r: Result<GatewayConfig, String>)
        ensures
            match self.problem() {
                Some(text) => r is Err && r->Err_0@ == text,
                None => r is Ok && self.saved_as(*base, r->Ok_0),
            },
    {
        let mut cfg = base.clone();
        cfg.gateway.name = trim(self.gateway_name.as_str());
        if cfg.gateway.name.as_str().is_empty() {
            return Err("Name cannot be empty — it labels the sources in Studio".to_owned());
        }
        cfg.open_live.url = blank_to_none(self.open_live_url.as_str());
        cfg.open_live.api_key = blank_to_none(self.open_live_key.as_str());
        cfg.open_live.auth_mode = self.auth_mode.clone();
        cfg.open_live.register = self.register;
        cfg.strom.url = trim(self.strom_url.as_str());
        cfg.strom.api_key = blank_to_none(self.strom_key.as_str());
        cfg.app.uplink.mode = self.uplink_mode;
        cfg.app.uplink.host = blank_to_none(self.cloud_host.as_str());
        cfg.app.uplink.public_host = blank_to_none(self.public_host.as_str());
        cfg.app.uplink.port_range = trim(self.port_range.as_str());
        let latency = trim(self.latency_ms.as_str());
        cfg.app.uplink.latency_ms = match parse_number(latency.as_str(), u32::MAX as u64) {
            Some(n) => n as u32,
            None => {
                return Err("SRT latency must be a whole number of milliseconds".to_owned());
            },
        };
        cfg.app.video_resolution = trim(self.resolution.as_str());
        cfg.app.video_framerate = trim(self.framerate.as_str());
        let bitrate = trim(self.bitrate_kbps.as_str());
        cfg.app.video.bitrate_kbps = match parse_number(bitrate.as_str(), u32::MAX as u64) {
            Some(n) => n as u32,
            None => return Err("Bitrate must be a whole number of kbps".to_owned()),
        };
        match cfg.app.uplink.ports() {
            Ok(_) => {},
            Err(e) => return Err("Port range: ".to_owned().concat(e.message().as_str())),
        }
        if needs_public_host(cfg.app.uplink.mode) && cfg.app.uplink.public_host.is_none() {
            return Err(
                "This uplink direction has the cloud dial the venue, so it needs this machine's address as the cloud sees it".to_owned(),
            );
        }
        Ok(cfg)
    }
}

/// Without blanks around it.
pub open spec fn tidy(s: Seq<char>) -> bool {
    trimmed(s) == s
}

/// Unset, or a text that shows.
pub open spec fn tidy_opt(o: Option<String>) -> bool {
    o matches Some(s) ==> tidy(s@) && s@.len() > 0
}

/// Settings as a form or setup leaves them: no text with blanks around it or set to
/// nothing, a name, a readable port range, and an address where the cloud dials.
pub open spec fn settled(cfg: GatewayConfig) -> bool {
    &&& tidy(cfg.gateway.name@) && cfg.gateway.name@.len() > 0
    &&& tidy_opt(cfg.open_live.url)
    &&& tidy_opt(cfg.open_live.api_key)
    &&& tidy(cfg.strom.url@)
    &&& tidy_opt(cfg.strom.api_key)
    &&& tidy_opt(cfg.app.uplink.host)
    &&& tidy_opt(cfg.app.uplink.public_host)
    &&& tidy(cfg.app.uplink.port_range@)
    &&& parsed_range(cfg.app.uplink.port_range@) is Ok
    &&& tidy(cfg.app.video_resolution@)
    &&& tidy(cfg.app.video_framerate@)
    &&& cloud_dials(cfg.app.uplink.mode) ==> cfg.app.uplink.public_host is Some
}

/// Opening the settings and saving them changes nothing.
pub proof fn law_a_round_trip_preserves_the_settings(
    cfg: GatewayConfig,
    form: Form,
    saved: GatewayConfig,
)
    requires
        settled(cfg),
        form.shows(cfg),
        form.problem() is None ==> form.saved_as(cfg, saved),
    ensures
        form.problem() is None,
        saved.gateway.name@ == cfg.gateway.name@,
        saved.gateway.id == cfg.gateway.id,
        opt_text(saved.open_live.url) == opt_text(cfg.open_live.url),
        opt_text(saved.open_live.api_key) == opt_text(cfg.open_live.api_key),
        saved.open_live.auth_mode@ == cfg.open_live.auth_mode@,
        saved.open_live.register == cfg.open_live.register,
        saved.open_live.state_path == cfg.open_live.state_path,
        saved.strom.url@ == cfg.strom.url@,
        opt_text(saved.strom.api_key) == opt_text(cfg.strom.api_key),
        saved.strom.manage == cfg.strom.manage,
        saved.strom.binary == cfg.strom.binary,
        saved.strom.data_dir == cfg.strom.data_dir,
        saved.app.uplink.mode == cfg.app.uplink.mode,
        opt_text(saved.app.uplink.host) == opt_text(cfg.app.uplink.host),
        opt_text(saved.app.uplink.public_host) == opt_text(cfg.app.uplink.public_host),
        saved.app.uplink.port_range@ == cfg.app.uplink.port_range@,
        saved.app.uplink.latency_ms == cfg.app.uplink.latency_ms,
        saved.app.uplink.passphrase == cfg.app.uplink.passphrase,
        saved.app.uplink.pbkeylen == cfg.app.uplink.pbkeylen,
        saved.app.video_resolution@ == cfg.app.video_resolution@,
        saved.app.video_framerate@ == cfg.app.video_framerate@,
        saved.app.video == cfg.app.video,
        saved.inputs@ == cfg.inputs@,
        saved.control == cfg.control,
        saved.log == cfg.log,
{
    lemma_decimal_is_read_back(cfg.app.uplink.latency_ms as nat, u32::MAX as nat);
    lemma_decimal_is_read_back(cfg.app.video.bitrate_kbps as nat, u32::MAX as nat);
    assert(trimmed(Seq::<char>::empty()) =~= Seq::empty());
}

/// A form is accepted exactly when it has a name, whole numbers for latency and bitrate,
/// a range of ports, and an own address where the cloud dials.
pub proof fn law_an_accepted_form_can_be_acted_on(form: Form)
    ensures
        form.problem() is None <==> {
            &&& !blank(form.gateway_name@)
            &&& parsed_number(trimmed(form.latency_ms@), 0xFFFF_FFFF) is Some
            &&& parsed_number(trimmed(form.bitrate_kbps@), 0xFFFF_FFFF) is Some
            &&& parsed_range(trimmed(form.port_range@)) is Ok
            &&& form.uplink_mode != UplinkMode::Caller ==> !blank(form.public_host@)
        },
        blank(form.gateway_name@) ==> form.problem() == Some(
            "Name cannot be empty — it labels the sources in Studio"@,
        ),
        !blank(form.gateway_name@) && parsed_number(trimmed(form.latency_ms@), 0xFFFF_FFFF) is None
            ==> form.problem() == Some("SRT latency must be a whole number of milliseconds"@),
        !blank(form.gateway_name@) && parsed_number(trimmed(form.latency_ms@), 0xFFFF_FFFF) is Some
            && parsed_number(trimmed(form.bitrate_kbps@), 0xFFFF_FFFF) is None ==> form.problem()
            == Some("Bitrate must be a whole number of kbps"@),
{
}

/// A field shows the setting of its own name, and a setting that is missing as blank.
pub proof fn law_a_field_shows_its_own_setting(form: Form, cfg: GatewayConfig)
    requires
        form.shows(cfg),
    ensures
        form.gateway_name@ == cfg.gateway.name@,
        cfg.open_live.url is Some ==> form.open_live_url@ == cfg.open_live.url->0@,
        cfg.open_live.url is None ==> form.open_live_url@.len() == 0,
        cfg.open_live.api_key is Some ==> form.open_live_key@ == cfg.open_live.api_key->0@,
        cfg.strom.api_key is Some ==> form.strom_key@ == cfg.strom.api_key->0@,
        form.auth_mode@ == cfg.open_live.auth_mode@,
        form.register == cfg.open_live.register,
        form.strom_url@ == cfg.strom.url@,
        cfg.app.uplink.host is Some ==> form.cloud_host@ == cfg.app.uplink.host->0@,
        cfg.app.uplink.public_host is Some ==> form.public_host@
            == cfg.app.uplink.public_host->0@,
        form.uplink_mode == cfg.app.uplink.mode,
        form.port_range@ == cfg.app.uplink.port_range@,
        form.latency_ms@ == dec(cfg.app.uplink.latency_ms as nat),
        form.resolution@ == cfg.app.video_resolution@,
        form.framerate@ == cfg.app.video_framerate@,
        form.bitrate_kbps@ == dec(cfg.app.video.bitrate_kbps as nat),
{
}

/// Saving takes each field into the setting of its own name, without the white space
/// around it and with a blank one as missing. What the form has no field for stays.
pub proof fn law_saving_takes_each_field_into_its_setting(
    form: Form,
    base: GatewayConfig,
    cfg: GatewayConfig,
)
    requires
        form.saved_as(base, cfg),
    ensures
        cfg.gateway.name@ == trimmed(form.gateway_name@),
        !blank(form.open_live_url@) ==> cfg.open_live.url is Some && cfg.open_live.url->0@
            == trimmed(form.open_live_url@),
        blank(form.open_live_url@) ==> cfg.open_live.url is None,
        !blank(form.open_live_key@) ==> cfg.open_live.api_key is Some && cfg.open_live.api_key->0@
            == trimmed(form.open_live_key@),
        blank(form.open_live_key@) ==> cfg.open_live.api_key is None,
        cfg.open_live.auth_mode@ == form.auth_mode@,
        cfg.open_live.register == form.register,
        cfg.strom.url@ == trimmed(form.strom_url@),
        !blank(form.strom_key@) ==> cfg.strom.api_key is Some && cfg.strom.api_key->0@ == trimmed(
            form.strom_key@,
        ),
        !blank(form.cloud_host@) ==> cfg.app.uplink.host is Some && cfg.app.uplink.host->0@
            == trimmed(form.cloud_host@),
        blank(form.cloud_host@) ==> cfg.app.uplink.host is None,
        !blank(form.public_host@) ==> cfg.app.uplink.public_host is Some
            && cfg.app.uplink.public_host->0@ == trimmed(form.public_host@),
        cfg.app.uplink.mode == form.uplink_mode,
        cfg.app.uplink.port_range@ == trimmed(form.port_range@),
        parsed_number(trimmed(form.latency_ms@), 0xFFFF_FFFF) == Some(
            cfg.app.uplink.latency_ms as nat,
        ),
        parsed_number(trimmed(form.bitrate_kbps@), 0xFFFF_FFFF) == Some(
            cfg.app.video.bitrate_kbps as nat,
        ),
        cfg.app.video_resolution@ == trimmed(form.resolution@),
        cfg.app.video_framerate@ == trimmed(form.framerate@),
        cfg.app.uplink.passphrase == base.app.uplink.passphrase,
        cfg.app.uplink.pbkeylen == base.app.uplink.pbkeylen,
        cfg.inputs@ == base.inputs@,
        cfg.control == base.control && cfg.log == base.log,
        cfg.strom.manage == base.strom.manage && cfg.strom.binary == base.strom.binary,
{
}

} // verus!
