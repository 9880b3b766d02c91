//! Application configuration: the persisted filter text, the CPU-credit
//! preference for burstable instance types, the default type shown by the
//! type picker, and the refresh interval.

use vstd::prelude::*;

verus! {

/// Configuration loaded at startup and saved on exit. Any field may be
/// absent in the stored form; [`AppConfig::apply_missing_defaults`] fills
/// the missing ones (the filter deliberately stays absent).
pub struct AppConfig {
    pub filter: Option<String>,
    pub t_family_credit: Option<String>,
    pub default_instance_type: Option<String>,
    pub refresh_interval_seconds: Option<u64>,
}

impl Default for AppConfig {
    /// No saved filter, "standard" CPU credits, a small burstable default
    /// type, and a 15 second refresh interval.
    fn default() -> (r: Self)
        ensures
            r.filter is None,
            r.t_family_credit matches Some(c) && c@ == "standard"@,
            r.default_instance_type matches Some(t) && t@ == "t3a.nano"@,
            r.refresh_interval_seconds == Some(15u64),
    {
        AppConfig {
            filter: None,
            t_family_credit: Some("standard".to_owned()),
            default_instance_type: Some("t3a.nano".to_owned()),
            refresh_interval_seconds: Some(15),
        }
    }
}

impl AppConfig {
    /// Fills every absent field except the filter with its default value;
    /// fields that are present are left untouched.
    pub fn apply_missing_defaults(&mut self)
        ensures
            final(self).filter == old(self).filter,
            old(self).t_family_credit is Some ==> final(self).t_family_credit
                == old(self).t_family_credit,
            old(self).t_family_credit is None ==> (final(self).t_family_credit matches Some(c)
                && c@ == "standard"@),
            old(self).default_instance_type is Some ==> final(self).default_instance_type
                == old(self).default_instance_type,
            old(self).default_instance_type is None
                ==> (final(self).default_instance_type matches Some(t) && t@ == "t3a.nano"@),
            old(self).refresh_interval_seconds is Some ==> final(self).refresh_interval_seconds
                == old(self).refresh_interval_seconds,
            old(self).refresh_interval_seconds is None ==> final(self).refresh_interval_seconds
                == Some(15u64),
    {
        if self.t_family_credit.is_none() {
            self.t_family_credit = Some("standard".to_owned());
        }
        if self.default_instance_type.is_none() {
            self.default_instance_type = Some("t3a.nano".to_owned());
        }
        if self.refresh_interval_seconds.is_none() {
            self.refresh_interval_seconds = Some(15);
        }
    }
}

} // verus!
