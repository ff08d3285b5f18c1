//! User preferences, the versions confirmed to work, and the text written to the event log.
use crate::text::{contains_str, find_from, padded, push_padded, str_eq};
use vstd::prelude::*;
use vstd::string::*;

verus! {

/// The preferences kept in `data/settings.json`; each switch is independent.
#[derive(Clone, Debug)]
pub struct Settings {
    pub automatic: bool,
    pub tray_only: bool,
    pub look_at_mouse: bool,
    pub verified_versions: Vec<String>,
}

pub open spec fn version_views(v: Seq<String>) -> Seq<Seq<char>> {
    v.map_values(|s: String| s@)
}

impl Default for Settings {
    fn default() -> (r: Settings)
        ensures
            !r.automatic && !r.tray_only && !r.look_at_mouse,
            r.verified_versions@.len() == 0,
    {
        Settings { automatic: false, tray_only: false, look_at_mouse: false, verified_versions: Vec::new() }
    }
}

impl Settings {
    /// Whether `version` was confirmed to work.
    pub fn is_verified(&self, version: &str) -> (r: bool)
        ensures
            r == version_views(self.verified_versions@).contains(version@),
    {
        let n = self.verified_versions.len();
        let mut i: usize = 0;
        while i < n
            invariant
                n == self.verified_versions@.len(),
                i <= n,
                forall|j: int| 0 <= j < i ==> #[trigger] self.verified_versions@[j]@ != version@,
            decreases n - i,
        {
            if str_eq(self.verified_versions[i].as_str(), version) {
                assert(version_views(self.verified_versions@)[i as int] == version@);
                return true;
            }
            i = i + 1;
        }
        proof {
            if version_views(self.verified_versions@).contains(version@) {
                let j = choose|j: int|
                    0 <= j < n && version_views(self.verified_versions@)[j] == version@;
                assert(self.verified_versions@[j]@ == version@);
            }
        }
        false
    }

    /// Record that `version` works; confirming it again changes nothing, and no other
    /// preference changes.
    pub fn confirm_version(&mut self, version: &str)
        ensures
            final(self).automatic == old(self).automatic,
            final(self).tray_only == old(self).tray_only,
            final(self).look_at_mouse == old(self).look_at_mouse,
            version_views(final(self).verified_versions@) == (if version_views(
                old(self).verified_versions@,
            ).contains(version@) {
                version_views(old(self).verified_versions@)
            } else {
                version_views(old(self).verified_versions@).push(version@)
            }),
    {
        if !self.is_verified(version) {
            let ghost before = self.verified_versions@;
            self.verified_versions.push(String::from_str(version));
            proof {
                assert(version_views(self.verified_versions@) =~= version_views(before).push(
                    version@,
                ));
            }
        }
    }
}

/// The preferences the user switches on and off; each is saved on its own.
#[derive(Clone, Copy, Debug, PartialEq, Eq, Structural)]
pub enum Switch {
    Automatic,
    TrayOnly,
    LookAtMouse,
}

/// Flip one switch; every other preference and the confirmed versions stay.
pub fn toggle(settings: &mut Settings, which: Switch)
    ensures
        final(settings).automatic == (if which == Switch::Automatic {
            !old(settings).automatic
        } else {
            old(settings).automatic
        }),
        final(settings).tray_only == (if which == Switch::TrayOnly {
            !old(settings).tray_only
        } else {
            old(settings).tray_only
        }),
        final(settings).look_at_mouse == (if which == Switch::LookAtMouse {
            !old(settings).look_at_mouse
        } else {
            old(settings).look_at_mouse
        }),
        final(settings).verified_versions@ == old(settings).verified_versions@,
{
    match which {
        Switch::Automatic => settings.automatic = !settings.automatic,
        Switch::TrayOnly => settings.tray_only = !settings.tray_only,
        Switch::LookAtMouse => settings.look_at_mouse = !settings.look_at_mouse,
    }
}

/// The preferences in force after trying to save `after`: those saved, or, when saving
/// failed, the ones held before the change.
pub fn settings_after_save(before: Settings, after: Settings, saved: bool) -> (r: Settings)
    ensures
        r == (if saved {
            after
        } else {
            before
        }),
{
    if saved {
        after
    } else {
        before
    }
}

/// Confirming a version twice leaves the same list as confirming it once.
pub proof fn law_confirm_is_idempotent(versions: Seq<Seq<char>>, v: Seq<char>)
    ensures
        ({
            let once = if versions.contains(v) {
                versions
            } else {
                versions.push(v)
            };
            let twice = if once.contains(v) {
                once
            } else {
                once.push(v)
            };
            twice == once && once.contains(v)
        }),
{
    if !versions.contains(v) {
        assert(versions.push(v)[versions.len() as int] == v);
    }
}

/// The event log is rotated once it grows past this many bytes.
pub const LOG_LIMIT: u64 = 1_000_000;

pub fn log_needs_rotation(size: u64) -> (r: bool)
    ensures
        r == (size > LOG_LIMIT),
{
    size > LOG_LIMIT
}

/// The wall-clock fields of a local time stamp.
#[derive(Clone, Copy, Debug)]
pub struct LocalTime {
    pub year: u16,
    pub month: u16,
    pub day: u16,
    pub hour: u16,
    pub minute: u16,
    pub second: u16,
}

/// The local offset from UTC in minutes: Windows reports the bias to add to local time, plus
/// the daylight or standard correction in force.
pub open spec fn utc_offset(bias: i32, daylight: bool, daylight_bias: i32, standard_bias: i32) -> int {
    -(bias + if daylight {
        daylight_bias
    } else {
        standard_bias
    })
}

/// `2024-05-01 09:03:07 +08:00`.
pub open spec fn timestamp_text(t: LocalTime, offset: int) -> Seq<char> {
    let a = if offset < 0 {
        -offset
    } else {
        offset
    };
    padded(t.year as nat, 4) + "-"@ + padded(t.month as nat, 2) + "-"@ + padded(t.day as nat, 2)
        + " "@ + padded(t.hour as nat, 2) + ":"@ + padded(t.minute as nat, 2) + ":"@ + padded(
        t.second as nat,
        2,
    ) + " "@ + (if offset < 0 {
        "-"@
    } else {
        "+"@
    }) + padded((a / 60) as nat, 2) + ":"@ + padded((a % 60) as nat, 2)
}

pub fn timestamp(t: LocalTime, bias: i32, daylight: bool, daylight_bias: i32, standard_bias: i32) -> (r:
    String)
    requires
        // The offset is computed in 32 bits: the sum and its negation must fit.
        i32::MIN < bias + (if daylight {
            daylight_bias
        } else {
            standard_bias
        }) <= i32::MAX,
    ensures
        r@ == timestamp_text(t, utc_offset(bias, daylight, daylight_bias, standard_bias)),
{
    let offset: i32 = -(bias + if daylight {
        daylight_bias
    } else {
        standard_bias
    });
    let a: u32 = if offset < 0 {
        (-offset) as u32
    } else {
        offset as u32
    };
    let mut s = String::new();
    push_padded(&mut s, t.year as u128, 4);
    s.append("-");
    push_padded(&mut s, t.month as u128, 2);
    s.append("-");
    push_padded(&mut s, t.day as u128, 2);
    s.append(" ");
    push_padded(&mut s, t.hour as u128, 2);
    s.append(":");
    push_padded(&mut s, t.minute as u128, 2);
    s.append(":");
    push_padded(&mut s, t.second as u128, 2);
    s.append(" ");
    s.append(
        if offset < 0 {
            "-"
        } else {
            "+"
        },
    );
    push_padded(&mut s, (a / 60) as u128, 2);
    s.append(":");
    push_padded(&mut s, (a % 60) as u128, 2);
    proof {
        let o = utc_offset(bias, daylight, daylight_bias, standard_bias);
        assert(o == offset as int);
        assert(a as int == (if o < 0 {
            -o
        } else {
            o
        }));
        assert(s@ =~= timestamp_text(t, o));
    }
    s
}

/// The severity label of a log entry: events whose code mentions FAILED are errors.
pub open spec fn severity(code: Seq<char>) -> Seq<char> {
    if find_from(code, "FAILED"@, 0) is Some {
        "错误"@
    } else {
        "记录"@
    }
}

/// One entry of the event log.
pub open spec fn log_entry_text(
    time: Seq<char>,
    code: Seq<char>,
    operation: Option<Seq<char>>,
    message: Seq<char>,
    detail: Seq<char>,
) -> Seq<char> {
    time + "  ["@ + severity(code) + "] "@ + message + "\n事件编号："@ + code + (match operation {
        Some(id) => " · 修复编号："@ + id,
        None => Seq::empty(),
    }) + "\n"@ + detail + "\n"@
}

pub fn log_entry(time: &str, code: &str, operation: Option<&str>, message: &str, detail: &str) -> (r:
    String)
    ensures
        r@ == log_entry_text(
            time@,
            code@,
            match operation {
                Some(id) => Some(id@),
                None => None,
            },
            message@,
            detail@,
        ),
{
    let mut s = String::from_str(time);
    s.append("  [");
    s.append(
        if contains_str(code, "FAILED") {
            "错误"
        } else {
            "记录"
        },
    );
    s.append("] ");
    s.append(message);
    s.append("\n事件编号：");
    s.append(code);
    let ghost mid = s@;
    if let Some(id) = operation {
        s.append(" · 修复编号：");
        s.append(id);
    }
    s.append("\n");
    s.append(detail);
    s.append("\n");
    proof {
        let op = match operation {
            Some(id) => Some(id@),
            None => None,
        };
        let tail: Seq<char> = match op {
            Some(id) => " · 修复编号："@ + id,
            None => Seq::empty(),
        };
        assert(s@ =~= mid + tail + "\n"@ + detail@ + "\n"@);
        assert(s@ =~= log_entry_text(time@, code@, op, message@, detail@));
    }
    s
}

/// The command line registered for starting at login.
pub open spec fn autostart_command_text(exe: Seq<char>) -> Seq<char> {
    "\""@ + exe + "\" --tray"@
}

pub fn autostart_command(exe: &str) -> (r: String)
    ensures
        r@ == autostart_command_text(exe@),
{
    let mut s = String::from_str("\"");
    s.append(exe);
    s.append("\" --tray");
    s
}

/// A registry result is a failure unless it succeeded or the value was already absent.
pub fn registry_failed(code: u32) -> (r: bool)
    ensures
        r == (code != 0 && code != 2),
{
    code != 0 && code != 2
}

} // verus!
