//! A stored backup as the listing mode reports it: name, UTC timestamp as
//! plain calendar fields, and its optional tags.

use chrono::TimeZone;
use vstd::prelude::*;

use crate::change::Os;
use crate::fmt::{pad2_str, pad4_str, push_pad2, push_pad4};
use crate::scan::opt_str_view;

verus! {

/// Whether `year` is a leap year of the proleptic Gregorian calendar.
pub open spec fn is_leap_year(year: u16) -> bool {
    (year % 4 == 0 && year % 100 != 0) || year % 400 == 0
}

pub open spec fn days_in_month(year: u16, month: u8) -> int {
    if month == 2 {
        if is_leap_year(year) {
            29
        } else {
            28
        }
    } else if month == 4 || month == 6 || month == 9 || month == 11 {
        30
    } else {
        31
    }
}

/// A calendar timestamp the outside date library accepts.
pub open spec fn valid_timestamp(
    year: u16,
    month: u8,
    day: u8,
    hour: u8,
    minute: u8,
    second: u8,
) -> bool {
    &&& 1 <= month <= 12
    &&& 1 <= day <= days_in_month(year, month)
    &&& hour < 24
    &&& minute < 60
    &&& second < 60
}

/// One stored backup of one game.
pub struct Backup {
    pub name: String,
    pub year: u16,
    pub month: u8,
    pub day: u8,
    pub hour: u8,
    pub minute: u8,
    pub second: u8,
    pub os: Option<Os>,
    pub comment: Option<String>,
    pub locked: bool,
}

pub struct BackupModel {
    pub name: Seq<char>,
    pub year: u16,
    pub month: u8,
    pub day: u8,
    pub hour: u8,
    pub minute: u8,
    pub second: u8,
    pub os: Option<Os>,
    pub comment: Option<Seq<char>>,
    pub locked: bool,
}

impl View for Backup {
    type V = BackupModel;

    open spec fn view(&self) -> BackupModel {
        BackupModel {
            name: self.name@,
            year: self.year,
            month: self.month,
            day: self.day,
            hour: self.hour,
            minute: self.minute,
            second: self.second,
            os: self.os,
            comment: opt_str_view(self.comment),
            locked: self.locked,
        }
    }
}

impl BackupModel {
    /// The backup carries a timestamp the date library accepts.
    pub open spec fn wf(self) -> bool {
        valid_timestamp(self.year, self.month, self.day, self.hour, self.minute, self.second)
    }

    /// The timestamp as the structured document carries it: UTC, second
    /// precision, with a trailing zone marker.
    pub open spec fn spec_utc_text(self) -> Seq<char> {
        pad4_str(self.year as nat) + seq!['-'] + pad2_str(self.month as nat) + seq!['-'] + pad2_str(
            self.day as nat,
        ) + seq!['T'] + pad2_str(self.hour as nat) + seq![':'] + pad2_str(self.minute as nat)
            + seq![':'] + pad2_str(self.second as nat) + seq!['Z']
    }
}

impl Backup {
    /// Appends the UTC timestamp in the structured document's format.
    pub fn push_utc_text(&self, out: &mut String)
        ensures
            final(out)@ == old(out)@ + self@.spec_utc_text(),
    {
        push_pad4(out, self.year as u64);
        crate::fmt::push_char(out, '-');
        push_pad2(out, self.month as u64);
        crate::fmt::push_char(out, '-');
        push_pad2(out, self.day as u64);
        crate::fmt::push_char(out, 'T');
        push_pad2(out, self.hour as u64);
        crate::fmt::push_char(out, ':');
        push_pad2(out, self.minute as u64);
        crate::fmt::push_char(out, ':');
        push_pad2(out, self.second as u64);
        crate::fmt::push_char(out, 'Z');
        proof {
            assert(out@ =~= old(out)@ + self@.spec_utc_text());
        }
    }

    /// The timestamp converted to the machine's time zone and formatted for
    /// the console listing. What comes back depends on the machine's zone
    /// database, so nothing is promised of it.
    ///
    /// Relies on chrono: `Utc.with_ymd_and_hms` accepts every valid calendar
    /// timestamp (UTC has no gaps), and `DateTime::with_timezone` plus
    /// `format` only reformat it.
    #[verifier::external_body]
    pub(crate) fn when_local_text(&self) -> String
        requires
            self@.wf(),
    {
        let utc = chrono::Utc
            .with_ymd_and_hms(
                self.year as i32,
                self.month as u32,
                self.day as u32,
                self.hour as u32,
                self.minute as u32,
                self.second as u32,
            )
            .unwrap();
        utc.with_timezone(&chrono::Local).format("%Y-%m-%dT%H:%M:%S").to_string()
    }
}

} // verus!
