//! Calendar timestamps and their packed MS-DOS form.

use vstd::prelude::*;

verus! {

/// A calendar timestamp with the fields that the MS-DOS date and time words
/// hold. No calendar rule is enforced: the fields are what the words say.
#[derive(Clone, Copy, Debug, PartialEq, Eq, Structural)]
pub struct DateTime {
    pub year: u16,
    pub month: u8,
    pub day: u8,
    pub hour: u8,
    pub minute: u8,
    pub second: u8,
}

impl DateTime {
    /// Midnight on the first day of 1980, the earliest timestamp of the format.
    pub open spec fn spec_epoch() -> DateTime {
        DateTime { year: 1980, month: 1, day: 1, hour: 0, minute: 0, second: 0 }
    }

    /// Every field fits the bits that the packed form has for it.
    pub open spec fn representable(self) -> bool {
        &&& 1980 <= self.year <= 2107
        &&& self.month <= 15
        &&& self.day <= 31
        &&& self.hour <= 31
        &&& self.minute <= 63
        &&& self.second <= 63
    }

    /// The timestamp names a day of the calendar and a time of the day,
    /// as far as that can be told without the lengths of the months.
    pub open spec fn plausible(self) -> bool {
        &&& 1980 <= self.year <= 2107
        &&& 1 <= self.month <= 12
        &&& 1 <= self.day <= 31
        &&& self.hour <= 23
        &&& self.minute <= 59
        &&& self.second <= 59
    }

    /// The packed time: seconds divided by two in bits 0 to 4, minutes in
    /// bits 5 to 10, hours in bits 11 to 15.
    pub open spec fn spec_msdos_time(self) -> u16
        recommends
            self.representable(),
    {
        (self.second / 2 + self.minute * 32 + self.hour * 2048) as u16
    }

    /// The packed date: the day in bits 0 to 4, the month in bits 5 to 8, the
    /// years since 1980 in bits 9 to 15.
    pub open spec fn spec_msdos_date(self) -> u16
        recommends
            self.representable(),
    {
        (self.day + self.month * 32 + (self.year - 1980) * 512) as u16
    }

    /// The timestamp that a packed time and date stand for.
    pub open spec fn spec_from_msdos(time: u16, date: u16) -> DateTime {
        DateTime {
            year: (1980 + date / 512) as u16,
            month: ((date / 32) % 16) as u8,
            day: (date % 32) as u8,
            hour: (time / 2048) as u8,
            minute: ((time / 32) % 64) as u8,
            second: ((time % 32) * 2) as u8,
        }
    }

    /// The timestamp without the odd second that the packed form cannot hold.
    pub open spec fn spec_truncated(self) -> DateTime {
        DateTime { second: (self.second - self.second % 2) as u8, ..self }
    }

    /// The timestamp for the given calendar fields, or the epoch where they
    /// name no time that the format can hold.
    pub open spec fn spec_from_calendar(
        year: i32,
        month: u8,
        day: u8,
        hour: u8,
        minute: u8,
        second: u8,
    ) -> DateTime {
        if 1980 <= year <= 2107 && 1 <= month <= 12 && 1 <= day <= 31 && hour <= 23 && minute
            <= 59 && second <= 59 {
            DateTime { year: year as u16, month, day, hour, minute, second }
        } else {
            Self::spec_epoch()
        }
    }

    /// Midnight on the first day of 1980.
    pub fn epoch() -> (t: DateTime)
        ensures
            t == Self::spec_epoch(),
    {
        DateTime { year: 1980, month: 1, day: 1, hour: 0, minute: 0, second: 0 }
    }

    /// Tells whether every field fits its bits in the packed form.
    pub fn is_representable(&self) -> (b: bool)
        ensures
            b == self.representable(),
    {
        1980 <= self.year && self.year <= 2107 && self.month <= 15 && self.day <= 31 && self.hour
            <= 31 && self.minute <= 63 && self.second <= 63
    }

    /// Builds a timestamp from calendar fields. Fields that name no time of
    /// the years 1980 to 2107 give the epoch.
    pub fn from_calendar(year: i32, month: u8, day: u8, hour: u8, minute: u8, second: u8) -> (t:
        DateTime)
        ensures
            t == Self::spec_from_calendar(year, month, day, hour, minute, second),
            t.plausible(),
            t.representable(),
    {
        if 1980 <= year && year <= 2107 && 1 <= month && month <= 12 && 1 <= day && day <= 31
            && hour <= 23 && minute <= 59 && second <= 59 {
            DateTime { year: year as u16, month, day, hour, minute, second }
        } else {
            Self::epoch()
        }
    }

    /// Unpacks an MS-DOS time and date.
    pub fn from_msdos(time: u16, date: u16) -> (t: DateTime)
        ensures
            t == Self::spec_from_msdos(time, date),
            t.representable(),
            t.spec_msdos_time() == time,
            t.spec_msdos_date() == date,
    {
        let second = (time & 0x1f) << 1;
        let minute = (time >> 5) & 0x3f;
        let hour = time >> 11;
        let day = date & 0x1f;
        let month = (date >> 5) & 0x0f;
        let years = date >> 9;
        assert(second == (time % 32) * 2 && minute == (time / 32) % 64 && hour == time / 2048)
            by (bit_vector)
            requires
                second == (time & 0x1f) << 1,
                minute == (time >> 5) & 0x3f,
                hour == time >> 11,
        ;
        assert(day == date % 32 && month == (date / 32) % 16 && years == date / 512)
            by (bit_vector)
            requires
                day == date & 0x1f,
                month == (date >> 5) & 0x0f,
                years == date >> 9,
        ;
        DateTime {
            year: 1980 + years,
            month: month as u8,
            day: day as u8,
            hour: hour as u8,
            minute: minute as u8,
            second: second as u8,
        }
    }

    /// Packs the timestamp into an MS-DOS time and date, in that order. The
    /// odd second is dropped. A timestamp with a field that does not fit its
    /// bits has no packed form.
    pub fn to_msdos(&self) -> (packed: Option<(u16, u16)>)
        ensures
            self.representable() ==> packed == Some((self.spec_msdos_time(), self.spec_msdos_date())),
            !self.representable() ==> packed.is_none(),
    {
        if !self.is_representable() {
            return None;
        }
        let second = (self.second / 2) as u16;
        let minute = self.minute as u16;
        let hour = self.hour as u16;
        let time = second | (minute << 5) | (hour << 11);
        assert(time == second + minute * 32 + hour * 2048) by (bit_vector)
            requires
                second <= 31,
                minute <= 63,
                hour <= 31,
                time == second | (minute << 5) | (hour << 11),
        ;
        let day = self.day as u16;
        let month = self.month as u16;
        let years = self.year - 1980;
        let date = day | (month << 5) | (years << 9);
        assert(date == day + month * 32 + years * 512) by (bit_vector)
            requires
                day <= 31,
                month <= 15,
                years <= 127,
                date == day | (month << 5) | (years << 9),
        ;
        Some((time, date))
    }

    /// Unpacking what was packed gives the timestamp back, without its odd
    /// second.
    #[verifier::rlimit(50)]
    pub proof fn lemma_pack_unpack(self)
        requires
            self.representable(),
        ensures
            Self::spec_from_msdos(self.spec_msdos_time(), self.spec_msdos_date())
                == self.spec_truncated(),
    {
        let half = (self.second / 2) as int;
        let time = half + self.minute * 32 + self.hour * 2048;
        let date = self.day + self.month * 32 + (self.year - 1980) * 512;
        assert(time % 32 == half && (time / 32) % 64 == self.minute && time / 2048 == self.hour);
        assert(date % 32 == self.day && (date / 32) % 16 == self.month && date / 512 == self.year
            - 1980);
        assert(half * 2 == self.second - self.second % 2);
    }

    /// Packing what was unpacked gives the two words back.
    pub proof fn lemma_unpack_pack(time: u16, date: u16)
        ensures
            Self::spec_from_msdos(time, date).representable(),
            Self::spec_from_msdos(time, date).spec_msdos_time() == time,
            Self::spec_from_msdos(time, date).spec_msdos_date() == date,
    {
    }
}

impl Default for DateTime {
    fn default() -> (t: DateTime)
        ensures
            t == DateTime::spec_epoch(),
    {
        DateTime::epoch()
    }
}

} // verus!
