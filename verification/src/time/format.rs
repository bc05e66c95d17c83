//! Ways of writing a date and time as text.

use crate::text::{fixed_decimal, push_fixed_decimal};
use crate::time::datetime::{Format, UTCDateTime};
use vstd::prelude::*;
use vstd::string::StringExecFns;

verus! {

/// The basic format of ISO 8601 with an ordinal date: year, day of the
/// year, `T`, hour, minute, second and `Z`, without separators, as in
/// `2023166T123456Z`.
///
/// The year is written with four digits and the day of the year, counted
/// from 001, with three; a year before 0 has a minus sign before it. A
/// number that needs more digits than its field has loses its leading
/// digits.
#[derive(Clone, Copy, Debug, Default, PartialEq, Eq, Structural)]
pub struct BasicOrdinalDateTime;

/// The size of a year, without its sign.
pub open spec fn year_size(year: int) -> nat {
    if year < 0 {
        (-year) as nat
    } else {
        year as nat
    }
}

/// The text of a date and time of the given parts in the basic ordinal
/// format.
pub open spec fn basic_ordinal_text(
    year: int,
    day_of_year: nat,
    hours: nat,
    minutes: nat,
    seconds: nat,
) -> Seq<char> {
    (if year < 0 {
        seq!['-']
    } else {
        Seq::<char>::empty()
    }) + fixed_decimal(year_size(year), 4) + fixed_decimal(day_of_year + 1, 3) + seq!['T']
        + fixed_decimal(hours, 2) + fixed_decimal(minutes, 2) + fixed_decimal(seconds, 2) + seq![
        'Z',
    ]
}

impl Format<UTCDateTime> for BasicOrdinalDateTime {
    open spec fn formatted(&self, value: UTCDateTime) -> Seq<char> {
        let second_of_day = value.time()@;
        basic_ordinal_text(
            value.date().year as int,
            value.date().day_of_year as nat,
            second_of_day / 3600,
            (second_of_day % 3600) / 60,
            second_of_day % 60,
        )
    }

    fn format(&self, value: &UTCDateTime) -> (text: String) {
        let date = value.get_date();
        let (hours, minutes, seconds) = value.get_time().as_hms();
        let mut text = String::new();
        let size: u64 = if date.year < 0 {
            proof {
                reveal_strlit("-");
            }
            text.append("-");
            (-(date.year as i64)) as u64
        } else {
            date.year as u64
        };
        let ghost sign = text@;
        push_fixed_decimal(&mut text, size, 4);
        push_fixed_decimal(&mut text, date.day_of_year as u64 + 1, 3);
        proof {
            reveal_strlit("T");
            reveal_strlit("Z");
        }
        text.append("T");
        push_fixed_decimal(&mut text, hours as u64, 2);
        push_fixed_decimal(&mut text, minutes as u64, 2);
        push_fixed_decimal(&mut text, seconds as u64, 2);
        text.append("Z");
        proof {
            assert(sign =~= (if date.year < 0 {
                seq!['-']
            } else {
                Seq::<char>::empty()
            }));
            assert("T"@ =~= seq!['T']);
            assert("Z"@ =~= seq!['Z']);
            assert(text@ =~= self.formatted(*value));
        }
        text
    }
}

} // verus!
