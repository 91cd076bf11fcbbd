use crate::calendar::CalendarDateTime;
use crate::convert::{convert, decodable, decodes_to};
use crate::epoch::Epoch;
use crate::laws::lemma_decoding_is_unique;
use vstd::prelude::*;

verus! {

/// The text that chrono's `Display` gives a `NaiveDateTime` with these fields.
pub uninterp spec fn naive_datetime_text(
    year: int,
    month: int,
    day: int,
    hour: int,
    minute: int,
    second: int,
    nanosecond: int,
) -> Seq<char>;

pub open spec fn spec_datetime_text(c: CalendarDateTime) -> Seq<char> {
    naive_datetime_text(
        c.year as int,
        c.month as int,
        c.day as int,
        c.hour as int,
        c.minute as int,
        c.second as int,
        c.nanosecond as int,
    )
}

/// Relies on chrono's `Display` for `NaiveDateTime` ("%Y-%m-%d %H:%M:%S%.f"),
/// whose text depends on the fields alone. `NaiveDate::from_ymd_opt` and
/// `and_hms_nano_opt` accept every well-formed value, which `requires` asks for.
#[verifier::external_body]
fn datetime_text(c: &CalendarDateTime) -> (r: String)
    requires
        c.wf(),
    ensures
        r@ == naive_datetime_text(
            c.year as int,
            c.month as int,
            c.day as int,
            c.hour as int,
            c.minute as int,
            c.second as int,
            c.nanosecond as int,
        ),
{
    let date = chrono::NaiveDate::from_ymd_opt(c.year, c.month, c.day).unwrap();
    date.and_hms_nano_opt(c.hour, c.minute, c.second, c.nanosecond).unwrap().to_string()
}

/// The date-time shown for a count: its decoding, or the scheme's origin
/// where it does not decode.
pub open spec fn shown_datetime(scheme: Epoch, raw: int) -> CalendarDateTime {
    if decodable(scheme, raw) {
        choose|c: CalendarDateTime| decodes_to(scheme, raw, c)
    } else {
        scheme.spec_origin()
    }
}

/// State of the epoch-decoding window: the count typed in, the scheme picked,
/// and the text of the date-time shown for them.
pub struct TemplateApp {
    pub datetime: String,
    pub number: i64,
    pub selected: Epoch,
}

impl TemplateApp {
    pub fn new() -> (r: Self)
        ensures
            r.datetime@ == "1970-01-01 00:00:00"@,
            r.number == 0,
            r.selected == Epoch::Unix,
    {
        TemplateApp { datetime: "1970-01-01 00:00:00".to_owned(), number: 0, selected: Epoch::Unix }
    }

    pub fn number(&self) -> (r: i64)
        ensures
            r == self.number,
    {
        self.number
    }

    pub fn selected(&self) -> (r: Epoch)
        ensures
            r == self.selected,
    {
        self.selected
    }

    pub fn datetime(&self) -> (r: &str)
        ensures
            r@ == self.datetime@,
    {
        self.datetime.as_str()
    }

    pub fn set_number(&mut self, number: i64)
        ensures
            final(self).number == number,
            final(self).selected == old(self).selected,
            final(self).datetime@ == old(self).datetime@,
    {
        self.number = number;
    }

    pub fn set_selected(&mut self, selected: Epoch)
        ensures
            final(self).selected == selected,
            final(self).number == old(self).number,
            final(self).datetime@ == old(self).datetime@,
    {
        self.selected = selected;
    }

    /// Recomputes the shown text from the count and the scheme; a count that
    /// does not decode shows the scheme's origin.
    pub fn refresh(&mut self)
        ensures
            final(self).number == old(self).number,
            final(self).selected == old(self).selected,
            final(self).datetime@ == spec_datetime_text(
                shown_datetime(old(self).selected, old(self).number as int),
            ),
    {
        let shown = match convert(self.selected, self.number) {
            Ok(c) => {
                proof {
                    let picked = choose|d: CalendarDateTime|
                        decodes_to(self.selected, self.number as int, d);
                    lemma_decoding_is_unique(self.selected, self.number as int, c, picked);
                }
                c
            },
            Err(_) => self.selected.origin(),
        };
        self.datetime = datetime_text(&shown);
    }
}

impl Default for TemplateApp {
    fn default() -> (r: Self)
        ensures
            r.datetime@ == "1970-01-01 00:00:00"@,
            r.number == 0,
            r.selected == Epoch::Unix,
    {
        TemplateApp::new()
    }
}

} // verus!
