//! Per-dataset timestamps: for every data source, the serial number and
//! the last-updated time of the load it came from, tracked alongside the
//! store for status reporting.
//!
//! A point in time is carried as its ISO 8601 text; reading the clock and
//! re-reading an RFC 2822 date are the work of an outside crate.

use vstd::prelude::*;

use crate::json::{json_escape, key_seq, sep, JsonBuilder};
use crate::meta::{rir_json_id, rir_name, rir_of_str, Rir};
use crate::text::{dec_str, dec_val, is_dec_seq, parse_u64_dec, push_char, push_u64_dec};

verus! {

/// The ISO 8601 rendering of the date-time written in an RFC 2822 text;
/// it depends on the input characters alone.
pub uninterp spec fn iso8601_of(s: Seq<char>) -> Seq<char>;

/// Whether a text is an RFC 2822 date-time that the calendar accepts; it
/// depends on the input characters alone.
pub uninterp spec fn rfc2822_parses(s: Seq<char>) -> bool;

/// Relies on chrono's `DateTime::parse_from_rfc2822` and on `DateTime::format`
/// with the `%+` specifier: reads an RFC 2822 date-time and re-renders it
/// as ISO 8601 text. Both depend on the input characters alone; `None`
/// comes back exactly when chrono cannot parse the input.
#[verifier::external_body]
fn rfc2822_to_iso8601(s: &str) -> (r: Option<String>)
    ensures
        r is Some <==> rfc2822_parses(s@),
        r matches Some(t) ==> t@ == iso8601_of(s@),
{
    match chrono::DateTime::parse_from_rfc2822(s) {
        Ok(dt) => Some(dt.format("%+").to_string()),
        Err(_) => None,
    }
}

/// Relies on chrono's `Utc::now` and on `DateTime::format` with the `%+`
/// specifier: the current time as ISO 8601 text. Nothing is promised of
/// the result: it depends on the clock. chrono's `now` itself gives up on
/// a system clock that reads before the Unix epoch.
#[verifier::external_body]
pub(crate) fn now_iso8601() -> String {
    chrono::Utc::now().format("%+").to_string()
}

/// One dataset's timestamp: the source it covers, the serial number of
/// the load, and the last-updated time as ISO 8601 text.
#[derive(Debug)]
pub struct TimeStamp(pub Rir, pub u64, pub String);

impl Clone for TimeStamp {
    fn clone(&self) -> (r: Self)
        ensures
            r == *self,
    {
        TimeStamp(self.0, self.1, self.2.clone())
    }
}

impl TimeStamp {
    /// Reads one timestamp row: the source name, the serial in decimal,
    /// and the last-updated time in RFC 2822 form. Succeeds exactly when
    /// the serial is a decimal number that fits and the calendar accepts
    /// the date-time.
    pub fn from_row(rir_field: &str, serial_field: &str, time_field: &str) -> (r: Option<
        TimeStamp,
    >)
        ensures
            r is Some <==> is_dec_seq(serial_field@) && dec_val(serial_field@) <= u64::MAX
                && rfc2822_parses(time_field@),
            r matches Some(ts) ==> {
                &&& ts.0 == rir_of_str(rir_field@)
                &&& ts.1 as nat == dec_val(serial_field@)
                &&& ts.2@ == iso8601_of(time_field@)
            },
    {
        let rir = Rir::match_from_str(rir_field);
        let serial = match parse_u64_dec(serial_field) {
            Some(v) => v,
            None => {
                return None;
            },
        };
        match rfc2822_to_iso8601(time_field) {
            Some(t) => Some(TimeStamp(rir, serial, t)),
            None => None,
        }
    }

    /// The textual form of this timestamp: source, serial and time.
    pub fn to_string(&self) -> (r: String)
        ensures
            r@ == rir_name(self.0) + seq![' '] + dec_str(self.1 as nat) + seq![' '] + self.2@,
    {
        let mut s = self.0.to_string();
        push_char(&mut s, ' ');
        push_u64_dec(&mut s, self.1);
        push_char(&mut s, ' ');
        s.append(self.2.as_str());
        proof {
            assert(s@ =~= rir_name(self.0) + seq![' '] + dec_str(self.1 as nat) + seq![' ']
                + self.2@);
        }
        s
    }
}

/// The members of one source object in the status rendering.
pub open spec fn ts_entry(ts: TimeStamp) -> Seq<char> {
    key_seq(true, 3, "type"@) + seq!['"'] + json_escape(
        if ts.0 == Rir::Unknown {
            "bgp"@
        } else {
            "rir-alloc"@
        },
    ) + seq!['"'] + key_seq(false, 3, "id"@) + seq!['"'] + json_escape(rir_json_id(ts.0))
        + seq!['"'] + key_seq(false, 3, "serial"@) + json_escape(dec_str(ts.1 as nat)) + key_seq(
        false,
        3,
        "lastUpdated"@,
    ) + seq!['"'] + json_escape(ts.2@) + seq!['"']
}

/// The elements of the sources array: one object per present timestamp.
pub open spec fn ts_objs(l: Seq<TimeStamp>) -> Seq<char>
    decreases l.len(),
{
    if l.len() == 0 {
        Seq::empty()
    } else {
        ts_objs(l.drop_last()) + sep(l.len() == 1) + crate::json::indent_seq(2) + "{\n"@ + ts_entry(
            l.last(),
        ) + seq!['\n'] + crate::json::indent_seq(2) + seq!['}']
    }
}

/// The timestamps present, in rendering order.
pub open spec fn ts_present(t: TimeStamps) -> Seq<TimeStamp> {
    opt_seq(t.afrinic) + opt_seq(t.apnic) + opt_seq(t.arin) + opt_seq(t.lacnic) + opt_seq(
        t.ripencc,
    ) + opt_seq(t.riswhois)
}

/// A sequence of zero or one elements.
pub open spec fn opt_seq(o: Option<TimeStamp>) -> Seq<TimeStamp> {
    match o {
        Some(ts) => seq![ts],
        None => Seq::empty(),
    }
}

/// The timestamps present in a row of slots, in order.
pub open spec fn present_list(l: Seq<Option<TimeStamp>>) -> Seq<TimeStamp>
    decreases l.len(),
{
    if l.len() == 0 {
        Seq::empty()
    } else {
        present_list(l.drop_last()) + opt_seq(l.last())
    }
}

/// Appending one more source object extends [`ts_objs`] by one element.
proof fn lemma_ts_objs_step(prev: Seq<TimeStamp>, ts: TimeStamp)
    ensures
        ts_objs(prev.push(ts)) == ts_objs(prev) + sep(prev.len() == 0) + crate::json::indent_seq(2)
            + "{\n"@ + ts_entry(ts) + seq!['\n'] + crate::json::indent_seq(2) + seq!['}'],
{
    let d2 = prev.push(ts);
    assert(d2.drop_last() =~= prev);
    assert(d2.last() == ts);
    assert((d2.len() == 1) == (prev.len() == 0));
}

/// The timestamps of the known data sources, one slot per source.
#[derive(Debug)]
pub struct TimeStamps {
    pub afrinic: Option<TimeStamp>,
    pub apnic: Option<TimeStamp>,
    pub arin: Option<TimeStamp>,
    pub lacnic: Option<TimeStamp>,
    pub ripencc: Option<TimeStamp>,
    pub riswhois: Option<TimeStamp>,
}

impl Clone for TimeStamps {
    fn clone(&self) -> (r: Self)
        ensures
            r == *self,
    {
        TimeStamps {
            afrinic: match &self.afrinic {
                Some(t) => Some(t.clone()),
                None => None,
            },
            apnic: match &self.apnic {
                Some(t) => Some(t.clone()),
                None => None,
            },
            arin: match &self.arin {
                Some(t) => Some(t.clone()),
                None => None,
            },
            lacnic: match &self.lacnic {
                Some(t) => Some(t.clone()),
                None => None,
            },
            ripencc: match &self.ripencc {
                Some(t) => Some(t.clone()),
                None => None,
            },
            riswhois: match &self.riswhois {
                Some(t) => Some(t.clone()),
                None => None,
            },
        }
    }
}

impl Default for TimeStamps {
    /// No source has a timestamp yet.
    fn default() -> (r: Self)
        ensures
            r.afrinic is None,
            r.apnic is None,
            r.arin is None,
            r.lacnic is None,
            r.ripencc is None,
            r.riswhois is None,
    {
        TimeStamps {
            afrinic: None,
            apnic: None,
            arin: None,
            lacnic: None,
            ripencc: None,
            riswhois: None,
        }
    }
}

/// A copy of one timestamp slot.
fn clone_slot(o: &Option<TimeStamp>) -> (r: Option<TimeStamp>)
    ensures
        r == *o,
{
    match o {
        Some(t) => Some(t.clone()),
        None => None,
    }
}

impl TimeStamps {
    /// Records `ts` in the slot of its source, replacing what was there.
    pub fn push(&mut self, ts: TimeStamp)
        ensures
            final(self).afrinic == if ts.0 == Rir::Afrinic {
                Some(ts)
            } else {
                old(self).afrinic
            },
            final(self).apnic == if ts.0 == Rir::Apnic {
                Some(ts)
            } else {
                old(self).apnic
            },
            final(self).arin == if ts.0 == Rir::Arin {
                Some(ts)
            } else {
                old(self).arin
            },
            final(self).lacnic == if ts.0 == Rir::Lacnic {
                Some(ts)
            } else {
                old(self).lacnic
            },
            final(self).ripencc == if ts.0 == Rir::RipeNcc {
                Some(ts)
            } else {
                old(self).ripencc
            },
            final(self).riswhois == if ts.0 == Rir::Unknown {
                Some(ts)
            } else {
                old(self).riswhois
            },
    {
        match ts.0 {
            Rir::Afrinic => {
                self.afrinic = Some(ts);
            },
            Rir::Apnic => {
                self.apnic = Some(ts);
            },
            Rir::Arin => {
                self.arin = Some(ts);
            },
            Rir::Lacnic => {
                self.lacnic = Some(ts);
            },
            Rir::RipeNcc => {
                self.ripencc = Some(ts);
            },
            Rir::Unknown => {
                self.riswhois = Some(ts);
            },
        }
    }

    /// Renders the present timestamps as the status document: a sources
    /// array with one object per source, each carrying its kind, its
    /// identifier, its serial and its last-updated time.
    #[verifier::rlimit(60)]
    pub fn to_jsonstring(&self) -> (r: String)
        ensures
            r@ == "{\n"@ + key_seq(true, 1, "sources"@) + "[\n"@ + ts_objs(ts_present(*self))
                + seq!['\n'] + crate::json::indent_seq(1) + seq![']'] + "\n}"@,
    {
        let mut builder = JsonBuilder::new();
        let mut sources = builder.nested();
        let mut slots: Vec<Option<TimeStamp>> = Vec::new();
        slots.push(clone_slot(&self.afrinic));
        slots.push(clone_slot(&self.apnic));
        slots.push(clone_slot(&self.arin));
        slots.push(clone_slot(&self.lacnic));
        slots.push(clone_slot(&self.ripencc));
        slots.push(clone_slot(&self.riswhois));
        proof {
            assert(slots@ =~= seq![
                self.afrinic,
                self.apnic,
                self.arin,
                self.lacnic,
                self.ripencc,
                self.riswhois,
            ]);
        }
        let mut i: usize = 0;
        while i < slots.len()
            invariant
                0 <= i <= slots.len(),
                slots@ == seq![
                    self.afrinic,
                    self.apnic,
                    self.arin,
                    self.lacnic,
                    self.ripencc,
                    self.riswhois,
                ],
                sources.spec_indent() == 2,
                sources.text() == ts_objs(present_list(slots@.subrange(0, i as int))),
                sources.spec_empty() <==> present_list(slots@.subrange(0, i as int)).len() == 0,
            decreases slots.len() - i,
        {
            let ghost prev = present_list(slots@.subrange(0, i as int));
            proof {
                assert(slots@.subrange(0, i + 1).drop_last() =~= slots@.subrange(0, i as int));
                assert(slots@.subrange(0, i + 1).last() == slots@[i as int]);
            }
            match &slots[i] {
                Some(ts) => {
                    self.append_source(&mut sources, ts);
                    proof {
                        lemma_ts_objs_step(prev, *ts);
                        assert(present_list(slots@.subrange(0, i + 1)) =~= prev.push(*ts));
                        assert(sources.text() == ts_objs(present_list(slots@.subrange(0, i + 1))));
                    }
                },
                None => {
                    proof {
                        assert(present_list(slots@.subrange(0, i + 1)) =~= prev);
                    }
                },
            }
            i = i + 1;
        }
        proof {
            assert(slots@.subrange(0, 6) =~= slots@);
            reveal_with_fuel(present_list, 7);
            assert(present_list(slots@) =~= ts_present(*self));
        }
        builder.member_array("sources", &sources);
        let r = JsonBuilder::build(builder);
        proof {
            assert(r@ =~= "{\n"@ + key_seq(true, 1, "sources"@) + "[\n"@ + ts_objs(
                ts_present(*self),
            ) + seq!['\n'] + crate::json::indent_seq(1) + seq![']'] + "\n}"@);
        }
        r
    }

    /// Appends one source object to the sources array.
    fn append_source(&self, sources: &mut JsonBuilder, ts: &TimeStamp)
        requires
            old(sources).spec_indent() == 2,
        ensures
            final(sources).text() == old(sources).text() + sep(old(sources).spec_empty())
                + crate::json::indent_seq(2) + "{\n"@ + ts_entry(*ts) + seq!['\n']
                + crate::json::indent_seq(2) + seq!['}'],
            !final(sources).spec_empty(),
            final(sources).spec_indent() == 2,
    {
        let mut obj = sources.nested();
        if let Rir::Unknown = ts.0 {
            obj.member_str("type", "bgp");
        } else {
            obj.member_str("type", "rir-alloc");
        }
        let id = ts.0.to_json_id();
        obj.member_str("id", id.as_str());
        let serial = crate::text::u64_to_string(ts.1);
        obj.member_raw("serial", serial.as_str());
        obj.member_str("lastUpdated", ts.2.as_str());
        proof {
            assert(obj.text() =~= ts_entry(*ts));
        }
        sources.array_object(&obj);
    }
}

} // verus!
