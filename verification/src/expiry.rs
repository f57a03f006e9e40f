//! Finding the expiry date in the free text of a WHOIS reply.
//!
//! Registrars agree on no schema, so the reader goes by two ordered tables:
//! the labels that announce an expiry date, and the formats in which the
//! date after a label may be written. The first line, label and format that
//! yield a date decide.

use vstd::prelude::*;
use crate::calendar::{
    calendar_day, naive_instant, read_day, read_naive, read_rfc3339, read_zoned, rfc3339_instant,
    zoned_instant,
};
use crate::text::{
    before_first, chars_of, contains, ends_with, find_first, first_occurrence,
    lemma_contains_in_window, lemma_first_occurrence_exists, lemma_first_occurrence_is,
    occurs_at, stands_at, trim, trim_start, trim_window,
};
use crate::time::Timestamp;

verus! {

/// The labels that announce an expiry date, most preferred first.
pub open spec fn expiry_labels() -> Seq<Seq<char>> {
    seq![
        "Expiry Date:"@,
        "Registry Expiry Date:"@,
        "Expiration Date:"@,
        "Registrar Registration Expiration Date:"@,
        "Expiration Time:"@,
        "Domain Expiration Date:"@,
        "Expires:"@,
        "Expires on:"@,
    ]
}

/// The formats tried for a date with a time of day, in this order.
pub open spec fn timestamp_formats() -> Seq<Seq<char>> {
    seq![
        "%Y-%m-%d %H:%M:%S"@,
        "%Y-%m-%dT%H:%M:%SZ"@,
        "%Y-%m-%dT%H:%M:%S%:z"@,
        "%Y-%m-%d %H:%M:%S %Z"@,
        "%d-%b-%Y %H:%M:%S %Z"@,
        "%Y-%m-%d %H:%M:%S.%f %Z"@,
        "%Y-%m-%d %H:%M:%S.%f"@,
        "%Y-%m-%dT%H:%M:%S.%fZ"@,
        "%d-%b-%Y"@,
        "%Y-%m-%d"@,
        "%Y.%m.%d"@,
        "%d.%m.%Y"@,
        "%Y/%m/%d"@,
        "%d/%m/%Y"@,
        "%B %d %Y"@,
        "%d %B %Y"@,
        "%Y-%m-%d %H:%M:%S%z"@,
    ]
}

/// The formats tried for a date alone, in this order, once no format with a
/// time of day has fitted.
pub open spec fn date_formats() -> Seq<Seq<char>> {
    seq![
        "%Y-%m-%d"@,
        "%d-%b-%Y"@,
        "%Y.%m.%d"@,
        "%d.%m.%Y"@,
        "%Y/%m/%d"@,
        "%d/%m/%Y"@,
        "%B %d %Y"@,
        "%d %B %Y"@,
    ]
}

/// The first entry of `options` that holds a value.
pub open spec fn first_some<T>(options: Seq<Option<T>>) -> Option<T>
    decreases options.len(),
{
    if options.len() == 0 {
        None
    } else if options.first() is Some {
        options.first()
    } else {
        first_some(options.drop_first())
    }
}

/// Seconds and nanoseconds since the epoch, as an instant.
pub open spec fn instant_of(parts: Option<(i64, u32)>) -> Option<Timestamp> {
    match parts {
        Some((secs, nanos)) => Some(Timestamp { secs, nanos }),
        None => None,
    }
}

/// Midnight UTC on the day that lies `day` days after 1970-01-01.
pub open spec fn midnight_of(day: Option<i32>) -> Option<Timestamp> {
    match day {
        Some(d) => Some(Timestamp::spec_midnight(d)),
        None => None,
    }
}

/// A date as it is handed to the formats: trimmed, cut before a
/// parenthesised remark (a space and an opening bracket), and trimmed again.
pub open spec fn clean(raw: Seq<char>) -> Seq<char> {
    trim(before_first(trim(raw), " ("@))
}

/// `text` with the zero fraction of a second in front of its final `Z`
/// taken out.
pub open spec fn without_zero_fraction(text: Seq<char>) -> Seq<char> {
    text.take(text.len() - ".0Z"@.len()) + "Z"@
}

/// The instant of a text that ends in `.0Z`, read as RFC 3339 with that
/// ending shortened to `Z`.
pub open spec fn zero_fraction_reading(text: Seq<char>) -> Option<Timestamp> {
    if ends_with(text, ".0Z"@) {
        instant_of(rfc3339_instant(without_zero_fraction(text)))
    } else {
        None
    }
}

/// What one format with a time of day reads from `text`: the instant that
/// the text names with its own offset, else the time that it names, taken
/// as UTC.
pub open spec fn timestamp_reading(text: Seq<char>, format: Seq<char>) -> Option<Timestamp> {
    if zoned_instant(text, format) is Some {
        instant_of(zoned_instant(text, format))
    } else {
        instant_of(naive_instant(text, format))
    }
}

/// What each format with a time of day reads from `text`.
pub open spec fn timestamp_readings(text: Seq<char>) -> Seq<Option<Timestamp>> {
    Seq::new(timestamp_formats().len(), |k: int| timestamp_reading(text, timestamp_formats()[k]))
}

/// What each format for a date alone reads from `text`: midnight UTC on
/// that day.
pub open spec fn midnight_readings(text: Seq<char>) -> Seq<Option<Timestamp>> {
    Seq::new(date_formats().len(), |k: int| midnight_of(calendar_day(text, date_formats()[k])))
}

/// The instant that the date `raw` names, once cleaned: what RFC 3339
/// reads in it as it stands; else what the rule for a zero fraction gives;
/// else what the first format with a time of day reads that fits the text
/// as a whole; else midnight on the day that the first format for a date
/// alone reads.
pub open spec fn date_reading(raw: Seq<char>) -> Option<Timestamp> {
    let text = clean(raw);
    if rfc3339_instant(text) is Some {
        instant_of(rfc3339_instant(text))
    } else if zero_fraction_reading(text) is Some {
        zero_fraction_reading(text)
    } else if first_some(timestamp_readings(text)) is Some {
        first_some(timestamp_readings(text))
    } else {
        first_some(midnight_readings(text))
    }
}

/// What `label` yields on `line`: the reading of all that follows its
/// leftmost occurrence.
pub open spec fn label_reading(line: Seq<char>, label: Seq<char>) -> Option<Timestamp> {
    match first_occurrence(line, label) {
        Some(at) => date_reading(line.skip(at + label.len())),
        None => None,
    }
}

/// What each label yields on `line`.
pub open spec fn label_readings(line: Seq<char>) -> Seq<Option<Timestamp>> {
    Seq::new(expiry_labels().len(), |k: int| label_reading(line, expiry_labels()[k]))
}

/// The expiry date on `line`: what the most preferred label yields that
/// yields anything.
pub open spec fn line_reading(line: Seq<char>) -> Option<Timestamp> {
    first_some(label_readings(line))
}

/// The length of the first line of `text`: up to its first line feed, or
/// all of it.
pub open spec fn first_line_len(text: Seq<char>) -> int {
    match first_occurrence(text, seq!['\n']) {
        Some(at) => at,
        None => text.len() as int,
    }
}

/// The expiry date in `text`: that of the first line that has one.
pub open spec fn expiry_in(text: Seq<char>) -> Option<Timestamp>
    decreases text.len(),
{
    let len = first_line_len(text);
    if line_reading(text.take(len)) is Some {
        line_reading(text.take(len))
    } else if 0 <= len < text.len() {
        expiry_in(text.skip(len + 1))
    } else {
        None
    }
}

/// An entry that holds a value, with none before it that does, is the
/// first.
pub proof fn lemma_first_some_at<T>(options: Seq<Option<T>>, k: int)
    requires
        0 <= k < options.len(),
        options[k] is Some,
        forall|j: int| 0 <= j < k ==> options[j] is None,
    ensures
        first_some(options) == options[k],
    decreases k,
{
    if k > 0 {
        let rest = options.drop_first();
        assert(rest[k - 1] == options[k]);
        assert forall|j: int| 0 <= j < k - 1 implies rest[j] is None by {
            assert(rest[j] == options[j + 1]);
        }
        lemma_first_some_at(rest, k - 1);
    }
}

/// Where no entry holds a value, there is no first.
pub proof fn lemma_first_some_none<T>(options: Seq<Option<T>>)
    requires
        forall|j: int| 0 <= j < options.len() ==> options[j] is None,
    ensures
        first_some(options) is None,
    decreases options.len(),
{
    if options.len() > 0 {
        let rest = options.drop_first();
        assert forall|j: int| 0 <= j < rest.len() implies rest[j] is None by {
            assert(rest[j] == options[j + 1]);
        }
        lemma_first_some_none(rest);
    }
}

/// A date that is an RFC 3339 timestamp once cleaned names exactly the
/// instant of that timestamp, whatever its offset from UTC and whatever
/// fraction of a second it holds, and whatever the formats would make of
/// it.
pub proof fn lemma_rfc3339_is_read_exactly(raw: Seq<char>)
    requires
        rfc3339_instant(clean(raw)) is Some,
    ensures
        date_reading(raw) == instant_of(rfc3339_instant(clean(raw))),
{
}

/// A date that RFC 3339 does not read as it stands, but that ends in `.0Z`
/// and is read with that ending shortened to `Z`, names the instant read
/// so.
pub proof fn lemma_zero_fraction_decides(raw: Seq<char>)
    requires
        rfc3339_instant(clean(raw)) is None,
        ends_with(clean(raw), ".0Z"@),
        rfc3339_instant(without_zero_fraction(clean(raw))) is Some,
    ensures
        date_reading(raw) == instant_of(rfc3339_instant(without_zero_fraction(clean(raw)))),
{
}

/// Where the most preferred label that stands on a line is followed by an
/// RFC 3339 timestamp, the expiry date on the line is the instant of that
/// timestamp.
pub proof fn lemma_rfc3339_after_label(line: Seq<char>, k: int)
    requires
        0 <= k < expiry_labels().len(),
        forall|j: int| 0 <= j < k ==> !contains(line, expiry_labels()[j]),
        first_occurrence(line, expiry_labels()[k]) matches Some(at) && rfc3339_instant(
            clean(line.skip(at + expiry_labels()[k].len())),
        ) is Some,
    ensures
        line_reading(line) == instant_of(
            rfc3339_instant(
                clean(
                    line.skip(
                        first_occurrence(line, expiry_labels()[k])->0 + expiry_labels()[k].len(),
                    ),
                ),
            ),
        ),
{
    let at = first_occurrence(line, expiry_labels()[k])->0;
    lemma_rfc3339_is_read_exactly(line.skip(at + expiry_labels()[k].len()));
    assert(label_readings(line)[k] is Some);
    assert forall|j: int| 0 <= j < k implies label_readings(line)[j] is None by {
        assert(!contains(line, expiry_labels()[j]));
    }
    lemma_first_some_at(label_readings(line), k);
}

/// The first line of a text is no longer than the text.
pub proof fn lemma_first_line_len_bounds(text: Seq<char>)
    ensures
        0 <= first_line_len(text) <= text.len(),
{
    if contains(text, seq!['\n']) {
        lemma_first_occurrence_exists(text, seq!['\n']);
    }
}

/// A line on which no label stands has no expiry date.
pub proof fn lemma_line_without_label(line: Seq<char>)
    requires
        holds_no_label(line),
    ensures
        line_reading(line) is None,
{
    assert forall|k: int| 0 <= k < label_readings(line).len() implies label_readings(line)[k]
        is None by {
        assert(!contains(line, expiry_labels()[k]));
    }
    lemma_first_some_none(label_readings(line));
}

/// A text in which none of the labels stands has no expiry date.
pub proof fn lemma_text_without_label(text: Seq<char>)
    requires
        holds_no_label(text),
    ensures
        expiry_in(text) is None,
    decreases text.len(),
{
    let len = first_line_len(text);
    lemma_first_line_len_bounds(text);
    assert forall|k: int| 0 <= k < expiry_labels().len() implies !contains(
        text.take(len),
        expiry_labels()[k],
    ) by {
        if contains(text.take(len), expiry_labels()[k]) {
            lemma_contains_in_window(text, 0, len, expiry_labels()[k]);
        }
    }
    lemma_line_without_label(text.take(len));
    if len < text.len() {
        let rest = text.skip(len + 1);
        assert forall|k: int| 0 <= k < expiry_labels().len() implies !contains(
            rest,
            expiry_labels()[k],
        ) by {
            if contains(rest, expiry_labels()[k]) {
                lemma_contains_in_window(text, len + 1, text.len() as int, expiry_labels()[k]);
            }
        }
        lemma_text_without_label(rest);
    }
}

/// Whether `text` holds none of the labels.
pub open spec fn holds_no_label(text: Seq<char>) -> bool {
    forall|k: int| 0 <= k < expiry_labels().len() ==> !contains(text, expiry_labels()[k])
}

/// Whether `text` holds no line feed.
pub open spec fn is_one_line(text: Seq<char>) -> bool {
    forall|i: int| 0 <= i < text.len() ==> text[i] != '\n'
}

/// A line feed stands in a text exactly where the text has one.
proof fn lemma_line_feed_at(text: Seq<char>, at: int)
    requires
        0 <= at < text.len(),
    ensures
        occurs_at(text, seq!['\n'], at) <==> text[at] == '\n',
{
    assert(text.subrange(at, at + 1)[0] == text[at]);
    if text[at] == '\n' {
        assert(text.subrange(at, at + 1) =~= seq!['\n']);
    }
}

/// A line with an expiry date decides for the whole text where no label
/// stands before it: `before` is what precedes the line, line feed
/// included, and `after` what follows it, from the line feed on.
pub proof fn lemma_first_labelled_line_decides(
    before: Seq<char>,
    line: Seq<char>,
    after: Seq<char>,
)
    requires
        before.len() == 0 || before.last() == '\n',
        is_one_line(line),
        after.len() == 0 || after.first() == '\n',
        holds_no_label(before),
        line_reading(line) is Some,
    ensures
        expiry_in(before + line + after) == line_reading(line),
    decreases before.len(),
{
    let text = before + line + after;
    let feed = seq!['\n'];
    if before.len() == 0 {
        assert(text =~= line + after);
        if after.len() == 0 {
            assert(text =~= line);
            assert forall|at: int| !occurs_at(text, feed, at) by {
                if 0 <= at < text.len() {
                    lemma_line_feed_at(text, at);
                }
            }
            assert(text.take(text.len() as int) =~= line);
        } else {
            let end = line.len() as int;
            lemma_line_feed_at(text, end);
            assert forall|j: int| 0 <= j < end implies !occurs_at(text, feed, j) by {
                lemma_line_feed_at(text, j);
            }
            lemma_first_occurrence_is(text, feed, end);
            assert(text.take(end) =~= line);
        }
    } else {
        let last = before.len() - 1;
        lemma_line_feed_at(text, last);
        assert(occurs_at(text, feed, last));
        lemma_first_occurrence_exists(text, feed);
        let end = first_occurrence(text, feed)->0;
        assert(end <= last) by {
            if end > last {
                assert(!occurs_at(text, feed, last));
            }
        }
        assert(text.take(end) =~= before.subrange(0, end));
        assert(holds_no_label(text.take(end))) by {
            assert forall|k: int| 0 <= k < expiry_labels().len() implies !contains(
                text.take(end),
                expiry_labels()[k],
            ) by {
                if contains(before.subrange(0, end), expiry_labels()[k]) {
                    lemma_contains_in_window(before, 0, end, expiry_labels()[k]);
                }
            }
        }
        lemma_line_without_label(text.take(end));
        let rest = before.subrange(end + 1, before.len() as int);
        assert(text.skip(end + 1) =~= rest + line + after);
        assert(holds_no_label(rest)) by {
            assert forall|k: int| 0 <= k < expiry_labels().len() implies !contains(
                rest,
                expiry_labels()[k],
            ) by {
                if contains(rest, expiry_labels()[k]) {
                    lemma_contains_in_window(
                        before,
                        end + 1,
                        before.len() as int,
                        expiry_labels()[k],
                    );
                }
            }
        }
        if rest.len() > 0 {
            assert(rest.last() == before.last());
        }
        lemma_first_labelled_line_decides(rest, line, after);
    }
}

/// In a text whose first line with a label has an RFC 3339 timestamp after
/// the most preferred label that stands on it, the expiry date is the
/// instant of that timestamp, whatever its offset from UTC and whatever
/// fraction of a second it holds.
pub proof fn lemma_rfc3339_in_text(
    before: Seq<char>,
    line: Seq<char>,
    after: Seq<char>,
    k: int,
)
    requires
        before.len() == 0 || before.last() == '\n',
        is_one_line(line),
        after.len() == 0 || after.first() == '\n',
        holds_no_label(before),
        0 <= k < expiry_labels().len(),
        forall|j: int| 0 <= j < k ==> !contains(line, expiry_labels()[j]),
        first_occurrence(line, expiry_labels()[k]) matches Some(at) && rfc3339_instant(
            clean(line.skip(at + expiry_labels()[k].len())),
        ) is Some,
    ensures
        expiry_in(before + line + after) == instant_of(
            rfc3339_instant(
                clean(
                    line.skip(
                        first_occurrence(line, expiry_labels()[k])->0 + expiry_labels()[k].len(),
                    ),
                ),
            ),
        ),
{
    lemma_rfc3339_after_label(line, k);
    lemma_first_labelled_line_decides(before, line, after);
}

/// Seconds and nanoseconds since the epoch, as an instant.
pub fn instant(parts: Option<(i64, u32)>) -> (at: Option<Timestamp>)
    ensures
        at == instant_of(parts),
{
    match parts {
        Some((secs, nanos)) => Some(Timestamp { secs, nanos }),
        None => None,
    }
}

/// Midnight UTC on the day that lies `day` days after 1970-01-01.
pub fn midnight(day: Option<i32>) -> (at: Option<Timestamp>)
    ensures
        at == midnight_of(day),
{
    match day {
        Some(d) => Some(Timestamp::midnight(d)),
        None => None,
    }
}

/// The window of `text` that holds it cleaned: it begins where the
/// whitespace at the start of `text` ends.
pub fn clean_window(text: &Vec<char>) -> (w: (usize, usize))
    ensures
        w.0 <= w.1 <= text.len(),
        text@.subrange(w.0 as int, w.1 as int) == clean(text@),
        w.0 == text.len() - trim_start(text@).len(),
{
    let (a, b) = trim_window(text, 0, text.len());
    assert(text@.subrange(0, text.len() as int) =~= text@);
    let mark: Vec<char> = chars_of(" (");
    let cut: usize = match find_first(text, a, b, &mark) {
        Some(at) => {
            assert(text@.subrange(a as int, b as int).take(at - a) =~= text@.subrange(
                a as int,
                at as int,
            ));
            at
        },
        None => b,
    };
    assert(a < cut ==> trim_start(text@.subrange(a as int, cut as int)) == text@.subrange(
        a as int,
        cut as int,
    )) by {
        if a < cut {
            assert(text@.subrange(a as int, cut as int).first() == text[a as int]);
        }
    }
    trim_window(text, a, cut)
}

/// The formats with a time of day, as they are handed to `chrono`.
fn timestamp_format_table() -> (table: Vec<&'static str>)
    ensures
        table@.len() == timestamp_formats().len(),
        forall|k: int| 0 <= k < table@.len() ==> (#[trigger] table@[k])@ == timestamp_formats()[k],
{
    vec![
        "%Y-%m-%d %H:%M:%S",
        "%Y-%m-%dT%H:%M:%SZ",
        "%Y-%m-%dT%H:%M:%S%:z",
        "%Y-%m-%d %H:%M:%S %Z",
        "%d-%b-%Y %H:%M:%S %Z",
        "%Y-%m-%d %H:%M:%S.%f %Z",
        "%Y-%m-%d %H:%M:%S.%f",
        "%Y-%m-%dT%H:%M:%S.%fZ",
        "%d-%b-%Y",
        "%Y-%m-%d",
        "%Y.%m.%d",
        "%d.%m.%Y",
        "%Y/%m/%d",
        "%d/%m/%Y",
        "%B %d %Y",
        "%d %B %Y",
        "%Y-%m-%d %H:%M:%S%z",
    ]
}

/// The formats for a date alone, as they are handed to `chrono`.
fn date_format_table() -> (table: Vec<&'static str>)
    ensures
        table@.len() == date_formats().len(),
        forall|k: int| 0 <= k < table@.len() ==> (#[trigger] table@[k])@ == date_formats()[k],
{
    vec![
        "%Y-%m-%d",
        "%d-%b-%Y",
        "%Y.%m.%d",
        "%d.%m.%Y",
        "%Y/%m/%d",
        "%d/%m/%Y",
        "%B %d %Y",
        "%d %B %Y",
    ]
}

/// The labels, as they are searched for.
fn label_table() -> (table: Vec<&'static str>)
    ensures
        table@.len() == expiry_labels().len(),
        forall|k: int| 0 <= k < table@.len() ==> (#[trigger] table@[k])@ == expiry_labels()[k],
{
    vec![
        "Expiry Date:",
        "Registry Expiry Date:",
        "Expiration Date:",
        "Registrar Registration Expiration Date:",
        "Expiration Time:",
        "Domain Expiration Date:",
        "Expires:",
        "Expires on:",
    ]
}

/// Reads the date `date_str`: cleans it, then tries RFC 3339, the rule for
/// a zero fraction, the formats with a time of day and the formats for a
/// date alone, in that order, and stops at the first that fits.
pub fn try_parse_date(date_str: &str) -> (reading: Option<Timestamp>)
    ensures
        reading == date_reading(date_str@),
{
    let chars: Vec<char> = chars_of(date_str);
    let (a, b) = clean_window(&chars);
    let text: &str = date_str.substring_char(a, b);
    let exact = instant(read_rfc3339(text));
    if exact.is_some() {
        return exact;
    }
    let marker: Vec<char> = chars_of(".0Z");
    let n: usize = marker.len();
    if n <= b - a {
        assert(text@.skip(text@.len() - n) =~= chars@.subrange(b - n, b as int));
    }
    if n <= b - a && stands_at(&chars, b - n, b, &marker) {
        let mut shortened: String = String::from_str(date_str.substring_char(a, b - n));
        shortened.append("Z");
        assert(shortened@ =~= without_zero_fraction(text@));
        let reading = instant(read_rfc3339(shortened.as_str()));
        if reading.is_some() {
            return reading;
        }
    }
    assert(zero_fraction_reading(text@) is None);
    let formats: Vec<&'static str> = timestamp_format_table();
    let mut k: usize = 0;
    while k < formats.len()
        invariant
            text@ == clean(date_str@),
            rfc3339_instant(text@) is None,
            zero_fraction_reading(text@) is None,
            k <= formats@.len() == timestamp_formats().len(),
            forall|j: int|
                0 <= j < formats@.len() ==> (#[trigger] formats@[j])@ == timestamp_formats()[j],
            forall|j: int| 0 <= j < k ==> timestamp_readings(text@)[j] is None,
        decreases formats.len() - k,
    {
        let zoned = read_zoned(text, formats[k]);
        let reading = if zoned.is_some() {
            instant(zoned)
        } else {
            instant(read_naive(text, formats[k]))
        };
        assert(reading == timestamp_readings(text@)[k as int]);
        if reading.is_some() {
            proof {
                lemma_first_some_at(timestamp_readings(text@), k as int);
            }
            return reading;
        }
        k += 1;
    }
    proof {
        lemma_first_some_none(timestamp_readings(text@));
    }
    let formats: Vec<&'static str> = date_format_table();
    let mut k: usize = 0;
    while k < formats.len()
        invariant
            text@ == clean(date_str@),
            rfc3339_instant(text@) is None,
            zero_fraction_reading(text@) is None,
            first_some(timestamp_readings(text@)) is None,
            k <= formats@.len() == date_formats().len(),
            forall|j: int|
                0 <= j < formats@.len() ==> (#[trigger] formats@[j])@ == date_formats()[j],
            forall|j: int| 0 <= j < k ==> midnight_readings(text@)[j] is None,
        decreases formats.len() - k,
    {
        let reading = midnight(read_day(text, formats[k]));
        assert(reading == midnight_readings(text@)[k as int]);
        if reading.is_some() {
            proof {
                lemma_first_some_at(midnight_readings(text@), k as int);
            }
            return reading;
        }
        k += 1;
    }
    proof {
        lemma_first_some_none(midnight_readings(text@));
    }
    None
}

/// Reads the expiry date on one line: for each label that the line holds,
/// most preferred first, the date after the label's leftmost occurrence,
/// until one can be read.
pub fn read_line(line: &str) -> (reading: Option<Timestamp>)
    ensures
        reading == line_reading(line@),
{
    let chars: Vec<char> = chars_of(line);
    let labels: Vec<&'static str> = label_table();
    let n: usize = chars.len();
    assert(chars@.subrange(0, n as int) =~= line@);
    let mut k: usize = 0;
    while k < labels.len()
        invariant
            chars@ == line@,
            n == chars.len(),
            chars@.subrange(0, n as int) == line@,
            k <= labels@.len() == expiry_labels().len(),
            forall|j: int| 0 <= j < labels@.len() ==> (#[trigger] labels@[j])@ == expiry_labels()[j],
            forall|j: int| 0 <= j < k ==> label_readings(line@)[j] is None,
        decreases labels.len() - k,
    {
        let label: Vec<char> = chars_of(labels[k]);
        match find_first(&chars, 0, n, &label) {
            Some(at) => {
                let rest: &str = line.substring_char(at + label.len(), n);
                assert(rest@ =~= line@.skip(at + label.len()));
                let reading = try_parse_date(rest);
                assert(reading == label_readings(line@)[k as int]);
                if reading.is_some() {
                    proof {
                        lemma_first_some_at(label_readings(line@), k as int);
                    }
                    return reading;
                }
            },
            None => {
                assert(label_readings(line@)[k as int] is None);
            },
        }
        k += 1;
    }
    proof {
        lemma_first_some_none(label_readings(line@));
    }
    None
}

/// Reads the expiry date out of the text of a WHOIS reply: that of the
/// first line, in the order of the text, that holds a label with a date
/// after it that can be read. Nothing where no line holds one, which is
/// common and no failure of the lookup.
pub fn parse_expiry_date(whois_text: &str) -> (reading: Option<Timestamp>)
    ensures
        reading == expiry_in(whois_text@),
{
    let chars: Vec<char> = chars_of(whois_text);
    let feed: Vec<char> = vec!['\n'];
    let n: usize = chars.len();
    let mut start: usize = 0;
    assert(whois_text@.skip(0) =~= whois_text@);
    assert(feed@ =~= seq!['\n']);
    loop
        invariant
            chars@ == whois_text@,
            n == chars.len(),
            feed@ == seq!['\n'],
            start <= n,
            expiry_in(whois_text@) == expiry_in(whois_text@.skip(start as int)),
        decreases n - start,
    {
        let ghost rest = chars@.skip(start as int);
        assert(chars@.subrange(start as int, n as int) =~= rest);
        let end: usize = match find_first(&chars, start, n, &feed) {
            Some(at) => at,
            None => n,
        };
        assert(first_line_len(rest) == end - start);
        let line: &str = whois_text.substring_char(start, end);
        assert(line@ =~= rest.take(end - start));
        let reading = read_line(line);
        if reading.is_some() {
            return reading;
        }
        if end >= n {
            return None;
        }
        assert(rest.skip(end - start + 1) =~= chars@.skip(end + 1));
        start = end + 1;
    }
}

} // verus!
