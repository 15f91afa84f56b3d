//! File-name patterns: regular expressions with the named groups `year`,
//! `month`, `day`, `hour`, `minute` and `second`, tried in order.

use vstd::prelude::*;

use crate::clock::{local_to_utc, LocalFields, UtcTime};
use crate::numbers::{parse_i32, parse_u32, parsed_i32, parsed_u32};
use crate::paths::text_of;

verus! {

#[verifier::external_type_specification]
#[verifier::external_body]
pub struct ExRegex(regex::Regex);

#[verifier::external_type_specification]
#[verifier::external_body]
pub struct ExRegexError(regex::Error);

/// Whether regex accepts `source` as a regular expression.
pub uninterp spec fn regex_accepts(source: Seq<char>) -> bool;

/// The text of the group named `group` in the leftmost match of the regular
/// expression `source` in `text`, if there is a match and the group took
/// part in it.
pub uninterp spec fn regex_group(source: Seq<char>, text: Seq<char>, group: Seq<char>) -> Option<
    Seq<char>,
>;

/// Relies on `regex::Regex::new`: it compiles `source`, or refuses it.
#[verifier::external_body]
fn compile(source: &str) -> (r: Result<regex::Regex, regex::Error>)
    ensures
        r is Ok <==> regex_accepts(source@),
{
    regex::Regex::new(source)
}

/// A compiled pattern together with the text it was compiled from.
pub struct Pattern {
    source: String,
    compiled: regex::Regex,
}

/// A pattern that regex refused to compile.
#[derive(Clone, Debug, PartialEq, Eq)]
pub struct PatternError {
    pub source: String,
}

impl View for Pattern {
    type V = Seq<char>;

    closed spec fn view(&self) -> Seq<char> {
        self.source@
    }
}

/// Relies on `regex::Regex::captures` and `regex::Captures::name`: the text
/// of a named group in the leftmost match. `p.compiled` is always what
/// `Regex::new` made of `p.source`.
#[verifier::external_body]
fn captured_group(p: &Pattern, text: &str, group: &str) -> (r: Option<String>)
    ensures
        text_of(r) == regex_group(p@, text@, group@),
{
    p.compiled.captures(text)?.name(group).map(|m| m.as_str().to_string())
}

impl Pattern {
    /// Compiles `source`.
    pub fn new(source: &str) -> (r: Result<Pattern, PatternError>)
        ensures
            r is Ok <==> regex_accepts(source@),
            r matches Ok(p) ==> p@ == source@,
            r matches Err(e) ==> e.source@ == source@,
    {
        match compile(source) {
            Ok(compiled) => Ok(Pattern { source: String::from_str(source), compiled }),
            Err(_) => Err(PatternError { source: String::from_str(source) }),
        }
    }

    /// The text this pattern was compiled from.
    pub fn as_str(&self) -> (r: &str)
        ensures
            r@ == self@,
    {
        self.source.as_str()
    }
}

/// The named group `group` of `source` in `text`, read as a `u32`.
pub open spec fn group_u32(source: Seq<char>, text: Seq<char>, group: Seq<char>) -> Option<u32> {
    match regex_group(source, text, group) {
        Some(g) => parsed_u32(g),
        None => None,
    }
}

/// The wall-clock time that pattern `source` reads from `text`: all six
/// groups present and parsed as integers.
pub open spec fn fields_of(source: Seq<char>, text: Seq<char>) -> Option<LocalFields> {
    let year = match regex_group(source, text, "year"@) {
        Some(g) => parsed_i32(g),
        None => None,
    };
    let month = group_u32(source, text, "month"@);
    let day = group_u32(source, text, "day"@);
    let hour = group_u32(source, text, "hour"@);
    let minute = group_u32(source, text, "minute"@);
    let second = group_u32(source, text, "second"@);
    if year is Some && month is Some && day is Some && hour is Some && minute is Some
        && second is Some {
        Some(
            LocalFields {
                year: year->0,
                month: month->0,
                day: day->0,
                hour: hour->0,
                minute: minute->0,
                second: second->0,
            },
        )
    } else {
        None
    }
}

/// The time read by the first of `sources` that reads one from `text`.
pub open spec fn first_fields(sources: Seq<Seq<char>>, text: Seq<char>) -> Option<LocalFields>
    decreases sources.len(),
{
    if sources.len() == 0 {
        None
    } else {
        match fields_of(sources[0], text) {
            Some(f) => Some(f),
            None => first_fields(sources.drop_first(), text),
        }
    }
}

/// The texts of a list of patterns.
pub open spec fn sources_of(patterns: Seq<Pattern>) -> Seq<Seq<char>> {
    patterns.map_values(|p: Pattern| p@)
}

fn group_as_u32(p: &Pattern, text: &str, group: &str) -> (r: Option<u32>)
    ensures
        r == group_u32(p@, text@, group@),
{
    match captured_group(p, text, group) {
        Some(g) => parse_u32(g.as_str()),
        None => None,
    }
}

/// The wall-clock time that `p` reads from `text`.
pub fn fields_in(p: &Pattern, text: &str) -> (r: Option<LocalFields>)
    ensures
        r == fields_of(p@, text@),
{
    let year = match captured_group(p, text, "year") {
        Some(g) => parse_i32(g.as_str()),
        None => None,
    };
    let month = group_as_u32(p, text, "month");
    let day = group_as_u32(p, text, "day");
    let hour = group_as_u32(p, text, "hour");
    let minute = group_as_u32(p, text, "minute");
    let second = group_as_u32(p, text, "second");
    match (year, month, day, hour, minute, second) {
        (Some(year), Some(month), Some(day), Some(hour), Some(minute), Some(second)) => Some(
            LocalFields { year, month, day, hour, minute, second },
        ),
        _ => None,
    }
}

/// The wall-clock time read by the first pattern that reads one from `text`;
/// later patterns are not tried.
pub fn first_match(patterns: &Vec<Pattern>, text: &str) -> (r: Option<LocalFields>)
    ensures
        r == first_fields(sources_of(patterns@), text@),
{
    let ghost all = sources_of(patterns@);
    let mut i: usize = 0;
    proof {
        assert(all.subrange(0, all.len() as int) =~= all);
    }
    while i < patterns.len()
        invariant
            i <= patterns@.len(),
            all == sources_of(patterns@),
            first_fields(all, text@) == first_fields(all.subrange(i as int, all.len() as int), text@),
        decreases patterns@.len() - i,
    {
        let ghost rest = all.subrange(i as int, all.len() as int);
        assert(rest.drop_first() =~= all.subrange(i + 1, all.len() as int));
        assert(rest[0] == patterns@[i as int]@);
        let f = fields_in(&patterns[i], text);
        if f.is_some() {
            return f;
        }
        i = i + 1;
    }
    None
}

/// The instant named by the file name `name`: the local wall-clock time read
/// by the first pattern that reads one, converted to UTC. `None` where no
/// pattern reads a time, or where that time does not exist in the local
/// time zone or is ambiguous there.
pub fn parse_screenshot_name(patterns: &Vec<Pattern>, name: &str) -> (r: Option<UtcTime>)
    ensures
        first_fields(sources_of(patterns@), name@) is None ==> r is None,
        r is Some ==> first_fields(sources_of(patterns@), name@) is Some,
{
    match first_match(patterns, name) {
        Some(fields) => local_to_utc(fields),
        None => None,
    }
}

/// The first pattern that reads a time from a name decides it: patterns
/// before it read nothing, and patterns after it are never consulted,
/// whatever they are.
pub proof fn lemma_first_pattern_decides(
    sources: Seq<Seq<char>>,
    text: Seq<char>,
    i: int,
    later: Seq<Seq<char>>,
)
    requires
        0 <= i < sources.len(),
        fields_of(sources[i], text) is Some,
        forall|j: int| 0 <= j < i ==> fields_of(#[trigger] sources[j], text) is None,
    ensures
        first_fields(sources, text) == fields_of(sources[i], text),
        first_fields(sources.subrange(0, i + 1) + later, text) == fields_of(sources[i], text),
    decreases i,
{
    let s2 = sources.subrange(0, i + 1) + later;
    if i > 0 {
        assert(fields_of(sources[0], text) is None);
        let d = sources.drop_first();
        assert forall|j: int| 0 <= j < i - 1 implies fields_of(#[trigger] d[j], text) is None by {
            assert(d[j] == sources[j + 1]);
        }
        lemma_first_pattern_decides(d, text, i - 1, later);
        assert(s2[0] == sources[0]);
        assert(s2.drop_first() =~= d.subrange(0, i) + later);
    } else {
        assert(s2[0] == sources[0]);
    }
}

} // verus!
