//! The Luma digest: San Francisco events from the Luma feed, grouped under
//! a heading per day in Pacific time, each followed by what a language model
//! answers about the food served there.
use chrono::{Datelike, Timelike};
use vstd::prelude::*;
use vstd::string::*;
use crate::chunking::{chunk_message, chunks_of};
use crate::text::{decimal, digit_char, digit_value, join, join_with, lemma_digit_value, push_decimal, same_text};

verus! {

/// The `city_state` of the events the digest keeps.
pub const HOME_CITY: &'static str = "San Francisco, California";

/// Where an event's page is found, before its slug.
pub const EVENT_PAGE_BASE: &'static str = "https://lu.ma/";

/// CSS selector of the block that describes an event on its page.
pub const ABOUT_CARD_SELECTOR: &'static str = ".event-about-card";

/// What the digest starts with.
pub const DIGEST_HEADER: &'static str = "Luma in SF: \n";

/// What precedes a language model's answer in the digest.
pub const ANSWER_PREFIX: &'static str = "{'has_food': ";

/// The food question for one event, before the event's description.
pub const DIGEST_PROMPT_HEAD: &'static str = "You are a starving college student named Smallnumbers. Your mission in life is to help identify free food at tech events. You will be given event descriptions, and your job is to determine whether or not food is likely to be served. If there is food, mention what type it'll be. Give the reasoning in a 'comment' blurb inside the object you'll return.\n        --------\n            Event: \n            Join us for the Dreamforce After Party! Dive into the world of Generative AI with an exclusive gathering that combines delicious sushi, themed beverages, and stimulating conversations on the transformative impact of AI technologies on corporations. This event will feature engaging discussions with industry leaders from AWS and Observea providing unique insights into the latest tools and technologies shaping the future of AI.\n\n            Agenda\n\n            5:00 Doors Open & Networking\n\n            6:00 Welcoming Remarks\n\n            6:15 Short Demo/Panel Discussions\n\n            Panel Conversation: How GenAI will change how we work\n\n            Panelists: Shannon Brownlee (Valence Vibrations), Vamsi Pandari/Chris Leggett (Observea), Shaun VanWeelden (ex ScaleAI, OpenAI)\n\n            Lightning Presenters:\n\n            Observea (Vamsi Pandari)\n\n            Open Babylon (Yurii Filipchuk)\n\n            SylphAI & AdalFlow Demo (Li Yin)\n\n            6:30 Dinner & Drinks\n\n            9:00 Event Ends\n\n            10:00 Doors Close\n\n            Space\n\n            Step into the enchanting Roka Akor in San Francisco for the Dreamforce Gen AI After-Party, hosted by Observea and AWS. This exclusive venue combines modern sophistication with a warm, inviting atmosphere, making it a prime location for networking and insightful discussions on AI integration. Located in the historic Jackson Square, Roka Akor offers a stunning backdrop with its contemporary, chef-driven menu featuring prime steak, sushi, and seafood—all prepared on a signature robata grill.\n\n            Throughout the evening, enjoy a selection of exquisite dinner and bite-sized treats provided by your hosts, Observea and AWS, ensuring a delightful culinary experience.\n\n            This is your chance to network with the best in the industry and discuss future AI innovations. Spots are limited and exclusive to approved attendees—no +1s. If you were not pre-approved, unfortunately, you will not be admitted to the event.\n        --------\n            Answer: {'has_food': true, 'food_type': 'steak, sushi, seafood', 'contributions_required': false, 'name': 'Dreamforce Gen AI After-Party', 'comment': 'Sushi, beverages, and steaks/seafood at Roka Akor in San Francisco mentioned explicitly.'}\n        --------\n            Event:\n\n            ";

/// The food question for one event, after the event's description.
pub const DIGEST_PROMPT_TAIL: &'static str = "\n        --------\n            Answer: {'has_free_food': ";

/// The food question of a single food report, before the event's description.
pub const REPORT_PROMPT_HEAD: &'static str = "You are a starving college student named Smallnumbers. Your mission in life is to help identify free food at tech events. You will be given event descriptions, and your job is to determine whether or not food is likely to be served. If there is food, mention what type it'll be. Give the reasoning in a 'comment' blurb inside the object you'll return.\n--------\n    Event: \n    Join us for the Dreamforce After Party! Dive into the world of Generative AI with an exclusive gathering that combines delicious sushi, themed beverages, and stimulating conversations on the transformative impact of AI technologies on corporations. This event will feature engaging discussions with industry leaders from AWS and Observea providing unique insights into the latest tools and technologies shaping the future of AI.\n\n    Agenda\n\n    5:00 Doors Open & Networking\n\n    6:00 Welcoming Remarks\n\n    6:15 Short Demo/Panel Discussions\n\n    Panel Conversation: How GenAI will change how we work\n\n    Panelists: Shannon Brownlee (Valence Vibrations), Vamsi Pandari/Chris Leggett (Observea), Shaun VanWeelden (ex ScaleAI, OpenAI)\n\n    Lightning Presenters:\n\n    Observea (Vamsi Pandari)\n\n    Open Babylon (Yurii Filipchuk)\n\n    SylphAI & AdalFlow Demo (Li Yin)\n\n    6:30 Dinner & Drinks\n\n    9:00 Event Ends\n\n    10:00 Doors Close\n\n    Space\n\n    Step into the enchanting Roka Akor in San Francisco for the Dreamforce Gen AI After-Party, hosted by Observea and AWS. This exclusive venue combines modern sophistication with a warm, inviting atmosphere, making it a prime location for networking and insightful discussions on AI integration. Located in the historic Jackson Square, Roka Akor offers a stunning backdrop with its contemporary, chef-driven menu featuring prime steak, sushi, and seafood—all prepared on a signature robata grill.\n\n    Throughout the evening, enjoy a selection of exquisite dinner and bite-sized treats provided by your hosts, Observea and AWS, ensuring a delightful culinary experience.\n\n    This is your chance to network with the best in the industry and discuss future AI innovations. Spots are limited and exclusive to approved attendees—no +1s. If you were not pre-approved, unfortunately, you will not be admitted to the event.\n--------\n    Answer: {'has_food': true, 'food_type': 'steak, sushi, seafood', 'contributions_required': false, 'name': 'Dreamforce Gen AI After-Party', 'comment': 'Sushi, beverages, and steaks/seafood at Roka Akor in San Francisco mentioned explicitly.'}\n--------\n    Event:\n\n    ";

/// The food question of a single food report, after the event's description.
pub const REPORT_PROMPT_TAIL: &'static str = "\n--------\n    Answer: {'has_free_food': ";

/// What the Pacific-time start of an event is, for a start time written in
/// RFC 3339: the weekday counted from Monday (0) to Sunday (6), the month,
/// the day of the month and the hour; none where the text is no RFC 3339
/// date and time.
pub uninterp spec fn rfc3339_in_pacific(start_at: Seq<char>) -> Option<(u32, u32, u32, u32)>;

/// Calls `chrono::DateTime::parse_from_rfc3339` on `start_at`, moves the
/// result into `chrono_tz::US::Pacific` with `with_timezone`, and reads
/// `weekday().num_days_from_monday()`, `month()`, `day()` and `hour()`.
/// Claimed: the result is `rfc3339_in_pacific` of the text (none where the
/// parse fails), and the fields lie in the ranges that chrono documents.
#[verifier::external_body]
fn pacific_fields(start_at: &str) -> (r: Option<(u32, u32, u32, u32)>)
    ensures
        r == rfc3339_in_pacific(start_at@),
        r matches Some(f) ==> f.0 < 7 && 1 <= f.1 <= 12 && 1 <= f.2 <= 31 && f.3 < 24,
{
    let start = chrono::DateTime::parse_from_rfc3339(start_at).ok()?;
    let local = start.with_timezone(&chrono_tz::US::Pacific);
    Some((local.weekday().num_days_from_monday(), local.month(), local.day(), local.hour()))
}

/// A moment in Pacific time, to the hour.
#[derive(Clone, Copy, Debug, PartialEq, Eq)]
pub struct PacificTime {
    /// Days after Monday: 0 is Monday, 6 is Sunday.
    pub weekday: u32,
    /// 1 to 12.
    pub month: u32,
    /// 1 to 31.
    pub day: u32,
    /// 0 to 23.
    pub hour: u32,
}

impl PacificTime {
    /// Each field lies in its calendar range.
    pub open spec fn wf(&self) -> bool {
        &&& self.weekday < 7
        &&& 1 <= self.month <= 12
        &&& 1 <= self.day <= 31
        &&& self.hour < 24
    }
}

/// The Pacific-time start of an event whose start is written `start_at` in
/// RFC 3339; none where the text is no such date and time.
pub fn pacific_start(start_at: &str) -> (r: Option<PacificTime>)
    ensures
        match rfc3339_in_pacific(start_at@) {
            Some(f) => r == Some(PacificTime { weekday: f.0, month: f.1, day: f.2, hour: f.3 }),
            None => r is None,
        },
        r matches Some(t) ==> t.wf(),
{
    match pacific_fields(start_at) {
        Some(f) => Some(PacificTime { weekday: f.0, month: f.1, day: f.2, hour: f.3 }),
        None => None,
    }
}

/// Short English name of a weekday counted from Monday.
pub open spec fn weekday_name(weekday: u32) -> Seq<char> {
    if weekday == 0 {
        "Mon"@
    } else if weekday == 1 {
        "Tue"@
    } else if weekday == 2 {
        "Wed"@
    } else if weekday == 3 {
        "Thu"@
    } else if weekday == 4 {
        "Fri"@
    } else if weekday == 5 {
        "Sat"@
    } else {
        "Sun"@
    }
}

/// Short English name of a weekday counted from Monday.
pub fn weekday_label(weekday: u32) -> (r: &'static str)
    ensures
        r@ == weekday_name(weekday),
{
    if weekday == 0 {
        "Mon"
    } else if weekday == 1 {
        "Tue"
    } else if weekday == 2 {
        "Wed"
    } else if weekday == 3 {
        "Thu"
    } else if weekday == 4 {
        "Fri"
    } else if weekday == 5 {
        "Sat"
    } else {
        "Sun"
    }
}

/// The hour on a twelve-hour clock: 12, then 1 to 11.
pub open spec fn clock_hour(hour: u32) -> nat {
    if hour % 12 == 0 {
        12
    } else {
        (hour % 12) as nat
    }
}

/// An hour as `%l%p` writes it: the twelve-hour clock hour padded with a
/// space to two places, then `AM` or `PM`.
pub open spec fn hour_text(hour: u32) -> Seq<char> {
    (if clock_hour(hour) < 10 { " "@ } else { ""@ }) + decimal(clock_hour(hour)) + (if hour
        >= 12 {
        "PM"@
    } else {
        "AM"@
    })
}

/// The number written in the first two places of an hour text: a digit,
/// or a space standing for none, then a digit.
pub open spec fn padded_value(tens: char, ones: char) -> int {
    (if tens == ' ' { 0 } else { digit_value(tens) }) * 10 + digit_value(ones)
}

/// An hour is written as `%l%p` writes it: four characters, the hour on a
/// twelve-hour clock (1 to 12, the hour modulo 12) padded with a space,
/// then `PM` for every hour from 12 to 23 and `AM` for the others.
pub proof fn law_hour_text_is_twelve_hour_clock(hour: u32)
    requires
        hour < 24,
    ensures
        hour_text(hour).len() == 4,
        hour >= 12 <==> hour_text(hour).subrange(2, 4) == "PM"@,
        hour < 12 <==> hour_text(hour).subrange(2, 4) == "AM"@,
        1 <= padded_value(hour_text(hour)[0], hour_text(hour)[1]) <= 12,
        padded_value(hour_text(hour)[0], hour_text(hour)[1]) % 12 == hour % 12,
        '0' <= hour_text(hour)[1] <= '9',
        hour_text(hour)[0] == ' ' || hour_text(hour)[0] == '1',
{
    reveal_strlit(" ");
    reveal_strlit("");
    reveal_strlit("PM");
    reveal_strlit("AM");
    let k = clock_hour(hour);
    let t = hour_text(hour);
    let suffix = if hour >= 12 { "PM"@ } else { "AM"@ };
    assert("PM"@ != "AM"@) by {
        assert("PM"@[0] != "AM"@[0]);
    }
    if k < 10 {
        lemma_digit_value(k);
        assert(decimal(k) =~= seq![digit_char(k)]);
        assert(t =~= seq![' ', digit_char(k)] + suffix);
        assert(t.subrange(2, 4) =~= suffix);
    } else {
        lemma_digit_value(k % 10);
        lemma_digit_value(1);
        assert(decimal(k / 10) =~= seq!['1']);
        assert(decimal(k) =~= seq!['1', digit_char(k % 10)]);
        assert(t =~= seq!['1', digit_char(k % 10)] + suffix);
        assert(t.subrange(2, 4) =~= suffix);
    }
}

/// Writes an hour as `%l%p` does.
pub fn hour_label(hour: u32) -> (r: String)
    requires
        hour < 24,
    ensures
        r@ == hour_text(hour),
{
    let twelve: u32 = if hour % 12 == 0 { 12 } else { hour % 12 };
    let mut r = String::new();
    if twelve < 10 {
        r.append(" ");
    } else {
        r.append("");
    }
    push_decimal(&mut r, twelve as u64);
    if hour >= 12 {
        r.append("PM");
    } else {
        r.append("AM");
    }
    r
}

/// The heading that opens a day in the digest, such as `Mon (9/23):`.
pub open spec fn day_heading(t: PacificTime) -> Seq<char> {
    weekday_name(t.weekday) + " ("@ + decimal(t.month as nat) + "/"@ + decimal(t.day as nat)
        + "):\n"@
}

/// The line of an event in the digest: its hour, and its name linked to its page.
pub open spec fn event_line(t: PacificTime, name: Seq<char>, slug: Seq<char>) -> Seq<char> {
    "\t"@ + hour_text(t.hour) + ": ["@ + name + "]("@ + EVENT_PAGE_BASE@ + slug + ")\n"@
}

/// Address of the page of the event with slug `slug`.
pub fn event_page_url(slug: &str) -> (r: String)
    ensures
        r@ == EVENT_PAGE_BASE@ + slug@,
{
    String::from_str(EVENT_PAGE_BASE).concat(slug)
}

/// Whether the digest keeps an event with this `city_state`.
pub fn is_home_city(city_state: &str) -> (r: bool)
    ensures
        r == (city_state@ == HOME_CITY@),
{
    same_text(city_state, HOME_CITY)
}

/// What an entry of the feed cannot go without once the digest keeps it.
#[derive(Clone, Copy, Debug, PartialEq, Eq)]
pub enum LumaError {
    /// The entry has no start time.
    MissingStart,
    /// The start time is no RFC 3339 date and time.
    BadStart,
    /// The event page has no description block.
    NoDescription,
    /// The description selector was refused by the HTML scraper.
    BadSelector,
}

/// The digest being written: its text, and the weekday of the last heading.
pub struct LumaDigest {
    message: String,
    weekday: u32,
}

impl View for LumaDigest {
    type V = (Seq<char>, u32);

    closed spec fn view(&self) -> (Seq<char>, u32) {
        (self.message@, self.weekday)
    }
}

impl LumaDigest {
    /// An empty digest: only its header, with Sunday as the last heading's
    /// weekday, so that a first event on a Sunday gets no heading.
    pub fn new() -> (d: Self)
        ensures
            d@ == (DIGEST_HEADER@, 6u32),
    {
        LumaDigest { message: String::from_str(DIGEST_HEADER), weekday: 6 }
    }

    /// The digest text written so far.
    pub fn message(&self) -> (r: &str)
        ensures
            r@ == self@.0,
    {
        self.message.as_str()
    }

    /// Adds an event that starts at `start`: the day's heading first where
    /// the weekday differs from that of the last heading, then the event's line.
    pub fn add_event(&mut self, start: PacificTime, name: &str, slug: &str)
        requires
            start.wf(),
        ensures
            final(self)@.1 == start.weekday,
            final(self)@.0 == old(self)@.0 + (if start.weekday != old(self)@.1 {
                day_heading(start)
            } else {
                Seq::empty()
            }) + event_line(start, name@, slug@),
    {
        let ghost before = self.message@;
        if start.weekday != self.weekday {
            self.weekday = start.weekday;
            self.message.append(weekday_label(start.weekday));
            self.message.append(" (");
            push_decimal(&mut self.message, start.month as u64);
            self.message.append("/");
            push_decimal(&mut self.message, start.day as u64);
            self.message.append("):\n");
        }
        let ghost headed = self.message@;
        assert(headed == before + (if start.weekday != old(self)@.1 {
            day_heading(start)
        } else {
            Seq::empty()
        }));
        self.message.append("\t");
        let hour = hour_label(start.hour);
        self.message.append(hour.as_str());
        self.message.append(": [");
        self.message.append(name);
        self.message.append("](");
        self.message.append(EVENT_PAGE_BASE);
        self.message.append(slug);
        self.message.append(")\n");
        assert(self.message@ =~= headed + event_line(start, name@, slug@));
    }

    /// Reads one entry of the feed. An entry outside `HOME_CITY` leaves the
    /// digest as it is and asks for nothing (`Ok(None)`). Otherwise its start
    /// must be present and in RFC 3339, else the error and no change; the
    /// event is added at its Pacific-time start and the address of its page
    /// is asked for (`Ok(Some(..))`).
    pub fn add_entry(&mut self, city_state: &str, start_at: Option<&str>, name: &str, slug: &str) -> (r:
        Result<Option<String>, LumaError>)
        ensures
            city_state@ != HOME_CITY@ ==> r == Ok::<Option<String>, LumaError>(None) && final(self)@ == old(self)@,
            city_state@ == HOME_CITY@ ==> match start_at {
                None => r == Err::<Option<String>, LumaError>(LumaError::MissingStart) && final(self)@ == old(self)@,
                Some(s) => match rfc3339_in_pacific(s@) {
                    None => r == Err::<Option<String>, LumaError>(LumaError::BadStart) && final(self)@ == old(self)@,
                    Some(f) => {
                        let start = PacificTime { weekday: f.0, month: f.1, day: f.2, hour: f.3 };
                        &&& r matches Ok(Some(url)) && url@ == EVENT_PAGE_BASE@ + slug@
                        &&& final(self)@.1 == start.weekday
                        &&& final(self)@.0 == old(self)@.0 + (if start.weekday != old(self)@.1 {
                            day_heading(start)
                        } else {
                            Seq::empty()
                        }) + event_line(start, name@, slug@)
                    },
                },
            },
    {
        if !is_home_city(city_state) {
            return Ok(None);
        }
        match start_at {
            None => Err(LumaError::MissingStart),
            Some(s) => match pacific_start(s) {
                None => Err(LumaError::BadStart),
                Some(start) => {
                    self.add_event(start, name, slug);
                    Ok(Some(event_page_url(slug)))
                },
            },
        }
    }

    /// Adds what the language model answered about an event's food.
    pub fn add_food_answer(&mut self, answer: &str)
        ensures
            final(self)@ == (old(self)@.0 + ANSWER_PREFIX@ + answer@, old(self)@.1),
    {
        self.message.append(ANSWER_PREFIX);
        self.message.append(answer);
    }

    /// The chunks the digest is posted in.
    pub fn chunks(&self) -> (r: Vec<String>)
        ensures
            r.deep_view() == chunks_of(self@.0),
    {
        chunk_message(self.message.as_str())
    }
}

/// The line printed for a language model's answer about an event's food.
pub fn food_answer(answer: &str) -> (r: String)
    ensures
        r@ == ANSWER_PREFIX@ + answer@,
{
    String::from_str(ANSWER_PREFIX).concat(answer)
}

/// The question put to the language model about an event of the digest.
pub fn digest_prompt(description: &str) -> (r: String)
    ensures
        r@ == DIGEST_PROMPT_HEAD@ + description@ + DIGEST_PROMPT_TAIL@,
{
    String::from_str(DIGEST_PROMPT_HEAD).concat(description).concat(DIGEST_PROMPT_TAIL)
}

/// The question put to the language model by a single food report.
pub fn report_prompt(description: &str) -> (r: String)
    ensures
        r@ == REPORT_PROMPT_HEAD@ + description@ + REPORT_PROMPT_TAIL@,
{
    String::from_str(REPORT_PROMPT_HEAD).concat(description).concat(REPORT_PROMPT_TAIL)
}

/// For a page and a CSS selector: none where the selector does not parse;
/// else, for the first element of the page (parsed as a whole document)
/// that the selector matches, the text nodes below it in the order the scraper walks them;
/// none inside where no element matches.
pub uninterp spec fn first_match_text_nodes(html: Seq<char>, selector: Seq<char>) -> Option<
    Option<Seq<Seq<char>>>,
>;

/// Calls `scraper::Selector::parse` on `selector`, `scraper::Html::parse_document`
/// on `html`, takes the first element that `Html::select` yields and collects
/// its `ElementRef::text` nodes. Claimed: the result is `first_match_text_nodes`
/// of the two texts (none where the selector fails to parse).
#[verifier::external_body]
fn scrape_first_match_text(html: &str, selector: &str) -> (r: Option<Option<Vec<String>>>)
    ensures
        r.deep_view() == first_match_text_nodes(html@, selector@),
{
    let selector = scraper::Selector::parse(selector).ok()?;
    let document = scraper::Html::parse_document(html);
    Some(document.select(&selector).next().map(|e| e.text().map(|t| t.to_string()).collect()))
}

/// The description of an event from its page: the text nodes of the first
/// `ABOUT_CARD_SELECTOR` block, one per line.
pub fn event_description(html: &str) -> (r: Result<String, LumaError>)
    ensures
        match first_match_text_nodes(html@, ABOUT_CARD_SELECTOR@) {
            None => r == Err::<String, LumaError>(LumaError::BadSelector),
            Some(None) => r == Err::<String, LumaError>(LumaError::NoDescription),
            Some(Some(texts)) => r matches Ok(d) && d@ == join(texts, "\n"@),
        },
{
    match scrape_first_match_text(html, ABOUT_CARD_SELECTOR) {
        None => Err(LumaError::BadSelector),
        Some(None) => Err(LumaError::NoDescription),
        Some(Some(texts)) => {
            let d = join_with(&texts, "\n");
            Ok(d)
        },
    }
}

} // verus!
