//! The weather command: the week's daily forecast for San Francisco, one
//! line per day.
use vstd::prelude::*;
use vstd::string::*;
use crate::text::{push_signed_decimal, signed_decimal};

verus! {

/// The daily forecast endpoint for San Francisco (AccuWeather location 347629).
pub const FORECAST_URL: &'static str = "http://dataservice.accuweather.com/forecasts/v1/daily/5day/347629?apikey=";

/// What opens the forecast.
pub const FORECAST_HEADER: &'static str = "The weather this week in San Francisco:\n";

/// The answer when the forecast holds no day.
pub const NO_FORECAST: &'static str = "No forecast for this week.";

/// The forecast of one day, temperatures rounded to whole degrees.
pub struct DayForecast {
    /// The day, as the forecast writes it (an ISO 8601 date and time).
    pub date: String,
    /// The forecast's words for the day, such as `Mostly sunny`.
    pub phrase: String,
    /// The lowest temperature.
    pub low: i32,
    /// The highest temperature.
    pub high: i32,
    /// The temperature unit, such as `F`.
    pub unit: String,
}

/// The address of the week's forecast, for the API key `api_key`.
pub fn forecast_url(api_key: &str) -> (r: String)
    ensures
        r@ == FORECAST_URL@ + api_key@,
{
    String::from_str(FORECAST_URL).concat(api_key)
}

/// The calendar date of an ISO 8601 date and time: what comes before the
/// first `T` (the whole text where there is none).
pub open spec fn calendar_date(date: Seq<char>) -> Seq<char>
    decreases date.len(),
{
    if date.len() == 0 || date[0] == 'T' {
        Seq::empty()
    } else {
        seq![date[0]] + calendar_date(date.drop_first())
    }
}

/// The calendar date of an ISO 8601 date and time.
pub fn date_part(date: &str) -> (r: String)
    ensures
        r@ == calendar_date(date@),
{
    let n = date.unicode_len();
    let mut i: usize = 0;
    while i < n && date.get_char(i) != 'T'
        invariant
            n == date@.len(),
            i <= n,
            forall|k: int| 0 <= k < i ==> date@[k] != 'T',
        decreases n - i,
    {
        i = i + 1;
    }
    proof {
        lemma_calendar_date(date@, i as int);
    }
    String::from_str(date.substring_char(0, i))
}

proof fn lemma_calendar_date(date: Seq<char>, i: int)
    requires
        0 <= i <= date.len(),
        forall|k: int| 0 <= k < i ==> date[k] != 'T',
        i == date.len() || date[i] == 'T',
    ensures
        calendar_date(date) == date.subrange(0, i),
    decreases date.len(),
{
    if date.len() > 0 && date[0] != 'T' {
        lemma_calendar_date(date.drop_first(), i - 1);
        assert(date.subrange(0, i) =~= seq![date[0]] + date.drop_first().subrange(0, i - 1));
    } else {
        assert(date.subrange(0, i) =~= Seq::<char>::empty());
    }
}

/// The line of one day: its date, its words, and its range of temperatures.
pub open spec fn day_line(d: DayForecast) -> Seq<char> {
    calendar_date(d.date@) + ": "@ + d.phrase@ + ", "@ + signed_decimal(d.low as int) + "°"@
        + d.unit@ + " to "@ + signed_decimal(d.high as int) + "°"@ + d.unit@ + "\n"@
}

/// The lines of all days, in order.
pub open spec fn forecast_lines(days: Seq<DayForecast>) -> Seq<char>
    decreases days.len(),
{
    if days.len() == 0 {
        Seq::empty()
    } else {
        forecast_lines(days.drop_last()) + day_line(days.last())
    }
}

/// Posts the weather this week: a header, then one line per day of the
/// forecast with its words and its lowest and highest temperature;
/// `NO_FORECAST` where the forecast holds no day.
pub fn weather(days: &Vec<DayForecast>) -> (r: String)
    ensures
        days.len() == 0 ==> r@ == NO_FORECAST@,
        days.len() > 0 ==> r@ == FORECAST_HEADER@ + forecast_lines(days@),
{
    if days.len() == 0 {
        return String::from_str(NO_FORECAST);
    }
    let mut r = String::from_str(FORECAST_HEADER);
    let mut i: usize = 0;
    assert(days@.take(0) =~= Seq::<DayForecast>::empty());
    while i < days.len()
        invariant
            i <= days.len(),
            r@ == FORECAST_HEADER@ + forecast_lines(days@.take(i as int)),
        decreases days.len() - i,
    {
        assert(days@.take(i + 1).drop_last() =~= days@.take(i as int));
        let d = &days[i];
        let date = date_part(d.date.as_str());
        let ghost before = r@;
        r.append(date.as_str());
        r.append(": ");
        r.append(d.phrase.as_str());
        r.append(", ");
        push_signed_decimal(&mut r, d.low);
        r.append("°");
        r.append(d.unit.as_str());
        r.append(" to ");
        push_signed_decimal(&mut r, d.high);
        r.append("°");
        r.append(d.unit.as_str());
        r.append("\n");
        assert(r@ =~= before + day_line(*d));
        i = i + 1;
    }
    assert(days@.take(days.len() as int) =~= days@);
    r
}

} // verus!
