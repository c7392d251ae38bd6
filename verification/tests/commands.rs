use bibot::chunking::{chunk_message, utf8_width_of, CHUNK_BYTES};
use bibot::dice::{dice, dice_reply};
use bibot::iss::{iss, Report, Reports};
use bibot::linkedin::{linkedin, page_jobs, job_lines, JobError, JobSearch};
use bibot::luma::{
    digest_prompt, event_description, event_page_url, food_answer, hour_label, is_home_city,
    pacific_start, report_prompt, weekday_label, LumaDigest, LumaError, PacificTime,
};
use bibot::notion::{notion, notion_heading, NotionBlock, NotionError};
use bibot::replies::{bibot, hello, partytime};
use bibot::weather::{date_part, forecast_url, weather, DayForecast};
use bibot::text::{join_with, same_text, trimmed, push_decimal, push_signed_decimal};
use bibot::version::version;

fn s(x: &str) -> String {
    x.to_string()
}

#[test]
fn fixed_replies() {
    assert_eq!(hello(), ", CCSF CS Club!");
    assert_eq!(bibot(), "Foo");
    assert_eq!(
        partytime(),
        "/create title:dev_event datetime:in 5 seconds description:test dev event duration:1 hour channel:#bot-spam"
    );
}

#[test]
fn version_reply() {
    assert_eq!(version("0.1.0"), "Bibot v0.1.0");
    assert_eq!(version(""), "Bibot v");
}

#[test]
fn decimal_rendering() {
    let mut out = s("n=");
    push_decimal(&mut out, 0);
    assert_eq!(out, "n=0");
    let mut out = String::new();
    push_decimal(&mut out, 1234567890);
    assert_eq!(out, "1234567890");
    let mut out = String::new();
    push_decimal(&mut out, u64::MAX);
    assert_eq!(out, u64::MAX.to_string());
}

#[test]
fn dice_reply_formats_the_roll() {
    assert_eq!(dice_reply(7), "Your number is: 7");
    assert_eq!(dice_reply(20), "Your number is: 20");
}

#[test]
fn dice_rolls_one_to_twenty() {
    for _ in 0..500 {
        let r = dice();
        let n: u32 = r.strip_prefix("Your number is: ").unwrap().parse().unwrap();
        assert!((1..=20).contains(&n));
    }
}

fn report(site: &str, title: &str, summary: &str, url: &str) -> Report {
    Report { title: s(title), summary: s(summary), news_site: s(site), url: s(url) }
}

#[test]
fn iss_posts_first_report() {
    let reports = Reports {
        results: vec![
            report("NASA", "Crew swap", "The crew changed.", "https://nasa.gov/a"),
            report("ESA", "Other", "Ignored.", "https://esa.int/b"),
        ],
    };
    assert_eq!(
        iss(&reports),
        "NASA: Crew swap\nThe crew changed.\n\n[Read More](https://nasa.gov/a)"
    );
}

#[test]
fn trimming_white_space() {
    assert_eq!(trimmed("  Rust Engineer \n"), "Rust Engineer");
    assert_eq!(trimmed("\u{a0}\u{3000}x y\u{2028}"), "x y");
    assert_eq!(trimmed(" \t\n "), "");
    assert_eq!(trimmed(""), "");
    assert_eq!(trimmed("\u{200b}a"), "\u{200b}a");
    for t in ["  a b  ", "\u{85}é\u{2009}", "x", "\r\n\tq\u{1680}"] {
        assert_eq!(trimmed(t), t.trim());
    }
}

#[test]
fn joining_and_comparing() {
    assert_eq!(join_with(&vec![s("a"), s("b"), s("c")], "\n"), "a\nb\nc");
    assert_eq!(join_with(&vec![s("one")], ", "), "one");
    assert_eq!(join_with(&vec![], ", "), "");
    assert!(same_text("San Francisco", "San Francisco"));
    assert!(!same_text("San Francisco", "San Jose"));
}

#[test]
fn hours_and_weekdays() {
    assert_eq!(hour_label(0), "12AM");
    assert_eq!(hour_label(9), " 9AM");
    assert_eq!(hour_label(11), "11AM");
    assert_eq!(hour_label(12), "12PM");
    assert_eq!(hour_label(13), " 1PM");
    assert_eq!(hour_label(23), "11PM");
    let names: Vec<&str> = (0..7).map(weekday_label).collect();
    assert_eq!(names, vec!["Mon", "Tue", "Wed", "Thu", "Fri", "Sat", "Sun"]);
}

#[test]
fn pacific_time_of_start() {
    // 01:30 UTC on a Monday is 18:30 on the Sunday before in daylight time.
    assert_eq!(
        pacific_start("2024-09-23T01:30:00Z"),
        Some(PacificTime { weekday: 6, month: 9, day: 22, hour: 18 })
    );
    // Winter: eight hours behind UTC.
    assert_eq!(
        pacific_start("2025-01-15T20:00:00+00:00"),
        Some(PacificTime { weekday: 2, month: 1, day: 15, hour: 12 })
    );
    assert_eq!(pacific_start("next tuesday"), None);
}

#[test]
fn home_city_and_pages() {
    assert!(is_home_city("San Francisco, California"));
    assert!(!is_home_city("Oakland, California"));
    assert_eq!(event_page_url("ai-night"), "https://lu.ma/ai-night");
    assert_eq!(food_answer("true}"), "{'has_food': true}");
}

#[test]
fn digest_groups_events_by_day() {
    let mut d = LumaDigest::new();
    assert_eq!(d.message(), "Luma in SF: \n");
    assert_eq!(
        d.add_entry("Oakland, California", Some("2024-09-23T18:00:00-07:00"), "Elsewhere", "x"),
        Ok(None)
    );
    assert_eq!(d.message(), "Luma in SF: \n");
    assert_eq!(
        d.add_entry("San Francisco, California", Some("2024-09-23T17:00:00-07:00"), "AI Night", "ai-night"),
        Ok(Some(s("https://lu.ma/ai-night")))
    );
    d.add_food_answer("true, 'food_type': 'pizza'}");
    d.add_entry("San Francisco, California", Some("2024-09-24T02:00:00Z"), "Rust Meetup", "rust")
        .unwrap();
    d.add_entry("San Francisco, California", Some("2024-09-24T16:00:00Z"), "Breakfast", "bf")
        .unwrap();
    assert_eq!(
        d.message(),
        "Luma in SF: \nMon (9/23):\n\t 5PM: [AI Night](https://lu.ma/ai-night)\n{'has_food': true, 'food_type': 'pizza'}\t 7PM: [Rust Meetup](https://lu.ma/rust)\nTue (9/24):\n\t 9AM: [Breakfast](https://lu.ma/bf)\n"
    );
}

#[test]
fn digest_sunday_first_event_has_no_heading() {
    let mut d = LumaDigest::new();
    d.add_entry("San Francisco, California", Some("2024-09-22T12:00:00-07:00"), "Brunch", "b")
        .unwrap();
    assert_eq!(d.message(), "Luma in SF: \n\t12PM: [Brunch](https://lu.ma/b)\n");
}

#[test]
fn digest_entry_errors_leave_it_unchanged() {
    let mut d = LumaDigest::new();
    assert_eq!(
        d.add_entry("San Francisco, California", None, "No time", "n"),
        Err(LumaError::MissingStart)
    );
    assert_eq!(
        d.add_entry("San Francisco, California", Some("tomorrow"), "Bad time", "b"),
        Err(LumaError::BadStart)
    );
    assert_eq!(d.message(), "Luma in SF: \n");
}

#[test]
fn event_description_from_page() {
    let html = "<html><body><div class=\"event-about-card\"><p>Free pizza</p><p>Talks at 6</p></div><div class=\"event-about-card\"><p>second</p></div></body></html>";
    assert_eq!(event_description(html), Ok(s("Free pizza\nTalks at 6")));
    assert_eq!(
        event_description("<html><body><p>nothing</p></body></html>"),
        Err(LumaError::NoDescription)
    );
}

#[test]
fn prompts_wrap_the_description() {
    let p = digest_prompt("EVENT TEXT");
    assert!(p.starts_with("You are a starving college student named Smallnumbers."));
    assert!(p.contains("\n        --------\n            Event:\n\n            EVENT TEXT\n        --------\n            Answer: {'has_free_food': "));
    assert!(p.ends_with("Answer: {'has_free_food': "));
    let q = report_prompt("EVENT TEXT");
    assert!(q.contains("\n--------\n    Event:\n\n    EVENT TEXT\n--------\n    Answer: {'has_free_food': "));
    assert!(q.contains("Answer: {'has_food': true, 'food_type': 'steak, sushi, seafood'"));
    assert!(q.contains("seafood\u{2014}all prepared"));
}

#[test]
fn chunks_short_message() {
    assert_eq!(chunk_message("a\nb"), vec![s("a\nb\n")]);
    assert_eq!(chunk_message(""), vec![s("\n")]);
}

#[test]
fn chunks_close_at_the_byte_limit() {
    let a = "A".repeat(800);
    let b = "B".repeat(800);
    let c = "C".repeat(10);
    let msg = format!("{}\n{}\n{}", a, b, c);
    let chunks = chunk_message(&msg);
    assert_eq!(chunks, vec![format!("{}\n{}\n", a, b), format!("{}\n", c)]);
    assert_eq!(chunks.concat(), format!("{}\n", msg));
    let exact = "x".repeat(CHUNK_BYTES);
    assert_eq!(chunk_message(&exact), vec![format!("{}\n", exact), s("")]);
    let short = "x".repeat(CHUNK_BYTES - 1);
    assert_eq!(chunk_message(&short), vec![format!("{}\n", short)]);
}

#[test]
fn chunks_count_utf8_bytes() {
    // 750 two-byte characters are 1500 bytes.
    let e = "\u{e9}".repeat(750);
    let msg = format!("{}\nend", e);
    assert_eq!(chunk_message(&msg), vec![format!("{}\n", e), s("end\n")]);
    assert_eq!(utf8_width_of('a'), 1);
    assert_eq!(utf8_width_of('\u{e9}'), 2);
    assert_eq!(utf8_width_of('\u{20ac}'), 3);
    assert_eq!(utf8_width_of('\u{1f600}'), 4);
}

#[test]
fn chunks_keep_the_whole_message() {
    let mut msg = String::new();
    for i in 0..400 {
        msg.push_str(&format!("line {} \u{1f355} {}\n", i, "z".repeat(i % 37)));
    }
    let chunks = chunk_message(&msg);
    assert!(chunks.len() > 1);
    assert_eq!(chunks.concat(), format!("{}\n", msg));
    for c in &chunks[..chunks.len() - 1] {
        assert!(c.len() >= CHUNK_BYTES);
    }
}

#[test]
fn digest_chunks() {
    let mut d = LumaDigest::new();
    d.add_food_answer("x");
    assert_eq!(d.chunks(), vec![s("Luma in SF: \n{'has_food': x\n")]);
}

const JOB_PAGE: &str = r#"<ul>
<li><div class="base-search-card__info"><h3 class="base-search-card__title">
          Rust Engineer
        </h3><h4 class="base-search-card__subtitle"><a href="/c/1">  Ferris Inc </a></h4></div></li>
<li><div class="base-search-card__info"><h3 class="base-search-card__title">Intern</h3><h4 class="base-search-card__subtitle"><a href="/c/2">Crab Co</a></h4></div></li>
</ul>"#;

#[test]
fn job_page_lines() {
    assert_eq!(page_jobs(JOB_PAGE), Ok(s("Rust Engineer @ Ferris Inc\nIntern @ Crab Co\n")));
    assert_eq!(page_jobs("<p>no cards</p>"), Ok(s("")));
    let missing = r#"<div class="base-search-card__info"><h3 class="base-search-card__title">Lonely</h3></div>"#;
    assert_eq!(page_jobs(missing), Err(JobError::IncompleteCard));
}

#[test]
fn job_lines_need_title_and_company() {
    assert_eq!(
        job_lines(&vec![(Some(s(" a ")), Some(s("b")))]),
        Some(s("a @ b\n"))
    );
    assert_eq!(job_lines(&vec![(Some(s("a")), None)]), None);
    assert_eq!(job_lines(&vec![]), Some(s("")));
}

#[test]
fn job_search_walks_pages() {
    let mut search = JobSearch::new("rust", 2, 3).unwrap();
    assert_eq!(
        search.next_query(),
        Some(s("https://www.linkedin.com/jobs-guest/jobs/api/seeMoreJobPostings/search?keywords=rust&location=San%20Francisco,%20California,%20United%20States&start=30"))
    );
    assert_eq!(search.add_page(JOB_PAGE), Ok(()));
    assert!(search.next_query().unwrap().ends_with("&start=40"));
    assert_eq!(search.add_page("<p></p>"), Ok(()));
    assert_eq!(search.next_query(), None);
    assert_eq!(search.reply(), "Rust Engineer @ Ferris Inc\nIntern @ Crab Co\n");
}

#[test]
fn job_search_without_results() {
    let search = JobSearch::new("cobol", 0, 0).unwrap();
    assert_eq!(search.next_query(), None);
    assert_eq!(search.reply(), "No jobs found.");
    assert_eq!(linkedin(""), "No jobs found.");
    assert_eq!(linkedin("x @ y\n"), "x @ y\n");
}

#[test]
fn job_search_page_overflow() {
    assert!(JobSearch::new("k", 1, usize::MAX).is_none());
    assert!(JobSearch::new("k", 2, usize::MAX / 10).is_none());
    assert!(JobSearch::new("k", 1, usize::MAX / 10).is_some());
    assert!(JobSearch::new("k", 0, usize::MAX).is_some());
}

#[test]
fn notion_calendar_reply() {
    assert_eq!(notion_heading(Some("Week 3")), Ok(s("**Week 3**\n")));
    assert_eq!(notion_heading(None), Err(NotionError::Untitled));
    assert_eq!(NotionError::Untitled.message(), "Untitled");
    let blocks = vec![
        NotionBlock::Paragraph(vec![s("Mon: "), s("Meeting. ")]),
        NotionBlock::Other,
        NotionBlock::Paragraph(vec![s("Fri: Party")]),
    ];
    assert_eq!(
        notion("**Week 3**\n", &blocks),
        "Here are the upcoming events for the week in our calendar:\n**Week 3**\nMon: Meeting. Fri: Party"
    );
    assert_eq!(
        notion("**T**\n", &vec![]),
        "Here are the upcoming events for the week in our calendar:\n**T**\n"
    );
}

fn day(date: &str, phrase: &str, low: i32, high: i32) -> DayForecast {
    DayForecast { date: s(date), phrase: s(phrase), low, high, unit: s("F") }
}

#[test]
fn weather_words_the_forecast() {
    let days = vec![
        day("2024-09-23T07:00:00-07:00", "Sunny", 55, 72),
        day("2024-09-24T07:00:00-07:00", "Partly cloudy", 54, 68),
    ];
    assert_eq!(
        weather(&days),
        "The weather this week in San Francisco:\n2024-09-23: Sunny, 55°F to 72°F\n2024-09-24: Partly cloudy, 54°F to 68°F\n"
    );
    assert_eq!(
        weather(&vec![day("2025-01-02T07:00:00-05:00", "Snow", -4, 1)]),
        "The weather this week in San Francisco:\n2025-01-02: Snow, -4°F to 1°F\n"
    );
    assert_eq!(weather(&vec![]), "No forecast for this week.");
}

#[test]
fn weather_request_and_dates() {
    assert_eq!(
        forecast_url("KEY"),
        "http://dataservice.accuweather.com/forecasts/v1/daily/5day/347629?apikey=KEY"
    );
    assert_eq!(date_part("2024-09-23T07:00:00-07:00"), "2024-09-23");
    assert_eq!(date_part("2024-09-23"), "2024-09-23");
    assert_eq!(date_part(""), "");
}

#[test]
fn signed_decimal_rendering() {
    let mut out = String::new();
    push_signed_decimal(&mut out, -17);
    push_signed_decimal(&mut out, 0);
    push_signed_decimal(&mut out, i32::MIN);
    assert_eq!(out, format!("-170{}", i32::MIN));
}

#[test]
fn chunks_are_runs_of_lines() {
    let msg: String = (0..120).map(|i| format!("item {:03} {}\n", i, "w".repeat(i * 7 % 50))).collect();
    let chunks = chunk_message(&msg);
    let lines: Vec<&str> = msg.split('\n').collect();
    let mut next = 0;
    for (k, c) in chunks.iter().enumerate() {
        let n = c.matches('\n').count();
        let run = &lines[next..next + n];
        assert_eq!(c, &run.iter().map(|l| format!("{}\n", l)).collect::<String>());
        let bytes: usize = run.iter().map(|l| l.len()).sum();
        if k + 1 < chunks.len() {
            assert!(bytes >= CHUNK_BYTES);
            assert!(bytes - run[n - 1].len() < CHUNK_BYTES);
        } else {
            assert!(bytes < CHUNK_BYTES);
        }
        next += n;
    }
    assert_eq!(next, lines.len());
}
