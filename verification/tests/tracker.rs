use battery_tracker::chart::{
    area_polygon, chart_bounds, format_time, percent_labels, render_chart, time_labels,
    ChartBounds, PlotPoint,
};
use battery_tracker::loader::{load_history, parse_or_zero, parse_record_line};
use battery_tracker::record::{encode_record, header_line, sample_now, sanitize_model};
use battery_tracker::sample::{BatteryReading, ChargeState, Sample, Timestamp};
use battery_tracker::sampler::{interval_label, Sampler};

fn reading(centi_percent: u32) -> BatteryReading {
    BatteryReading {
        centi_percent,
        model: String::from("ModelX"),
        state: ChargeState::Discharging,
        cycle_count: Some(120),
        centi_energy_full: 5510,
        centi_energy_full_design: 6000,
        centi_energy: 2755,
        centi_voltage: 1140,
    }
}

fn sample_at(hour: u32, minute: u32, centi_percent: u32) -> Sample {
    Sample {
        stamp: Timestamp { year: 2024, month: 5, day: 3, hour, minute, second: 7 },
        reading: reading(centi_percent),
    }
}

#[test]
fn header_names_all_fields() {
    assert_eq!(
        header_line(),
        "timestamp,hour,minute,percentage,model,state,cycle_count,energy_full,energy_full_design,energy,voltage"
    );
}

#[test]
fn encode_record_exact_line() {
    let line = encode_record(&sample_at(8, 30, 5000));
    assert_eq!(
        line,
        "2024-5-3 8:30:7,8,30,50.00,ModelX,Discharging,120,55.10,60.00,27.55,11.40"
    );
}

#[test]
fn encode_record_empty_cycle_count() {
    let mut s = sample_at(8, 30, 5000);
    s.reading.cycle_count = None;
    let line = encode_record(&s);
    assert_eq!(
        line,
        "2024-5-3 8:30:7,8,30,50.00,ModelX,Discharging,,55.10,60.00,27.55,11.40"
    );
}

#[test]
fn percentage_round_trips_within_tolerance() {
    for &pct in &[0.0_f64, 0.07, 12.5, 50.0, 99.99, 100.0] {
        let centi = (pct * 100.0).round() as u32;
        let line = encode_record(&sample_at(8, 30, centi));
        let (point, _info) = parse_record_line(&line).expect("well-formed line");
        let recovered = point.y as f64 / 100.0;
        assert!((recovered - pct).abs() <= 0.01, "{pct} -> {recovered}");
        assert_eq!(point.y as u32, centi);
    }
}

#[test]
fn load_counts_points_and_skips_short_lines() {
    let mut lines: Vec<String> = vec![header_line()];
    lines.push(encode_record(&sample_at(8, 0, 5000)));
    lines.push(encode_record(&sample_at(9, 0, 4800)));
    lines.push(String::from("too,short,line"));
    lines.push(encode_record(&sample_at(10, 0, 4600)));
    let (points, info) = load_history(&lines);
    assert_eq!(points.len(), 3);
    let (points2, info2) = load_history(&lines);
    assert_eq!(points, points2);
    assert_eq!(info, info2);
}

#[test]
fn load_all_well_formed_yields_one_point_per_line() {
    let mut lines: Vec<String> = vec![header_line()];
    for h in 0..5u32 {
        lines.push(encode_record(&sample_at(h, 15, 5000 - 100 * h)));
    }
    let (points, _) = load_history(&lines);
    assert_eq!(points.len(), 5);
}

#[test]
fn snapshot_is_last_well_formed_line() {
    let mut lines: Vec<String> = vec![header_line()];
    lines.push(encode_record(&sample_at(8, 0, 5000)));
    let mut last = sample_at(9, 0, 4800);
    last.reading.model = String::from("FinalModel");
    last.reading.state = ChargeState::Charging;
    last.reading.cycle_count = Some(7);
    lines.push(encode_record(&last));
    lines.push(String::from("short,tail"));
    let (_points, info) = load_history(&lines);
    let info = info.expect("a well-formed line was seen");
    assert_eq!(info.model, "FinalModel");
    assert_eq!(info.state, "Charging");
    assert_eq!(info.cycle_count, "7");
    assert_eq!(info.energy_full, "55.10");
    assert_eq!(info.energy_full_design, "60.00");
    assert_eq!(info.energy, "27.55");
    assert_eq!(info.voltage, "11.40");
}

#[test]
fn empty_log_loads_nothing() {
    let lines: Vec<String> = Vec::new();
    let (points, info) = load_history(&lines);
    assert!(points.is_empty());
    assert!(info.is_none());
    let header_only = vec![header_line()];
    let (points, info) = load_history(&header_only);
    assert!(points.is_empty());
    assert!(info.is_none());
}

#[test]
fn parse_record_line_needs_eleven_fields() {
    assert!(parse_record_line("a,b,c,d,e,f,g,h,i,j").is_none());
    assert!(parse_record_line("a,b,c,d,e,f,g,h,i,j,k").is_some());
}

#[test]
fn lenient_numeric_fields_default_to_zero() {
    assert_eq!(parse_or_zero("abc"), 0);
    assert_eq!(parse_or_zero(""), 0);
    assert_eq!(parse_or_zero("-3"), 0);
    assert_eq!(parse_or_zero(".5"), 0);
    assert_eq!(parse_or_zero("8"), 800);
    assert_eq!(parse_or_zero("8.5"), 850);
    assert_eq!(parse_or_zero("8.555"), 855);
    assert_eq!(parse_or_zero("50.00"), 5000);
    assert_eq!(parse_or_zero("12345678901234567890"), 0);
}

#[test]
fn percentage_above_hundred_is_not_clamped() {
    // The sensor is trusted to stay in range; the pipeline itself does not
    // clamp, and a value above 100 percent survives the round trip.
    let line = encode_record(&sample_at(8, 30, 15000));
    assert!(line.contains(",150.00,"));
    let (point, _) = parse_record_line(&line).unwrap();
    assert_eq!(point.y, 15000);
}

#[test]
fn fractional_hour_and_minute_fields_combine_exactly() {
    let line = "ts,8.5,30,50.00,m,s,c,ef,efd,e,v";
    let (point, _) = parse_record_line(line).unwrap();
    // 8.5 hours plus 30 minutes is 9 hours.
    assert_eq!(point.x, 54000);
    assert_eq!(point.y, 5000);
}

#[test]
fn bounds_are_fixed_whatever_the_data() {
    let expected = ChartBounds { min_x: 0, min_y: 0, max_x: 144000, max_y: 10000 };
    assert_eq!(chart_bounds(), expected);
    let empty: Vec<PlotPoint> = Vec::new();
    let scene = render_chart(&empty);
    assert_eq!(scene.bounds, expected);
    assert!(scene.line.is_empty());
    assert!(scene.area.is_empty());
    assert!(scene.time_labels.is_empty());
    let busy = vec![PlotPoint { x: 999999, y: 999999 }];
    assert_eq!(render_chart(&busy).bounds, expected);
}

#[test]
fn format_time_examples() {
    assert_eq!(format_time(81000), "13:30"); // 13.5 hours
    assert_eq!(format_time(0), "00:00");
    assert_eq!(format_time(57000), "09:30"); // 9.5 hours
}

#[test]
fn format_time_rolls_minute_sixty_into_next_hour() {
    // 23.999 hours scaled: the minute rounds to sixty and rolls into the
    // next day's first hour.
    let x = (23.999_f64 * 6000.0).round() as u64;
    assert_eq!(x, 143994);
    assert_eq!(format_time(x), "00:00");
    // Just below one hour rounds up into the next full hour.
    let y = (0.9999_f64 * 6000.0).round() as u64;
    assert_eq!(format_time(y), "01:00");
}

#[test]
fn end_to_end_two_records() {
    let lines = vec![
        header_line(),
        encode_record(&sample_at(8, 0, 5000)),
        encode_record(&sample_at(9, 30, 5500)),
    ];
    let (points, _) = load_history(&lines);
    assert_eq!(points, vec![PlotPoint { x: 48000, y: 5000 }, PlotPoint { x: 57000, y: 5500 }]);
    let as_hours: Vec<(f64, f64)> =
        points.iter().map(|p| (p.x as f64 / 6000.0, p.y as f64 / 100.0)).collect();
    assert_eq!(as_hours, vec![(8.0, 50.0), (9.5, 55.0)]);
    let area = area_polygon(&points);
    assert_eq!(
        area,
        vec![
            PlotPoint { x: 48000, y: 0 },
            PlotPoint { x: 48000, y: 5000 },
            PlotPoint { x: 57000, y: 5500 },
            PlotPoint { x: 57000, y: 0 },
        ]
    );
}

#[test]
fn time_labels_first_mid_now() {
    let two = vec![PlotPoint { x: 48000, y: 5000 }, PlotPoint { x: 57000, y: 5500 }];
    let labels = time_labels(&two);
    assert_eq!(labels.len(), 2);
    assert_eq!(labels[0].pos, 48000);
    assert_eq!(labels[0].text, "08:00");
    assert_eq!(labels[1].pos, 57000);
    assert_eq!(labels[1].text, "now");

    let three = vec![
        PlotPoint { x: 48000, y: 5000 },
        PlotPoint { x: 51000, y: 5200 },
        PlotPoint { x: 57000, y: 5500 },
    ];
    let labels = time_labels(&three);
    assert_eq!(labels.len(), 3);
    assert_eq!(labels[2].pos, 51000);
    assert_eq!(labels[2].text, "08:30");
}

#[test]
fn percent_labels_quarters() {
    let labels = percent_labels();
    let got: Vec<(u64, &str)> = labels.iter().map(|l| (l.pos, l.text.as_str())).collect();
    assert_eq!(
        got,
        vec![(0, "0%"), (2500, "25%"), (5000, "50%"), (7500, "75%"), (10000, "100%")]
    );
}

#[test]
fn sanitize_model_replaces_commas() {
    assert_eq!(sanitize_model("a,b,c"), "a b c");
    assert_eq!(sanitize_model("plain"), "plain");
    assert_eq!(sanitize_model(""), "");
}

#[test]
fn sampler_interval_change_waits_for_current_sleep() {
    let mut s = Sampler::new();
    assert_eq!(s.interval_secs, 60);
    let d = s.begin_sleep();
    assert_eq!(d, 60);
    // Reconfigured mid-sleep: the sleep in progress keeps its duration.
    s.set_interval(600);
    assert_eq!(s.sleeping, Some(60));
    s.end_sleep();
    // Only the next tick sees the new interval.
    let d2 = s.begin_sleep();
    assert_eq!(d2, 600);
}

#[test]
fn interval_label_text() {
    assert_eq!(interval_label(60), "1 min");
    assert_eq!(interval_label(1800), "30 min");
    assert_eq!(interval_label(3600), "1.0 hrs");
}

#[test]
fn sample_now_stamps_a_plausible_clock() {
    let s = sample_now(reading(5000));
    assert!((1..=12).contains(&s.stamp.month));
    assert!((1..=31).contains(&s.stamp.day));
    assert!(s.stamp.hour < 24);
    assert!(s.stamp.minute < 60);
    assert!(s.stamp.second < 60);
    assert!(s.stamp.year >= 2024);
    assert_eq!(s.reading.centi_percent, 5000);
}

#[test]
fn encoded_model_with_comma_breaks_line_unless_sanitized() {
    // The sanitizer is what keeps free text from gaining extra fields.
    let mut s = sample_at(8, 0, 5000);
    s.reading.model = sanitize_model("Brand, Inc");
    let line = encode_record(&s);
    assert_eq!(line.split(',').count(), 11);
    let (_, info) = parse_record_line(&line).unwrap();
    assert_eq!(info.model, "Brand  Inc");
}
