//! The chart renderer's geometry: a fixed 24-hour by 0–100-percent viewport,
//! the filled-area outline under the series, and the axis labels.
//!
//! x-coordinates are in 1/6000 of an hour and y-coordinates in hundredths of
//! a percent, so both are exact integers for any two-decimal log fields.

use vstd::prelude::*;
use crate::digits::{digit_char, digit_char_x};
use vstd::arithmetic::div_mod::lemma_fundamental_div_mod;

verus! {

/// Chart x units per hour.
pub const X_PER_HOUR: u64 = 6000;

/// Chart y units per percentage point.
pub const Y_PER_PERCENT: u64 = 100;

/// One point of the plotted time series.
#[derive(Clone, Copy, PartialEq, Eq, Structural, Debug)]
pub struct PlotPoint {
    /// Hour of day times `X_PER_HOUR`.
    pub x: u64,
    /// Percentage times `Y_PER_PERCENT`.
    pub y: u64,
}

/// The fixed viewport of the chart.
#[derive(Clone, Copy, PartialEq, Eq, Structural, Debug)]
pub struct ChartBounds {
    pub min_x: u64,
    pub min_y: u64,
    pub max_x: u64,
    pub max_y: u64,
}

/// The viewport is always exactly 0..=24 hours by 0..=100 percent,
/// whatever the data holds.
pub fn chart_bounds() -> (b: ChartBounds)
    ensures
        b == (ChartBounds { min_x: 0, min_y: 0, max_x: (24 * X_PER_HOUR) as u64, max_y: (100 * Y_PER_PERCENT) as u64 }),
{
    ChartBounds { min_x: 0, min_y: 0, max_x: 24 * X_PER_HOUR, max_y: 100 * Y_PER_PERCENT }
}

/// The outline of the filled area under the series: the series closed by
/// base points at the first and last x-coordinates; empty for an empty
/// series.
pub open spec fn spec_area_polygon(ps: Seq<PlotPoint>) -> Seq<PlotPoint> {
    if ps.len() == 0 {
        Seq::<PlotPoint>::empty()
    } else {
        seq![PlotPoint { x: ps[0].x, y: 0 }] + ps + seq![
            PlotPoint { x: ps[ps.len() - 1].x, y: 0 },
        ]
    }
}

pub fn area_polygon(points: &Vec<PlotPoint>) -> (r: Vec<PlotPoint>)
    ensures
        r@ == spec_area_polygon(points@),
{
    let mut r: Vec<PlotPoint> = Vec::new();
    if points.len() == 0 {
        proof {
            assert(r@ =~= spec_area_polygon(points@));
        }
        return r;
    }
    r.push(PlotPoint { x: points[0].x, y: 0 });
    let mut i: usize = 0;
    while i < points.len()
        invariant
            points@.len() > 0,
            i <= points@.len(),
            r@ == seq![PlotPoint { x: points@[0].x, y: 0 }] + points@.take(i as int),
        decreases points@.len() - i,
    {
        r.push(points[i]);
        proof {
            assert(seq![PlotPoint { x: points@[0].x, y: 0 }] + points@.take(i as int + 1)
                =~= (seq![PlotPoint { x: points@[0].x, y: 0 }] + points@.take(i as int)).push(
                points@[i as int]));
        }
        i += 1;
    }
    r.push(PlotPoint { x: points[points.len() - 1].x, y: 0 });
    proof {
        assert(points@.take(points@.len() as int) =~= points@);
        assert(r@ =~= spec_area_polygon(points@));
    }
    r
}

/// The time-of-day text for a scaled x-coordinate, as `HH:MM`. The hour is
/// the floor, the minute the fraction rounded to the nearest minute; a
/// minute that rounds to sixty rolls over into the next hour, and hours
/// wrap at midnight.
pub open spec fn spec_format_time(x: u64) -> Seq<char> {
    let h0 = x as int / 6000;
    let m0 = (x as int % 6000 + 50) / 100;
    let h1 = if m0 == 60 { h0 + 1 } else { h0 };
    let m = if m0 == 60 { 0 } else { m0 };
    let h = h1 % 24;
    seq![digit_char(h / 10), digit_char(h % 10), ':', digit_char(m / 10), digit_char(m % 10)]
}

pub fn format_time(x: u64) -> (r: String)
    ensures
        r@ == spec_format_time(x),
{
    let h0: u64 = x / 6000;
    let m0: u64 = (x % 6000 + 50) / 100;
    proof {
        lemma_fundamental_div_mod((x % 6000 + 50) as int, 100);
        lemma_fundamental_div_mod(x as int, 6000);
    }
    let h1: u64 = if m0 == 60 { h0 + 1 } else { h0 };
    let m: u64 = if m0 == 60 { 0 } else { m0 };
    let h: u64 = h1 % 24;
    let mut r = String::new();
    r.push(digit_char_x(h / 10));
    r.push(digit_char_x(h % 10));
    r.push(':');
    r.push(digit_char_x(m / 10));
    r.push(digit_char_x(m % 10));
    proof {
        assert(r@ =~= spec_format_time(x));
    }
    r
}

/// One axis label: a position along its axis, in scaled units, and its text.
pub struct AxisLabel {
    pub pos: u64,
    pub text: String,
}

pub ghost struct LabelModel {
    pub pos: u64,
    pub text: Seq<char>,
}

impl View for AxisLabel {
    type V = LabelModel;

    open spec fn view(&self) -> LabelModel {
        LabelModel { pos: self.pos, text: self.text@ }
    }
}

pub open spec fn labels_of(v: Seq<AxisLabel>) -> Seq<LabelModel> {
    v.map_values(|l: AxisLabel| l@)
}

/// Percentage gridline labels at every quarter from 0 to 100 percent.
pub open spec fn spec_percent_labels() -> Seq<LabelModel> {
    seq![
        LabelModel { pos: 0, text: "0%"@ },
        LabelModel { pos: 2500, text: "25%"@ },
        LabelModel { pos: 5000, text: "50%"@ },
        LabelModel { pos: 7500, text: "75%"@ },
        LabelModel { pos: 10000, text: "100%"@ },
    ]
}

pub fn percent_labels() -> (r: Vec<AxisLabel>)
    ensures
        labels_of(r@) == spec_percent_labels(),
{
    let mut r: Vec<AxisLabel> = Vec::new();
    r.push(AxisLabel { pos: 0, text: String::from_str("0%") });
    r.push(AxisLabel { pos: 2500, text: String::from_str("25%") });
    r.push(AxisLabel { pos: 5000, text: String::from_str("50%") });
    r.push(AxisLabel { pos: 7500, text: String::from_str("75%") });
    r.push(AxisLabel { pos: 10000, text: String::from_str("100%") });
    proof {
        assert(labels_of(r@) =~~= spec_percent_labels());
    }
    r
}

/// Time labels along the x-axis: the first point's time, the midpoint's time
/// when the series has more than two points, and the last point labelled
/// `now`.
pub open spec fn spec_time_labels(ps: Seq<PlotPoint>) -> Seq<LabelModel> {
    if ps.len() == 0 {
        Seq::<LabelModel>::empty()
    } else {
        let base = seq![
            LabelModel { pos: ps[0].x, text: spec_format_time(ps[0].x) },
            LabelModel { pos: ps[ps.len() - 1].x, text: "now"@ },
        ];
        if ps.len() > 2 {
            base.push(
                LabelModel {
                    pos: ps[ps.len() as int / 2].x,
                    text: spec_format_time(ps[ps.len() as int / 2].x),
                },
            )
        } else {
            base
        }
    }
}

pub fn time_labels(points: &Vec<PlotPoint>) -> (r: Vec<AxisLabel>)
    ensures
        labels_of(r@) == spec_time_labels(points@),
{
    let mut r: Vec<AxisLabel> = Vec::new();
    if points.len() == 0 {
        proof {
            assert(labels_of(r@) =~~= spec_time_labels(points@));
        }
        return r;
    }
    let first_x: u64 = points[0].x;
    r.push(AxisLabel { pos: first_x, text: format_time(first_x) });
    let last_x: u64 = points[points.len() - 1].x;
    r.push(AxisLabel { pos: last_x, text: String::from_str("now") });
    if points.len() > 2 {
        let mid_x: u64 = points[points.len() / 2].x;
        r.push(AxisLabel { pos: mid_x, text: format_time(mid_x) });
    }
    proof {
        assert(labels_of(r@) =~~= spec_time_labels(points@));
    }
    r
}

/// Everything one frame of the chart needs: the series itself, the filled
/// area under it, the fixed viewport, and both label sets.
pub struct ChartScene {
    pub line: Vec<PlotPoint>,
    pub area: Vec<PlotPoint>,
    pub bounds: ChartBounds,
    pub percent_labels: Vec<AxisLabel>,
    pub time_labels: Vec<AxisLabel>,
}

/// Builds the full frame geometry for the current series. The viewport is
/// the fixed one whatever the series holds, and an empty series yields an
/// empty line, area and time-label set rather than a failure.
pub fn render_chart(points: &Vec<PlotPoint>) -> (sc: ChartScene)
    ensures
        sc.line@ == points@,
        sc.area@ == spec_area_polygon(points@),
        sc.bounds == (ChartBounds {
            min_x: 0,
            min_y: 0,
            max_x: (24 * X_PER_HOUR) as u64,
            max_y: (100 * Y_PER_PERCENT) as u64,
        }),
        labels_of(sc.percent_labels@) == spec_percent_labels(),
        labels_of(sc.time_labels@) == spec_time_labels(points@),
{
    let mut line: Vec<PlotPoint> = Vec::new();
    let mut i: usize = 0;
    while i < points.len()
        invariant
            i <= points@.len(),
            line@ == points@.take(i as int),
        decreases points@.len() - i,
    {
        line.push(points[i]);
        proof {
            assert(points@.take(i as int + 1) =~= points@.take(i as int).push(points@[i as int]));
        }
        i += 1;
    }
    proof {
        assert(points@.take(points@.len() as int) =~= points@);
    }
    ChartScene {
        line,
        area: area_polygon(points),
        bounds: chart_bounds(),
        percent_labels: percent_labels(),
        time_labels: time_labels(points),
    }
}

} // verus!
