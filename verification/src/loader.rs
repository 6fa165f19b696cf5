//! The history loader: parsing the append-only log back into the plottable
//! time series and the device-info snapshot of the most recent record.

use vstd::prelude::*;
use crate::chart::PlotPoint;
use crate::fields::{split_commas, split_line, views_of};
use crate::fixed::{
    lemma_fixed2_round_trip, lemma_parse_fixed2_bound, lemma_parse_plain_int, parse_fixed2,
    spec_parse_fixed2, fixed2_seq, FIXED2_LIMIT,
};
use crate::record::{cycle_seq, lemma_record_fields_split, record_fields, spec_record_line};
use crate::sample::{state_seq, SampleModel};

verus! {

/// The loader's lenient numeric policy: a field that is not a well-formed
/// number counts as zero rather than failing the load.
pub open spec fn val_or_zero(t: Seq<char>) -> u64 {
    match spec_parse_fixed2(t) {
        Some(v) => v,
        None => 0,
    }
}

pub fn parse_or_zero(s: &str) -> (v: u64)
    ensures
        v == val_or_zero(s@),
{
    match parse_fixed2(s) {
        Some(v) => v,
        None => 0,
    }
}

pub proof fn lemma_val_or_zero_bound(t: Seq<char>)
    ensures
        val_or_zero(t) < FIXED2_LIMIT,
{
    lemma_parse_fixed2_bound(t);
}

/// A record line is well-formed when it splits into at least the full
/// eleven fields.
pub open spec fn valid_line(t: Seq<char>) -> bool {
    split_commas(t).len() >= 11
}

/// The plotted point of a well-formed line: x is `hour + minute/60` and y
/// the percentage, in scaled units.
pub open spec fn line_point(t: Seq<char>) -> PlotPoint {
    let f = split_commas(t);
    PlotPoint {
        x: (val_or_zero(f[1]) * 60 + val_or_zero(f[2])) as u64,
        y: val_or_zero(f[3]),
    }
}

/// The descriptive fields of the most recently parsed record, kept as the
/// raw field text.
#[derive(PartialEq, Eq, Debug)]
pub struct DeviceInfo {
    pub model: String,
    pub state: String,
    pub cycle_count: String,
    pub energy_full: String,
    pub energy_full_design: String,
    pub energy: String,
    pub voltage: String,
}

pub ghost struct InfoModel {
    pub model: Seq<char>,
    pub state: Seq<char>,
    pub cycle_count: Seq<char>,
    pub energy_full: Seq<char>,
    pub energy_full_design: Seq<char>,
    pub energy: Seq<char>,
    pub voltage: Seq<char>,
}

impl View for DeviceInfo {
    type V = InfoModel;

    open spec fn view(&self) -> InfoModel {
        InfoModel {
            model: self.model@,
            state: self.state@,
            cycle_count: self.cycle_count@,
            energy_full: self.energy_full@,
            energy_full_design: self.energy_full_design@,
            energy: self.energy@,
            voltage: self.voltage@,
        }
    }
}

/// The snapshot a well-formed line carries.
pub open spec fn line_info(t: Seq<char>) -> InfoModel {
    let f = split_commas(t);
    InfoModel {
        model: f[4],
        state: f[5],
        cycle_count: f[6],
        energy_full: f[7],
        energy_full_design: f[8],
        energy: f[9],
        voltage: f[10],
    }
}

/// Parses one record line. A line with fewer than eleven fields is refused;
/// a well-formed line yields exactly its point and snapshot.
pub fn parse_record_line(line: &str) -> (r: Option<(PlotPoint, DeviceInfo)>)
    ensures
        r is Some <==> valid_line(line@),
        r matches Some(pd) ==> pd.0 == line_point(line@) && pd.1@ == line_info(line@),
{
    let fields = split_line(line);
    proof {
        assert(views_of(fields@).len() == fields@.len());
    }
    if fields.len() < 11 {
        return None;
    }
    proof {
        assert forall|k: int| 0 <= k < 11 implies fields@[k]@ == split_commas(line@)[k] by {
            assert(views_of(fields@)[k] == fields@[k]@);
        }
        lemma_val_or_zero_bound(fields@[1]@);
        lemma_val_or_zero_bound(fields@[2]@);
    }
    let hour: u64 = parse_or_zero(fields[1].as_str());
    let minute: u64 = parse_or_zero(fields[2].as_str());
    let pct: u64 = parse_or_zero(fields[3].as_str());
    let x: u64 = hour * 60 + minute;
    let info = DeviceInfo {
        model: fields[4].clone(),
        state: fields[5].clone(),
        cycle_count: fields[6].clone(),
        energy_full: fields[7].clone(),
        energy_full_design: fields[8].clone(),
        energy: fields[9].clone(),
        voltage: fields[10].clone(),
    };
    Some((PlotPoint { x, y: pct }, info))
}

/// The data lines of the log: everything after the header line.
pub open spec fn data_lines(ls: Seq<Seq<char>>) -> Seq<Seq<char>> {
    if ls.len() == 0 {
        Seq::<Seq<char>>::empty()
    } else {
        ls.skip(1)
    }
}

/// The time series of a run of lines: one point per well-formed line, in
/// file order.
pub open spec fn spec_points(ls: Seq<Seq<char>>) -> Seq<PlotPoint>
    decreases ls.len(),
{
    if ls.len() == 0 {
        Seq::<PlotPoint>::empty()
    } else if valid_line(ls.last()) {
        spec_points(ls.drop_last()).push(line_point(ls.last()))
    } else {
        spec_points(ls.drop_last())
    }
}

/// The snapshot of a run of lines: that of its last well-formed line.
pub open spec fn spec_info(ls: Seq<Seq<char>>) -> Option<InfoModel>
    decreases ls.len(),
{
    if ls.len() == 0 {
        Option::<InfoModel>::None
    } else if valid_line(ls.last()) {
        Some(line_info(ls.last()))
    } else {
        spec_info(ls.drop_last())
    }
}

/// One full load pass over the log's lines: the header is skipped, each
/// well-formed line contributes one point, malformed lines are dropped, and
/// the snapshot is the last well-formed line's. The result is a pure
/// function of the lines, so loading an unchanged log twice yields the same
/// series and snapshot.
pub fn load_history(lines: &Vec<String>) -> (r: (Vec<PlotPoint>, Option<DeviceInfo>))
    ensures
        r.0@ == spec_points(data_lines(views_of(lines@))),
        (r.1 is Some) == (spec_info(data_lines(views_of(lines@))) is Some),
        r.1 matches Some(d) ==> spec_info(data_lines(views_of(lines@))) matches Some(m) && d@
            == m,
{
    let ghost dl = data_lines(views_of(lines@));
    let mut points: Vec<PlotPoint> = Vec::new();
    let mut info: Option<DeviceInfo> = None;
    if lines.len() == 0 {
        proof {
            assert(views_of(lines@).len() == 0);
        }
        return (points, info);
    }
    let mut i: usize = 1;
    proof {
        assert(views_of(lines@).len() == lines@.len());
        assert(dl.take(0) =~~= Seq::<Seq<char>>::empty());
    }
    while i < lines.len()
        invariant
            1 <= i <= lines@.len(),
            dl == data_lines(views_of(lines@)),
            dl.len() == lines@.len() - 1,
            points@ == spec_points(dl.take(i - 1)),
            (info is Some) == (spec_info(dl.take(i - 1)) is Some),
            info matches Some(d) ==> spec_info(dl.take(i - 1)) matches Some(m) && d@ == m,
        decreases lines@.len() - i,
    {
        let parsed = parse_record_line(lines[i].as_str());
        proof {
            let prev = dl.take(i - 1);
            let curr = dl.take(i as int);
            assert(curr.drop_last() =~~= prev);
            assert(curr.last() == dl[i - 1]);
            assert(dl[i - 1] == views_of(lines@)[i as int]);
            assert(views_of(lines@)[i as int] == lines@[i as int]@);
        }
        match parsed {
            Some(pd) => {
                points.push(pd.0);
                info = Some(pd.1);
            },
            None => {},
        }
        i += 1;
    }
    proof {
        assert(dl.take(dl.len() as int) =~~= dl);
    }
    (points, info)
}

/// Round trip: the record line of a well-formed sample is itself a
/// well-formed line, it parses to the point carrying the sample's exact
/// hour, minute and percentage, and its snapshot holds the sample's
/// descriptive fields as encoded.
pub proof fn lemma_record_round_trip(s: SampleModel)
    requires
        s.wf(),
    ensures
        valid_line(spec_record_line(s)),
        line_point(spec_record_line(s)) == (PlotPoint {
            x: (6000 * s.stamp.hour + 100 * s.stamp.minute) as u64,
            y: s.reading.centi_percent as u64,
        }),
        line_info(spec_record_line(s)) == (InfoModel {
            model: s.reading.model,
            state: state_seq(s.reading.state),
            cycle_count: cycle_seq(s.reading.cycle_count),
            energy_full: fixed2_seq(s.reading.centi_energy_full as nat),
            energy_full_design: fixed2_seq(s.reading.centi_energy_full_design as nat),
            energy: fixed2_seq(s.reading.centi_energy as nat),
            voltage: fixed2_seq(s.reading.centi_voltage as nat),
        }),
{
    lemma_record_fields_split(s);
    let f = record_fields(s);
    assert(f.len() == 11);
    lemma_parse_plain_int(s.stamp.hour as nat);
    lemma_parse_plain_int(s.stamp.minute as nat);
    lemma_fixed2_round_trip(s.reading.centi_percent as nat);
    assert(val_or_zero(f[1]) == s.stamp.hour * 100);
    assert(val_or_zero(f[2]) == s.stamp.minute * 100);
    assert(val_or_zero(f[3]) == s.reading.centi_percent);
}

/// Appending the record lines of well-formed samples and loading them back
/// yields exactly one point per sample, in order, each carrying its
/// sample's own hour, minute and percentage.
pub proof fn lemma_append_then_load(samples: Seq<SampleModel>)
    requires
        forall|i: int| 0 <= i < samples.len() ==> (#[trigger] samples[i]).wf(),
    ensures
        spec_points(samples.map_values(|s: SampleModel| spec_record_line(s))).len()
            == samples.len(),
        forall|i: int| 0 <= i < samples.len() ==> spec_points(
            samples.map_values(|s: SampleModel| spec_record_line(s)),
        )[i] == (PlotPoint {
            x: (6000 * samples[i].stamp.hour + 100 * samples[i].stamp.minute) as u64,
            y: samples[i].reading.centi_percent as u64,
        }),
    decreases samples.len(),
{
    let ls = samples.map_values(|s: SampleModel| spec_record_line(s));
    if samples.len() > 0 {
        let rest = samples.drop_last();
        lemma_append_then_load(rest);
        let lrest = rest.map_values(|s: SampleModel| spec_record_line(s));
        assert(ls.drop_last() =~~= lrest);
        assert(ls.last() == spec_record_line(samples.last()));
        lemma_record_round_trip(samples.last());
        assert(spec_points(ls) == spec_points(lrest).push(line_point(ls.last())));
        assert forall|i: int| 0 <= i < samples.len() implies spec_points(ls)[i] == (PlotPoint {
            x: (6000 * samples[i].stamp.hour + 100 * samples[i].stamp.minute) as u64,
            y: samples[i].reading.centi_percent as u64,
        }) by {
            if i < samples.len() - 1 {
                assert(spec_points(ls)[i] == spec_points(lrest)[i]);
                assert(rest[i] == samples[i]);
            } else {
                assert(spec_points(ls)[i] == line_point(ls.last()));
            }
        }
    }
}

/// Every line well-formed gives exactly one point per line; dropped lines
/// only ever shorten the series.
pub proof fn lemma_points_count(ls: Seq<Seq<char>>)
    ensures
        spec_points(ls).len() <= ls.len(),
        (forall|i: int| 0 <= i < ls.len() ==> valid_line(#[trigger] ls[i])) ==> spec_points(
            ls,
        ).len() == ls.len(),
    decreases ls.len(),
{
    if ls.len() > 0 {
        lemma_points_count(ls.drop_last());
        if forall|i: int| 0 <= i < ls.len() ==> valid_line(#[trigger] ls[i]) {
            assert forall|i: int| 0 <= i < ls.drop_last().len() implies valid_line(
                #[trigger] ls.drop_last()[i],
            ) by {
                assert(ls.drop_last()[i] == ls[i]);
            }
            assert(valid_line(ls.last()));
        }
    }
}

/// The snapshot after a full pass is that of the last well-formed line.
pub proof fn lemma_info_is_last_valid(ls: Seq<Seq<char>>, i: int)
    requires
        0 <= i < ls.len(),
        valid_line(ls[i]),
        forall|j: int| i < j < ls.len() ==> !valid_line(#[trigger] ls[j]),
    ensures
        spec_info(ls) == Some(line_info(ls[i])),
    decreases ls.len(),
{
    if i == ls.len() - 1 {
        assert(ls.last() == ls[i]);
    } else {
        assert(!valid_line(ls.last()));
        assert(ls.drop_last()[i] == ls[i]);
        assert forall|j: int| i < j < ls.drop_last().len() implies !valid_line(
            #[trigger] ls.drop_last()[j],
        ) by {
            assert(ls.drop_last()[j] == ls[j]);
        }
        lemma_info_is_last_valid(ls.drop_last(), i);
    }
}

} // verus!
