//! The recorder: encoding one observation as a single delimited record line,
//! plus the fixed header line and the wall-clock stamp.

use vstd::prelude::*;
use crate::digits::{dec_seq, push_dec};
use crate::fields::{comma_free, join_commas, lemma_comma_free_concat, lemma_split_join, split_commas};
use crate::fixed::{fixed2_seq, lemma_dec_comma_free, lemma_fixed2_comma_free, push_fixed2};
use crate::sample::{
    lemma_state_seq_clean, state_seq, state_str, BatteryReading, Sample, SampleModel, Timestamp,
};

verus! {

/// The header line that opens a fresh log, naming all fields in order.
pub open spec fn spec_header() -> Seq<char> {
    "timestamp,hour,minute,percentage,model,state,cycle_count,energy_full,energy_full_design,energy,voltage"@
}

pub fn header_line() -> (r: String)
    ensures
        r@ == spec_header(),
{
    String::from_str(
        "timestamp,hour,minute,percentage,model,state,cycle_count,energy_full,energy_full_design,energy,voltage",
    )
}

/// The human-readable timestamp field: `Y-M-D H:M:S`, components unpadded.
pub open spec fn timestamp_seq(t: Timestamp) -> Seq<char> {
    dec_seq(t.year as nat) + seq!['-'] + dec_seq(t.month as nat) + seq!['-'] + dec_seq(
        t.day as nat,
    ) + seq![' '] + dec_seq(t.hour as nat) + seq![':'] + dec_seq(t.minute as nat) + seq![':']
        + dec_seq(t.second as nat)
}

/// The cycle-count field: empty when the sensor reports none.
pub open spec fn cycle_seq(c: Option<u32>) -> Seq<char> {
    match c {
        Some(v) => dec_seq(v as nat),
        None => Seq::<char>::empty(),
    }
}

/// The eleven fields of the record line for one sample, in header order.
pub open spec fn record_fields(s: SampleModel) -> Seq<Seq<char>> {
    seq![
        timestamp_seq(s.stamp),
        dec_seq(s.stamp.hour as nat),
        dec_seq(s.stamp.minute as nat),
        fixed2_seq(s.reading.centi_percent as nat),
        s.reading.model,
        state_seq(s.reading.state),
        cycle_seq(s.reading.cycle_count),
        fixed2_seq(s.reading.centi_energy_full as nat),
        fixed2_seq(s.reading.centi_energy_full_design as nat),
        fixed2_seq(s.reading.centi_energy as nat),
        fixed2_seq(s.reading.centi_voltage as nat),
    ]
}

/// The record line of one sample: its fields joined by commas.
pub open spec fn spec_record_line(s: SampleModel) -> Seq<char> {
    join_commas(record_fields(s))
}

/// The first `k` fields, each followed by its delimiter.
pub open spec fn joined_upto(f: Seq<Seq<char>>, k: int) -> Seq<char>
    decreases k,
{
    if k <= 0 {
        Seq::<char>::empty()
    } else {
        joined_upto(f, k - 1) + f[k - 1] + seq![',']
    }
}

/// A comma join splits into a delimited prefix and the join of the rest.
pub proof fn lemma_join_upto(f: Seq<Seq<char>>, k: int)
    requires
        0 <= k < f.len(),
    ensures
        join_commas(f) == joined_upto(f, k) + join_commas(f.skip(k)),
    decreases k,
{
    if k == 0 {
        assert(f.skip(0) =~~= f);
        assert(joined_upto(f, 0) + join_commas(f) =~= join_commas(f));
    } else {
        lemma_join_upto(f, k - 1);
        let t = f.skip(k - 1);
        assert(t.len() >= 2);
        assert(t[0] == f[k - 1]);
        assert(t.drop_first() =~~= f.skip(k));
        assert(join_commas(t) == t[0] + seq![','] + join_commas(t.drop_first()));
        assert(joined_upto(f, k - 1) + (f[k - 1] + seq![','] + join_commas(f.skip(k)))
            =~= joined_upto(f, k) + join_commas(f.skip(k)));
    }
}

/// Encodes one sample as its record line.
pub fn encode_record(s: &Sample) -> (line: String)
    ensures
        line@ == spec_record_line(s@),
{
    let ghost f = record_fields(s@);
    let mut line = String::new();
    push_dec(&mut line, s.stamp.year as u64);
    line.push('-');
    push_dec(&mut line, s.stamp.month as u64);
    line.push('-');
    push_dec(&mut line, s.stamp.day as u64);
    line.push(' ');
    push_dec(&mut line, s.stamp.hour as u64);
    line.push(':');
    push_dec(&mut line, s.stamp.minute as u64);
    line.push(':');
    push_dec(&mut line, s.stamp.second as u64);
    line.push(',');
    proof {
        assert(line@ =~= timestamp_seq(s.stamp) + seq![',']);
        assert(f[0] == timestamp_seq(s.stamp));
        assert(joined_upto(f, 0) == Seq::<char>::empty());
        assert(joined_upto(f, 1) =~= f[0] + seq![',']);
    }
    push_dec(&mut line, s.stamp.hour as u64);
    line.push(',');
    proof {
        assert(line@ =~= joined_upto(f, 2));
    }
    push_dec(&mut line, s.stamp.minute as u64);
    line.push(',');
    proof {
        assert(line@ =~= joined_upto(f, 3));
    }
    push_fixed2(&mut line, s.reading.centi_percent as u64);
    line.push(',');
    proof {
        assert(line@ =~= joined_upto(f, 4));
    }
    line.append(s.reading.model.as_str());
    line.push(',');
    proof {
        assert(line@ =~= joined_upto(f, 5));
    }
    line.append(state_str(s.reading.state));
    line.push(',');
    proof {
        assert(line@ =~= joined_upto(f, 6));
    }
    if let Some(v) = s.reading.cycle_count {
        push_dec(&mut line, v as u64);
    }
    line.push(',');
    proof {
        assert(line@ =~= joined_upto(f, 7));
    }
    push_fixed2(&mut line, s.reading.centi_energy_full);
    line.push(',');
    proof {
        assert(line@ =~= joined_upto(f, 8));
    }
    push_fixed2(&mut line, s.reading.centi_energy_full_design);
    line.push(',');
    proof {
        assert(line@ =~= joined_upto(f, 9));
    }
    push_fixed2(&mut line, s.reading.centi_energy);
    line.push(',');
    proof {
        assert(line@ =~= joined_upto(f, 10));
    }
    push_fixed2(&mut line, s.reading.centi_voltage);
    proof {
        lemma_join_upto(f, 10);
        assert(f.skip(10) =~~= seq![f[10]]);
        assert(join_commas(seq![f[10]]) == f[10]);
        assert(line@ == joined_upto(f, 10) + f[10]);
    }
    line
}

/// Every field of a well-formed sample's record line is free of the
/// delimiter, so the encoded line splits back into exactly its fields.
pub proof fn lemma_record_fields_split(s: SampleModel)
    requires
        s.wf(),
    ensures
        split_commas(spec_record_line(s)) == record_fields(s),
{
    let f = record_fields(s);
    let y = dec_seq(s.stamp.year as nat);
    let mo = dec_seq(s.stamp.month as nat);
    let d = dec_seq(s.stamp.day as nat);
    let h = dec_seq(s.stamp.hour as nat);
    let mi = dec_seq(s.stamp.minute as nat);
    let se = dec_seq(s.stamp.second as nat);
    lemma_dec_comma_free(s.stamp.year as nat);
    lemma_dec_comma_free(s.stamp.month as nat);
    lemma_dec_comma_free(s.stamp.day as nat);
    lemma_dec_comma_free(s.stamp.hour as nat);
    lemma_dec_comma_free(s.stamp.minute as nat);
    lemma_dec_comma_free(s.stamp.second as nat);
    assert(comma_free(seq!['-']));
    assert(comma_free(seq![' ']));
    assert(comma_free(seq![':']));
    lemma_comma_free_concat(y, seq!['-']);
    lemma_comma_free_concat(y + seq!['-'], mo);
    lemma_comma_free_concat(y + seq!['-'] + mo, seq!['-']);
    lemma_comma_free_concat(y + seq!['-'] + mo + seq!['-'], d);
    lemma_comma_free_concat(y + seq!['-'] + mo + seq!['-'] + d, seq![' ']);
    lemma_comma_free_concat(y + seq!['-'] + mo + seq!['-'] + d + seq![' '], h);
    lemma_comma_free_concat(y + seq!['-'] + mo + seq!['-'] + d + seq![' '] + h, seq![':']);
    lemma_comma_free_concat(y + seq!['-'] + mo + seq!['-'] + d + seq![' '] + h + seq![':'], mi);
    lemma_comma_free_concat(
        y + seq!['-'] + mo + seq!['-'] + d + seq![' '] + h + seq![':'] + mi,
        seq![':'],
    );
    lemma_comma_free_concat(
        y + seq!['-'] + mo + seq!['-'] + d + seq![' '] + h + seq![':'] + mi + seq![':'],
        se,
    );
    assert(comma_free(timestamp_seq(s.stamp)));
    lemma_fixed2_comma_free(s.reading.centi_percent as nat);
    lemma_fixed2_comma_free(s.reading.centi_energy_full as nat);
    lemma_fixed2_comma_free(s.reading.centi_energy_full_design as nat);
    lemma_fixed2_comma_free(s.reading.centi_energy as nat);
    lemma_fixed2_comma_free(s.reading.centi_voltage as nat);
    assert(comma_free(s.reading.model));
    lemma_state_seq_clean(s.reading.state);
    assert(comma_free(state_seq(s.reading.state)));
    match s.reading.cycle_count {
        Some(v) => lemma_dec_comma_free(v as nat),
        None => assert(comma_free(cycle_seq(s.reading.cycle_count))),
    }
    assert forall|i: int| 0 <= i < f.len() implies comma_free(#[trigger] f[i]) by {
        assert(f[0] == timestamp_seq(s.stamp));
        assert(f[1] == dec_seq(s.stamp.hour as nat));
        assert(f[2] == dec_seq(s.stamp.minute as nat));
        assert(f[3] == fixed2_seq(s.reading.centi_percent as nat));
        assert(f[4] == s.reading.model);
        assert(f[5] == state_seq(s.reading.state));
        assert(f[6] == cycle_seq(s.reading.cycle_count));
        assert(f[7] == fixed2_seq(s.reading.centi_energy_full as nat));
        assert(f[8] == fixed2_seq(s.reading.centi_energy_full_design as nat));
        assert(f[9] == fixed2_seq(s.reading.centi_energy as nat));
        assert(f[10] == fixed2_seq(s.reading.centi_voltage as nat));
    }
    lemma_split_join(f);
}

/// Relies on chrono's `Local::now` for the wall clock, read out through the
/// `Datelike` and `Timelike` accessors, whose documentation bounds the month
/// to 1..=12, the day to 1..=31, the hour to 0..=23, and the minute and
/// second to 0..=59. A year outside `u32` is clamped to zero.
#[verifier::external_body]
pub fn clock_now() -> (t: Timestamp)
    ensures
        t.wf(),
{
    let now = chrono::Local::now();
    Timestamp {
        year: u32::try_from(chrono::Datelike::year(&now)).unwrap_or(0),
        month: chrono::Datelike::month(&now),
        day: chrono::Datelike::day(&now),
        hour: chrono::Timelike::hour(&now),
        minute: chrono::Timelike::minute(&now),
        second: chrono::Timelike::second(&now),
    }
}

/// Stamps one sensor reading with the current wall-clock time.
pub fn sample_now(reading: BatteryReading) -> (s: Sample)
    ensures
        s@.reading == reading@,
        s@.stamp.wf(),
{
    Sample { stamp: clock_now(), reading }
}

/// Replaces each comma in free text by a space, so that the text can stand
/// in a comma-delimited record field.
pub open spec fn spec_sanitize(s: Seq<char>) -> Seq<char> {
    s.map_values(|c: char| if c == ',' { ' ' } else { c })
}

pub fn sanitize_model(s: &str) -> (r: String)
    ensures
        r@ == spec_sanitize(s@),
        comma_free(r@),
{
    let n: usize = s.unicode_len();
    let mut r = String::new();
    let mut i: usize = 0;
    proof {
        assert(r@ =~= spec_sanitize(s@).take(0));
    }
    while i < n
        invariant
            n == s@.len(),
            i <= n,
            r@ == spec_sanitize(s@).take(i as int),
        decreases n - i,
    {
        let c = s.get_char(i);
        if c == ',' {
            r.push(' ');
        } else {
            r.push(c);
        }
        proof {
            assert(r@ =~= spec_sanitize(s@).take(i + 1));
        }
        i += 1;
    }
    proof {
        assert(spec_sanitize(s@).take(n as int) =~= spec_sanitize(s@));
        assert forall|j: int| 0 <= j < spec_sanitize(s@).len() implies #[trigger] spec_sanitize(
            s@,
        )[j] != ',' by {
            assert(spec_sanitize(s@)[j] == (if s@[j] == ',' { ' ' } else { s@[j] }));
        }
    }
    r
}

} // verus!
