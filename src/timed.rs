use vstd::prelude::*;

use crate::error::TMFromStrError;
use crate::temp_mat::{all_parsed, pair_count, parse_all, parsed_as, parses, uniform, TempMat};
use crate::text::{char_views, chars_vec, lines, lines_of, pieces, tokens, tokens_of, views};

verus! {

/// The time between consecutive rows of a row-tagged reading.
pub const TIME_STEP_SIZE: u64 = 30;

/// The number of channels of a row-tagged reading.
pub const NUM_CORES: usize = 4;

/// Whether `t` is strictly increasing.
pub open spec fn increasing(t: Seq<u64>) -> bool {
    forall|i: int, j: int| 0 <= i < j < t.len() ==> t[i] < t[j]
}

/// Whether a line holds one field per channel, each of which `parse` reads.
pub open spec fn row_ok<T, F: Fn(&str) -> Option<T>>(parse: F, line: Seq<char>) -> bool {
    &&& tokens(line).len() == NUM_CORES
    &&& forall|j: int| 0 <= j < NUM_CORES ==> parses(parse, #[trigger] tokens(line)[j])
}

/// Whether `d` holds, for each adjacent pair of samples of `c` taken at the
/// times `t`, what `slope` gives on the two values and the time between them.
pub open spec fn timed_slopes_of<T, F: Fn(T, T, u64) -> T>(
    slope: F,
    t: Seq<u64>,
    c: Seq<T>,
    d: Seq<T>,
) -> bool {
    &&& d.len() == pair_count(c.len())
    &&& forall|i: int|
        0 <= i < d.len() ==> slope.ensures(
            (c[i], c[i + 1], (t[i + 1] - t[i]) as u64),
            #[trigger] d[i],
        )
}

proof fn lemma_pieces_len(s: Seq<char>)
    ensures
        pieces(s).len() <= s.len() + 1,
        pieces(s).len() >= 1,
    decreases s.len(),
{
    if s.len() > 0 {
        lemma_pieces_len(s.drop_last());
    }
}

proof fn lemma_lines_len(s: Seq<char>)
    ensures
        lines(s).len() <= s.len() + 1,
{
    lemma_pieces_len(s);
}

/// Channels whose samples carry timestamps shared by all channels.
pub struct TimedMat<T> {
    times: Vec<u64>,
    values: TempMat<T>,
}

impl<T> TimedMat<T> {
    /// The timestamps of the samples.
    pub closed spec fn times_view(&self) -> Seq<u64> {
        self.times@
    }

    /// The values of the samples, by channel.
    pub closed spec fn values_view(&self) -> Seq<Seq<T>> {
        self.values@
    }

    #[verifier::type_invariant]
    spec fn wf(self) -> bool {
        &&& increasing(self.times@)
        &&& forall|k: int| 0 <= k < self.values@.len() ==> (#[trigger] self.values@[k]).len() == self.times@.len()
    }
}

impl<T: Copy> TimedMat<T> {
    /// Channels of the given values at the given times. `None` unless the
    /// times strictly increase and every channel has one value per time.
    pub fn from_parts(times: Vec<u64>, channels: Vec<Vec<T>>) -> (r: Option<Self>)
        ensures
            r is Some <==> increasing(times@) && forall|k: int|
                0 <= k < channels@.len() ==> (#[trigger] channels@[k])@.len() == times@.len(),
            r matches Some(m) ==> m.times_view() == times@ && m.values_view() == channels@.map_values(
                |c: Vec<T>| c@,
            ),
    {
        let mut i: usize = 1;
        while i < times.len()
            invariant
                1 <= i,
                forall|a: int, b: int| 0 <= a < b < i && b < times@.len() ==> times@[a] < times@[b],
            decreases times@.len() - i,
        {
            if times[i - 1] >= times[i] {
                return None;
            }
            i = i + 1;
        }
        let ghost cv = channels@.map_values(|c: Vec<T>| c@);
        let n = channels.len();
        for k in 0..n
            invariant
                n == channels@.len(),
                cv == channels@.map_values(|c: Vec<T>| c@),
                increasing(times@),
                forall|j: int| 0 <= j < k ==> (#[trigger] channels@[j])@.len() == times@.len(),
        {
            if channels[k].len() != times.len() {
                return None;
            }
        }
        assert(uniform(cv)) by {
            assert(forall|j: int| 0 <= j < n ==> #[trigger] cv[j] == channels@[j]@);
        }
        match TempMat::from_channels(channels) {
            Some(values) => {
                assert(forall|j: int| 0 <= j < n ==> #[trigger] cv[j] == values@[j]);
                Some(TimedMat { times, values })
            },
            None => None,
        }
    }

    /// Reads one sample of every channel from each line of `s`, each field
    /// through `parse`; the sample of line `i` (from zero) is taken at time
    /// `i * step`. A line without exactly one field per channel gives
    /// `WrongFieldCount`, a field that does not parse `InvalidField`, both for
    /// the first such line, counted from one.
    pub fn from_rows<F: Fn(&str) -> Option<T>>(s: &str, step: u64, parse: F) -> (r: Result<
        Self,
        TMFromStrError,
    >)
        requires
            step > 0,
            s@.len() * step <= u64::MAX,
            forall|t: &str| parse.requires((t,)),
        ensures
            r matches Ok(m) ==> {
                &&& forall|i: int| 0 <= i < lines(s@).len() ==> row_ok(parse, #[trigger] lines(s@)[i])
                &&& m.times_view().len() == lines(s@).len()
                &&& forall|i: int|
                    0 <= i < lines(s@).len() ==> #[trigger] m.times_view()[i] == i * step
                &&& m.values_view().len() == NUM_CORES
                &&& forall|k: int|
                    0 <= k < NUM_CORES ==> (#[trigger] m.values_view()[k]).len() == lines(s@).len()
                &&& forall|k: int, i: int|
                    0 <= k < NUM_CORES && 0 <= i < lines(s@).len() ==> parsed_as(
                        parse,
                        tokens(lines(s@)[i])[k],
                        Some(#[trigger] m.values_view()[k][i]),
                    )
            },
            r matches Err(TMFromStrError::WrongFieldCount { line, found }) ==> {
                &&& 1 <= line <= lines(s@).len()
                &&& found == tokens(lines(s@)[line - 1]).len()
                &&& found != NUM_CORES
                &&& forall|i: int| 0 <= i < line - 1 ==> row_ok(parse, #[trigger] lines(s@)[i])
            },
            r matches Err(TMFromStrError::InvalidField { line, field }) ==> {
                &&& 1 <= line <= lines(s@).len()
                &&& tokens(lines(s@)[line - 1]).len() == NUM_CORES
                &&& field < NUM_CORES
                &&& parsed_as(parse, tokens(lines(s@)[line - 1])[field as int], None)
                &&& all_parsed(parse, tokens(lines(s@)[line - 1]).take(field as int))
                &&& forall|i: int| 0 <= i < line - 1 ==> row_ok(parse, #[trigger] lines(s@)[i])
            },
            r is Ok || r matches Err(TMFromStrError::WrongFieldCount { .. }) || r matches Err(
                TMFromStrError::InvalidField { .. },
            ),
    {
        let cs = chars_vec(s);
        let ls = lines_of(&cs);
        let ghost lv = lines(s@);
        proof {
            lemma_lines_len(s@);
        }
        let mut rows: Vec<Vec<T>> = Vec::new();
        let mut times: Vec<u64> = Vec::new();
        for i in 0..ls.len()
            invariant
                lv == lines(s@),
                char_views(ls@) == lv,
                lv.len() <= s@.len() + 1,
                s@.len() * step <= u64::MAX,
                rows@.len() == i,
                times@.len() == i,
                forall|a: int| 0 <= a < i ==> #[trigger] times@[a] == a * step,
                forall|a: int| 0 <= a < i ==> row_ok(parse, #[trigger] lv[a]),
                forall|a: int| 0 <= a < i ==> (#[trigger] rows@[a])@.len() == NUM_CORES,
                forall|a: int, k: int|
                    0 <= a < i && 0 <= k < NUM_CORES ==> parsed_as(
                        parse,
                        tokens(lv[a])[k],
                        Some(#[trigger] rows@[a]@[k]),
                    ),
                forall|t: &str| parse.requires((t,)),
        {
            assert(ls@[i as int]@ == lv[i as int]);
            let toks = tokens_of(&ls[i]);
            if toks.len() != NUM_CORES {
                assert(views(toks@).len() == toks@.len());
                return Err(TMFromStrError::WrongFieldCount { line: i + 1, found: toks.len() });
            }
            match parse_all(&toks, &parse) {
                Ok(row) => {
                    assert(i * step <= s@.len() * step) by (nonlinear_arith)
                        requires
                            i <= s@.len(),
                    ;
                    times.push(i as u64 * step);
                    rows.push(row);
                },
                Err(j) => {
                    return Err(TMFromStrError::InvalidField { line: i + 1, field: j });
                },
            }
        }
        let mut channels: Vec<Vec<T>> = Vec::new();
        for k in 0..NUM_CORES
            invariant
                channels@.len() == k,
                rows@.len() == lv.len(),
                forall|a: int| 0 <= a < rows@.len() ==> (#[trigger] rows@[a])@.len() == NUM_CORES,
                forall|c: int| 0 <= c < k ==> (#[trigger] channels@[c])@.len() == rows@.len(),
                forall|c: int, a: int|
                    0 <= c < k && 0 <= a < rows@.len() ==> #[trigger] channels@[c]@[a] == rows@[a]@[c],
        {
            let mut col: Vec<T> = Vec::new();
            for a in 0..rows.len()
                invariant
                    k < NUM_CORES,
                    rows@.len() == lv.len(),
                    forall|b: int| 0 <= b < rows@.len() ==> (#[trigger] rows@[b])@.len() == NUM_CORES,
                    col@.len() == a,
                    forall|b: int| 0 <= b < a ==> #[trigger] col@[b] == rows@[b]@[k as int],
            {
                col.push(rows[a][k]);
            }
            channels.push(col);
        }
        let ghost cv = channels@.map_values(|c: Vec<T>| c@);
        assert(forall|c: int| 0 <= c < NUM_CORES ==> #[trigger] cv[c] == channels@[c]@);
        assert forall|a: int, b: int| 0 <= a < b < times@.len() implies times@[a] < times@[b] by {
            assert(a * step < b * step) by (nonlinear_arith)
                requires
                    a < b,
                    step > 0,
            ;
        }
        let values = TempMat::from_uniform(channels);
        Ok(TimedMat { times, values })
    }

    /// For each channel, the slopes between its adjacent samples, as `slope`
    /// computes them from the earlier value, the later value and the time
    /// between the two.
    pub fn interp_by_time<F: Fn(T, T, u64) -> T>(&self, slope: F) -> (r: TempMat<T>)
        requires
            forall|a: T, b: T, dt: u64| slope.requires((a, b, dt)),
        ensures
            r@.len() == self.values_view().len(),
            forall|k: int|
                0 <= k < self.values_view().len() ==> timed_slopes_of(
                    slope,
                    self.times_view(),
                    self.values_view()[k],
                    #[trigger] r@[k],
                ),
            forall|k: int|
                0 <= k < self.values_view().len() ==> (#[trigger] r@[k]).len() == pair_count(
                    self.times_view().len(),
                ),
            uniform(r@),
    {
        proof {
            use_type_invariant(self);
        }
        let n = self.values.channel_count();
        let t = &self.times;
        let mut channels: Vec<Vec<T>> = Vec::new();
        for k in 0..n
            invariant
                n == self.values@.len(),
                t@ == self.times@,
                forall|c: int| 0 <= c < n ==> (#[trigger] self.values@[c]).len() == t@.len(),
                increasing(t@),
                channels@.len() == k,
                forall|c: int|
                    0 <= c < k ==> timed_slopes_of(slope, t@, self.values@[c], #[trigger] channels@[c]@),
                forall|c: int| 0 <= c < k ==> (#[trigger] channels@[c])@.len() == pair_count(t@.len()),
                forall|a: T, b: T, dt: u64| slope.requires((a, b, dt)),
        {
            let src = self.values.channel(k);
            let mut d: Vec<T> = Vec::new();
            let mut i: usize = 0;
            while i < src.len() && i + 1 < src.len()
                invariant
                    k < n,
                    src@ == self.values@[k as int],
                    src@.len() == t@.len(),
                    increasing(t@),
                    i <= pair_count(src@.len()),
                    d@.len() == i,
                    forall|j: int|
                        0 <= j < i ==> slope.ensures(
                            (src@[j], src@[j + 1], (t@[j + 1] - t@[j]) as u64),
                            #[trigger] d@[j],
                        ),
                    forall|a: T, b: T, dt: u64| slope.requires((a, b, dt)),
                decreases src@.len() - i,
            {
                let v = slope(src[i], src[i + 1], t[i + 1] - t[i]);
                d.push(v);
                i = i + 1;
            }
            channels.push(d);
        }
        let ghost cv = channels@.map_values(|c: Vec<T>| c@);
        assert(forall|c: int| 0 <= c < n ==> #[trigger] cv[c] == channels@[c]@);
        TempMat::from_uniform(channels)
    }

    /// The timestamps of the samples.
    pub fn times(&self) -> (r: &Vec<u64>)
        ensures
            r@ == self.times_view(),
    {
        &self.times
    }

    /// The values of the samples, by channel.
    pub fn values(&self) -> (r: &TempMat<T>)
        ensures
            r@ == self.values_view(),
    {
        &self.values
    }

    /// Sample `i` of channel `k`: its time and its value.
    pub fn sample(&self, k: usize, i: usize) -> (r: (u64, T))
        requires
            k < self.values_view().len(),
            i < self.times_view().len(),
        ensures
            r == (self.times_view()[i as int], self.values_view()[k as int][i as int]),
    {
        proof {
            use_type_invariant(self);
        }
        (self.times[i], self.values.channel(k)[i])
    }
}

} // verus!
