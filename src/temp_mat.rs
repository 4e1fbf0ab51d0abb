use vstd::prelude::*;

use crate::error::TMFromStrError;
use crate::text::{decimal, push_char, push_decimal, split_tokens, tokens, views};

verus! {

/// The shape of a matrix: number of channels, then samples per channel.
#[derive(Debug, Clone, Copy, PartialEq, Eq, Structural)]
pub struct Dims(pub usize, pub usize);

impl Dims {
    /// The shape written as `(channels, samples)`.
    pub fn display(&self) -> (r: String)
        ensures
            r@ == seq!['('] + decimal(self.0 as nat) + seq![',', ' '] + decimal(self.1 as nat)
                + seq![')'],
    {
        let mut s = String::new();
        push_char(&mut s, '(');
        push_decimal(&mut s, self.0);
        push_char(&mut s, ',');
        push_char(&mut s, ' ');
        push_decimal(&mut s, self.1);
        push_char(&mut s, ')');
        assert(s@ =~= seq!['('] + decimal(self.0 as nat) + seq![',', ' '] + decimal(
            self.1 as nat,
        ) + seq![')']);
        s
    }
}

/// Whether all channels of `m` have the same number of samples.
pub open spec fn uniform<T>(m: Seq<Seq<T>>) -> bool {
    forall|i: int, j: int| 0 <= i < m.len() && 0 <= j < m.len() ==> #[trigger] m[i].len() == #[trigger] m[j].len()
}

/// The number of samples per channel of `m` (zero when it has no channel).
pub open spec fn sample_count<T>(m: Seq<Seq<T>>) -> nat {
    if m.len() == 0 {
        0
    } else {
        m[0].len()
    }
}

/// `values` dealt round-robin into `n` channels: value `j * n + c` is sample
/// `j` of channel `c`.
pub open spec fn split_channels<T>(values: Seq<T>, n: nat) -> Seq<Seq<T>> {
    Seq::new(n, |c: int| Seq::new(values.len() / n, |j: int| values[j * n + c]))
}

/// Where sample `j` of channel `c` lies in a flat series dealt into `n`
/// channels of `k` samples.
pub proof fn lemma_split_index(j: int, c: int, n: int, k: int)
    requires
        0 <= j < k,
        0 <= c < n,
    ensures
        0 <= j * n + c < k * n,
{
    assert(0 <= j * n + c < k * n) by (nonlinear_arith)
        requires
            0 <= j < k,
            0 <= c < n,
    ;
}

/// The number of adjacent pairs in a sequence of `len` samples.
pub open spec fn pair_count(len: nat) -> nat {
    if len == 0 {
        0
    } else {
        (len - 1) as nat
    }
}

/// Whether `d` holds, for each adjacent pair of `c`, what `slope` gives on it.
pub open spec fn slopes_of<T, F: Fn(T, T) -> T>(slope: F, c: Seq<T>, d: Seq<T>) -> bool {
    &&& d.len() == pair_count(c.len())
    &&& forall|i: int| 0 <= i < d.len() ==> slope.ensures((c[i], c[i + 1]), #[trigger] d[i])
}

/// Whether `parse` may give `r` on some string slice that holds `tok`.
pub open spec fn parsed_as<T, F: Fn(&str) -> Option<T>>(parse: F, tok: Seq<char>, r: Option<
    T,
>) -> bool {
    exists|t: &str| t@ == tok && #[trigger] parse.ensures((t,), r)
}

/// Whether `parse` may give some value on a string slice that holds `tok`.
pub open spec fn parses<T, F: Fn(&str) -> Option<T>>(parse: F, tok: Seq<char>) -> bool {
    exists|v: T| parsed_as(parse, tok, Some(v))
}

/// Whether `parse` gives a value on each of `toks`.
pub open spec fn all_parsed<T, F: Fn(&str) -> Option<T>>(parse: F, toks: Seq<Seq<char>>) -> bool {
    forall|j: int| 0 <= j < toks.len() ==> parses(parse, #[trigger] toks[j])
}

/// Reads each of `toks` through `parse`: all the values, or the position of
/// the first token that does not parse.
pub fn parse_all<T, F: Fn(&str) -> Option<T>>(toks: &Vec<String>, parse: &F) -> (r: Result<
    Vec<T>,
    usize,
>)
    requires
        forall|t: &str| parse.requires((t,)),
    ensures
        r matches Ok(v) ==> {
            &&& v@.len() == toks@.len()
            &&& forall|j: int|
                0 <= j < toks@.len() ==> parsed_as(*parse, views(toks@)[j], Some(#[trigger] v@[j]))
            &&& all_parsed(*parse, views(toks@))
        },
        r matches Err(i) ==> {
            &&& i < toks@.len()
            &&& parsed_as(*parse, views(toks@)[i as int], None)
            &&& all_parsed(*parse, views(toks@).take(i as int))
        },
{
    let ghost tv = views(toks@);
    let mut values: Vec<T> = Vec::new();
    for i in 0..toks.len()
        invariant
            tv == views(toks@),
            values@.len() == i,
            forall|j: int| 0 <= j < i ==> parsed_as(*parse, tv[j], Some(#[trigger] values@[j])),
            forall|t: &str| parse.requires((t,)),
    {
        let t = toks[i].as_str();
        assert(t@ == tv[i as int]);
        let res = parse(t);
        assert(parse.ensures((t,), res));
        match res {
            Some(v) => {
                values.push(v);
            },
            None => {
                assert forall|j: int| 0 <= j < i implies parses(
                    *parse,
                    #[trigger] tv.take(i as int)[j],
                ) by {
                    assert(tv.take(i as int)[j] == tv[j]);
                    assert(parsed_as(*parse, tv[j], Some(values@[j])));
                }
                return Err(i);
            },
        }
    }
    assert forall|j: int| 0 <= j < tv.len() implies parses(*parse, #[trigger] tv[j]) by {
        assert(parsed_as(*parse, tv[j], Some(values@[j])));
    }
    Ok(values)
}

/// A fixed number of channels, each an ordered series of samples, all of
/// the same length.
pub struct TempMat<T> {
    channels: Vec<Vec<T>>,
}

impl<T> View for TempMat<T> {
    type V = Seq<Seq<T>>;

    closed spec fn view(&self) -> Seq<Seq<T>> {
        self.channels@.map_values(|c: Vec<T>| c@)
    }
}

impl<T> TempMat<T> {
    #[verifier::type_invariant]
    spec fn wf(self) -> bool {
        uniform(self@)
    }
}

impl<T: Copy> TempMat<T> {
    /// A matrix of `n` empty channels.
    pub fn new(n: usize) -> (r: Self)
        ensures
            r@ == Seq::new(n as nat, |_k: int| Seq::<T>::empty()),
            uniform(r@),
    {
        let mut channels: Vec<Vec<T>> = Vec::new();
        for k in 0..n
            invariant
                channels@.len() == k,
                forall|j: int| 0 <= j < k ==> (#[trigger] channels@[j])@ == Seq::<T>::empty(),
        {
            channels.push(Vec::new());
        }
        let r = TempMat { channels };
        assert(r@ =~= Seq::new(n as nat, |_k: int| Seq::<T>::empty()));
        r
    }

    /// The number of channels and of samples per channel.
    pub fn shape(&self) -> (r: Dims)
        ensures
            r.0 == self@.len(),
            r.1 == sample_count(self@),
            uniform(self@),
    {
        proof {
            use_type_invariant(self);
        }
        if self.channels.len() == 0 {
            Dims(0, 0)
        } else {
            Dims(self.channels.len(), self.channels[0].len())
        }
    }

    /// The number of channels.
    pub fn channel_count(&self) -> (r: usize)
        ensures
            r == self@.len(),
    {
        self.channels.len()
    }

    /// The samples of channel `k`.
    pub fn channel(&self, k: usize) -> (r: &Vec<T>)
        requires
            k < self@.len(),
        ensures
            r@ == self@[k as int],
    {
        &self.channels[k]
    }

    /// A matrix of the given channels, which all have the same length.
    pub(crate) fn from_uniform(channels: Vec<Vec<T>>) -> (r: Self)
        requires
            uniform(channels@.map_values(|c: Vec<T>| c@)),
        ensures
            r@ == channels@.map_values(|c: Vec<T>| c@),
    {
        TempMat { channels }
    }

    /// A matrix of the given channels; `None` unless all have the same length.
    pub fn from_channels(channels: Vec<Vec<T>>) -> (r: Option<Self>)
        ensures
            r is Some <==> uniform(channels@.map_values(|c: Vec<T>| c@)),
            r matches Some(m) ==> m@ == channels@.map_values(|c: Vec<T>| c@),
    {
        let ghost cv = channels@.map_values(|c: Vec<T>| c@);
        let n = channels.len();
        if n == 0 {
            return Some(TempMat { channels });
        }
        let len = channels[0].len();
        for k in 0..n
            invariant
                n == channels@.len(),
                cv == channels@.map_values(|c: Vec<T>| c@),
                len == cv[0].len(),
                forall|j: int| 0 <= j < k ==> (#[trigger] cv[j]).len() == len,
        {
            if channels[k].len() != len {
                assert(cv[k as int].len() != cv[0].len());
                return None;
            }
        }
        Some(TempMat { channels })
    }

    /// Deals a flat series round-robin into `n` channels: value `j * n + c`
    /// becomes sample `j` of channel `c`. Fails unless `n` is positive and
    /// divides the number of values.
    pub fn from_values(values: &Vec<T>, n: usize) -> (r: Result<Self, TMFromStrError>)
        ensures
            r is Ok <==> n > 0 && values@.len() % (n as nat) == 0,
            r matches Ok(m) ==> {
                &&& m@ == split_channels(values@, n as nat)
                &&& m@.len() == n
                &&& forall|c: int| 0 <= c < n ==> (#[trigger] m@[c]).len() == values@.len() / (n as nat)
                &&& uniform(m@)
            },
            r matches Err(e) ==> e == (TMFromStrError::InvalidDimensions { col: n }),
    {
        if n == 0 || values.len() % n != 0 {
            return Err(TMFromStrError::InvalidDimensions { col: n });
        }
        let len = values.len();
        let k = len / n;
        proof {
            let len = values@.len() as int;
            vstd::arithmetic::div_mod::lemma_fundamental_div_mod(len, n as int);
            assert(k * n == len) by (nonlinear_arith)
                requires
                    len == n * (len / n as int) + len % n as int,
                    len % n as int == 0,
                    k == len / n as int,
            ;
        }
        let ghost target = split_channels(values@, n as nat);
        let mut channels: Vec<Vec<T>> = Vec::new();
        for c in 0..n
            invariant
                len == values@.len(),
                k * n == values@.len(),
                k == values@.len() / (n as nat),
                target == split_channels(values@, n as nat),
                channels@.len() == c,
                forall|b: int| 0 <= b < c ==> (#[trigger] channels@[b])@ == target[b],
        {
            let mut col: Vec<T> = Vec::new();
            for j in 0..k
                invariant
                    c < n,
                    len == values@.len(),
                    k * n == values@.len(),
                    k == values@.len() / (n as nat),
                    col@.len() == j,
                    forall|i: int| 0 <= i < j ==> #[trigger] col@[i] == values@[i * n + c],
            {
                proof {
                    lemma_split_index(j as int, c as int, n as int, k as int);
                }
                col.push(values[j * n + c]);
            }
            assert(col@ =~= target[c as int]);
            channels.push(col);
        }
        let r = TempMat { channels };
        assert(r@ =~= target);
        assert forall|a: int, b: int| 0 <= a < r@.len() && 0 <= b < r@.len() implies #[trigger] r@[a].len()
            == #[trigger] r@[b].len() by {}
        Ok(r)
    }

    /// Reads the whitespace-separated numbers of `s`, each through `parse`,
    /// and deals them round-robin into `n` channels: number `j * n + c`
    /// becomes sample `j` of channel `c`. The first
    /// token that does not parse gives `InvalidNumber`; when all parse, a
    /// count that `n` does not divide gives `InvalidDimensions`.
    pub fn from_str<F: Fn(&str) -> Option<T>>(s: &str, n: usize, parse: F) -> (r: Result<
        Self,
        TMFromStrError,
    >)
        requires
            forall|t: &str| parse.requires((t,)),
        ensures
            r matches Ok(m) ==> {
                &&& n > 0 && tokens(s@).len() % (n as nat) == 0
                &&& m@.len() == n && uniform(m@)
                &&& forall|c: int|
                    0 <= c < n ==> (#[trigger] m@[c]).len() == tokens(s@).len() / (n as nat)
                &&& forall|c: int, j: int|
                    0 <= c < n && 0 <= j < tokens(s@).len() / (n as nat) ==> parsed_as(
                        parse,
                        tokens(s@)[j * n + c],
                        Some(#[trigger] m@[c][j]),
                    )
            },
            r matches Err(TMFromStrError::InvalidDimensions { col }) ==> {
                &&& col == n
                &&& n == 0 || tokens(s@).len() % (n as nat) != 0
                &&& all_parsed(parse, tokens(s@))
            },
            r matches Err(TMFromStrError::InvalidNumber { index }) ==> {
                &&& index < tokens(s@).len()
                &&& parsed_as(parse, tokens(s@)[index as int], None)
                &&& all_parsed(parse, tokens(s@).take(index as int))
            },
            r is Ok || r matches Err(TMFromStrError::InvalidDimensions { .. }) || r matches Err(
                TMFromStrError::InvalidNumber { .. },
            ),
    {
        let toks = split_tokens(s);
        match parse_all(&toks, &parse) {
            Ok(values) => {
                let r = TempMat::from_values(&values, n);
                if let Ok(m) = &r {
                    let ghost k = values@.len() / (n as nat);
                    assert forall|c: int, j: int| 0 <= c < n && 0 <= j < k implies parsed_as(
                        parse,
                        tokens(s@)[j * n + c],
                        Some(#[trigger] m@[c][j]),
                    ) by {
                        lemma_split_index(j, c, n as int, k as int);
                        vstd::arithmetic::div_mod::lemma_fundamental_div_mod(
                            values@.len() as int,
                            n as int,
                        );
                    }
                }
                r
            },
            Err(i) => Err(TMFromStrError::InvalidNumber { index: i }),
        }
    }

    /// For each channel, the slopes between its adjacent samples, as
    /// `slope` computes them from the earlier and the later value.
    pub fn interp<F: Fn(T, T) -> T>(&self, slope: F) -> (r: Self)
        requires
            forall|a: T, b: T| slope.requires((a, b)),
        ensures
            r@.len() == self@.len(),
            forall|k: int| 0 <= k < self@.len() ==> slopes_of(slope, self@[k], #[trigger] r@[k]),
            uniform(r@),
            sample_count(r@) == pair_count(sample_count(self@)),
    {
        proof {
            use_type_invariant(self);
        }
        let n = self.channels.len();
        let mut channels: Vec<Vec<T>> = Vec::new();
        for k in 0..n
            invariant
                n == self@.len(),
                channels@.len() == k,
                forall|j: int| 0 <= j < k ==> slopes_of(slope, self@[j], #[trigger] channels@[j]@),
                forall|a: T, b: T| slope.requires((a, b)),
        {
            let src = &self.channels[k];
            let mut d: Vec<T> = Vec::new();
            let mut i: usize = 0;
            while i < src.len() && i + 1 < src.len()
                invariant
                    k < self@.len(),
                    src@ == self@[k as int],
                    i <= pair_count(src@.len()),
                    d@.len() == i,
                    forall|j: int| 0 <= j < i ==> slope.ensures((src@[j], src@[j + 1]), #[trigger] d@[j]),
                    forall|a: T, b: T| slope.requires((a, b)),
                decreases src@.len() - i,
            {
                let v = slope(src[i], src[i + 1]);
                d.push(v);
                i = i + 1;
            }
            channels.push(d);
        }
        let r = TempMat { channels };
        assert(forall|k: int| 0 <= k < n ==> (#[trigger] r@[k]) == r.channels@[k]@);
        r
    }
}

/// One line of a channel's output: the interval index, the value at its
/// start and the slope across it.
#[derive(Debug, PartialEq, Eq)]
pub struct OutputRow<T> {
    pub index: usize,
    pub y0: T,
    pub slope: T,
}

/// The output lines of channel `core`, one per interpolated interval, in
/// order of time.
pub fn output_rows<T: Copy>(orig: &TempMat<T>, interp: &TempMat<T>, core: usize) -> (r: Vec<
    OutputRow<T>,
>)
    requires
        core < orig@.len(),
        interp@.len() == orig@.len(),
        sample_count(orig@) == sample_count(interp@) + 1,
    ensures
        r@.len() == sample_count(interp@),
        r@.len() == sample_count(orig@) - 1,
        forall|i: int|
            0 <= i < r@.len() ==> {
                &&& (#[trigger] r@[i]).index == i
                &&& r@[i].y0 == orig@[core as int][i]
                &&& r@[i].slope == interp@[core as int][i]
            },
{
    proof {
        use_type_invariant(orig);
        use_type_invariant(interp);
    }
    let o = orig.channel(core);
    let d = interp.channel(core);
    assert(o@.len() == sample_count(orig@));
    assert(d@.len() == sample_count(interp@));
    let mut out: Vec<OutputRow<T>> = Vec::new();
    for i in 0..d.len()
        invariant
            o@ == orig@[core as int],
            d@ == interp@[core as int],
            o@.len() == d@.len() + 1,
            out@.len() == i,
            forall|j: int|
                0 <= j < i ==> {
                    &&& (#[trigger] out@[j]).index == j
                    &&& out@[j].y0 == o@[j]
                    &&& out@[j].slope == d@[j]
                },
    {
        out.push(OutputRow { index: i, y0: o[i], slope: d[i] });
    }
    out
}

} // verus!
