use vstd::prelude::*;
use std::collections::VecDeque;
use vstd::string::StrSliceExecFns;
use vstd::string::StringExecFns;
use crate::models::SensorData;

verus! {

broadcast use vstd::seq_lib::group_to_multiset_ensures;

/// How the window of raw samples is reduced to one sample.
#[derive(Debug, Clone, Copy, PartialEq, Eq, Structural)]
pub enum FilterType {
    /// No filtering: the oldest sample of the window.
    NoFilter,
    /// The mean of the window, channel by channel.
    Mean,
    /// The median of the window, channel by channel.
    Median,
}

impl Default for FilterType {
    fn default() -> (r: Self)
        ensures
            r == FilterType::Mean,
    {
        FilterType::Mean
    }
}

/// `c` in lower case, for ASCII letters.
pub open spec fn ascii_lower(c: char) -> char {
    if 'A' <= c && c <= 'Z' { ((c as u32) + 32) as char } else { c }
}

/// Whether `s` spells `word` (given in lower case) ignoring ASCII case.
pub open spec fn spells(s: Seq<char>, word: Seq<char>) -> bool {
    s.len() == word.len() && forall|i: int| 0 <= i < s.len() ==> ascii_lower(#[trigger] s[i]) == word[i]
}

/// The filter type a name selects, ignoring case.
pub open spec fn filter_type_named(s: Seq<char>) -> Option<FilterType> {
    if spells(s, seq!['n', 'o', 'n', 'e']) {
        Some(FilterType::NoFilter)
    } else if spells(s, seq!['m', 'e', 'a', 'n']) {
        Some(FilterType::Mean)
    } else if spells(s, seq!['m', 'e', 'd', 'i', 'a', 'n']) {
        Some(FilterType::Median)
    } else {
        None
    }
}

fn lower_char(c: char) -> (r: char)
    ensures
        r == ascii_lower(c),
{
    if 'A' <= c && c <= 'Z' {
        let code: u32 = c as u32;
        assert(65 <= code <= 90);
        let lowered: u8 = (code + 32) as u8;
        lowered as char
    } else {
        c
    }
}

fn spells_word(s: &str, word: &str) -> (r: bool)
    ensures
        r == spells(s@, word@),
{
    let n = s.unicode_len();
    if n != word.unicode_len() {
        return false;
    }
    let mut i: usize = 0;
    while i < n
        invariant
            n == s@.len(),
            n == word@.len(),
            i <= n,
            forall|j: int| 0 <= j < i ==> ascii_lower(#[trigger] s@[j]) == word@[j],
        decreases n - i,
    {
        if lower_char(s.get_char(i)) != word.get_char(i) {
            return false;
        }
        i = i + 1;
    }
    true
}

/// The message of a filter name that is not known.
pub open spec fn unknown_filter_message(s: Seq<char>) -> Seq<char> {
    "Unknown filter type: "@ + s
}

impl FilterType {
    /// Parses a filter name (`none`, `mean` or `median`), ignoring ASCII case.
    pub fn parse_name(s: &str) -> (r: Result<FilterType, String>)
        ensures
            match filter_type_named(s@) {
                Some(t) => r == Ok::<FilterType, String>(t),
                None => r matches Err(e) && e@ == unknown_filter_message(s@),
            },
    {
        proof {
            reveal_strlit("none");
            reveal_strlit("mean");
            reveal_strlit("median");
        }
        if spells_word(s, "none") {
            assert("none"@ =~= seq!['n', 'o', 'n', 'e']);
            Ok(FilterType::NoFilter)
        } else if spells_word(s, "mean") {
            assert("none"@ =~= seq!['n', 'o', 'n', 'e']);
            assert("mean"@ =~= seq!['m', 'e', 'a', 'n']);
            Ok(FilterType::Mean)
        } else if spells_word(s, "median") {
            assert("none"@ =~= seq!['n', 'o', 'n', 'e']);
            assert("mean"@ =~= seq!['m', 'e', 'a', 'n']);
            assert("median"@ =~= seq!['m', 'e', 'd', 'i', 'a', 'n']);
            Ok(FilterType::Median)
        } else {
            assert("none"@ =~= seq!['n', 'o', 'n', 'e']);
            assert("mean"@ =~= seq!['m', 'e', 'a', 'n']);
            assert("median"@ =~= seq!['m', 'e', 'd', 'i', 'a', 'n']);
            let mut msg = String::from_str("Unknown filter type: ");
            msg.append(s);
            Err(msg)
        }
    }

    /// The display name of the filter type.
    pub fn name(&self) -> (r: &'static str)
        ensures
            r@ == match self {
                FilterType::NoFilter => "None"@,
                FilterType::Mean => "Mean"@,
                FilterType::Median => "Median"@,
            },
    {
        match self {
            FilterType::NoFilter => "None",
            FilterType::Mean => "Mean",
            FilterType::Median => "Median",
        }
    }
}

impl std::str::FromStr for FilterType {
    type Err = String;

    fn from_str(s: &str) -> (r: Result<FilterType, String>)
        ensures
            match filter_type_named(s@) {
                Some(t) => r == Ok::<FilterType, String>(t),
                None => r matches Err(e) && e@ == unknown_filter_message(s@),
            },
    {
        FilterType::parse_name(s)
    }
}

/// The filter settings: how to reduce and over how many of the newest samples.
#[derive(Debug, Clone, Copy)]
pub struct FilterBufferConfig {
    pub filter_type: FilterType,
    pub window_size: usize,
}

impl Default for FilterBufferConfig {
    fn default() -> (r: Self)
        ensures
            r.filter_type == FilterType::Mean,
            r.window_size == 10,
    {
        FilterBufferConfig { filter_type: FilterType::Mean, window_size: 10 }
    }
}

impl FilterBufferConfig {
    /// Builds a configuration from a filter name and a window size.
    pub fn from_str(filter_type: &str, window_size: usize) -> (r: Result<FilterBufferConfig, String>)
        ensures
            match filter_type_named(filter_type@) {
                Some(t) => r matches Ok(c) && c.filter_type == t && c.window_size == window_size,
                None => r matches Err(e) && e@ == unknown_filter_message(filter_type@),
            },
    {
        let t = FilterType::parse_name(filter_type)?;
        Ok(FilterBufferConfig { filter_type: t, window_size })
    }
}

/// The order key of a reading held as an IEEE-754 bit pattern: keys compare
/// as the readings do, and the two zeros, which compare equal, share a key.
/// (A NaN compares with nothing; it gets the key of its bit pattern.)
pub open spec fn order_key(bits: u64) -> u64 {
    if bits == 0x8000_0000_0000_0000u64 {
        0x8000_0000_0000_0000u64
    } else if bits > 0x8000_0000_0000_0000u64 {
        !bits
    } else {
        bits | 0x8000_0000_0000_0000u64
    }
}

fn order_key_exec(bits: u64) -> (r: u64)
    ensures
        r == order_key(bits),
{
    if bits == 0x8000_0000_0000_0000u64 {
        0x8000_0000_0000_0000u64
    } else if bits > 0x8000_0000_0000_0000u64 {
        !bits
    } else {
        bits | 0x8000_0000_0000_0000u64
    }
}

/// The readings of `s`, each with its position.
pub open spec fn tagged(s: Seq<u64>) -> Seq<(u64, int)> {
    Seq::new(s.len(), |i: int| (s[i], i))
}

/// Whether the tagged reading `a` comes before `b` in a stable ascending
/// sort: its key is smaller, or the keys are equal and it came first.
pub open spec fn sorts_before(a: (u64, int), b: (u64, int)) -> bool {
    ||| order_key(a.0) < order_key(b.0)
    ||| (order_key(a.0) == order_key(b.0) && a.1 < b.1)
}

/// Whether tagged readings are in the order of a stable ascending sort.
pub open spec fn stably_sorted(t: Seq<(u64, int)>) -> bool {
    forall|i: int, j: int| 0 <= i < j < t.len() ==> sorts_before(#[trigger] t[i], #[trigger] t[j])
}

/// Whether `r` is the median of `s`: the reading at index `len / 2` once `s`
/// is put in ascending order by a stable sort, readings that compare equal
/// keeping the order in which they came.
pub open spec fn is_median(s: Seq<u64>, r: u64) -> bool {
    exists|t: Seq<(u64, int)>|
        stably_sorted(t) && #[trigger] t.to_multiset() == tagged(s).to_multiset() && t.len() == s.len()
            && t[(s.len() / 2) as int].0 == r
}

proof fn lemma_sorted_permutations_equal(t1: Seq<(u64, int)>, t2: Seq<(u64, int)>)
    requires
        stably_sorted(t1),
        stably_sorted(t2),
        t1.to_multiset() == t2.to_multiset(),
    ensures
        t1 == t2,
    decreases t1.len(),
{
    if t1.len() == 0 {
        assert(t2.to_multiset().len() == 0);
        assert(t2.len() == 0);
        assert(t1 =~= t2);
    } else {
        assert(t1.to_multiset().len() == t1.len());
        assert(t2.to_multiset().len() == t2.len());
        assert(t2.len() == t1.len());
        assert(t1.contains(t1[0]));
        assert(t1.to_multiset().count(t1[0]) > 0);
        assert(t2.to_multiset().count(t1[0]) > 0);
        assert(t2.contains(t1[0]));
        assert(t2.contains(t2[0]));
        assert(t2.to_multiset().count(t2[0]) > 0);
        assert(t1.to_multiset().count(t2[0]) > 0);
        assert(t1.contains(t2[0]));
        if t1[0] != t2[0] {
            let k = choose|k: int| 0 <= k < t2.len() && t2[k] == t1[0];
            let h = choose|h: int| 0 <= h < t1.len() && t1[h] == t2[0];
            assert(sorts_before(t2[0], t2[k]));
            assert(sorts_before(t1[0], t1[h]));
        }
        assert(t1.remove(0) =~= t1.drop_first());
        assert(t2.remove(0) =~= t2.drop_first());
        assert(t1.remove(0).to_multiset() == t1.to_multiset().remove(t1[0]));
        assert(t2.remove(0).to_multiset() == t2.to_multiset().remove(t2[0]));
        assert(stably_sorted(t1.drop_first())) by {
            assert forall|i: int, j: int| 0 <= i < j < t1.drop_first().len() implies
                sorts_before(#[trigger] t1.drop_first()[i], #[trigger] t1.drop_first()[j]) by {
                assert(sorts_before(t1[i + 1], t1[j + 1]));
            }
        }
        assert(stably_sorted(t2.drop_first())) by {
            assert forall|i: int, j: int| 0 <= i < j < t2.drop_first().len() implies
                sorts_before(#[trigger] t2.drop_first()[i], #[trigger] t2.drop_first()[j]) by {
                assert(sorts_before(t2[i + 1], t2[j + 1]));
            }
        }
        lemma_sorted_permutations_equal(t1.drop_first(), t2.drop_first());
        assert forall|i: int| 0 <= i < t1.len() implies t1[i] == t2[i] by {
            if i > 0 {
                assert(t1[i] == t1.drop_first()[i - 1]);
                assert(t2[i] == t2.drop_first()[i - 1]);
            }
        }
        assert(t1 =~= t2);
    }
}

/// The median is well defined: a list of readings has exactly one median.
pub proof fn law_median_unique(s: Seq<u64>, r1: u64, r2: u64)
    requires
        is_median(s, r1),
        is_median(s, r2),
    ensures
        r1 == r2,
{
    let t1 = choose|t: Seq<(u64, int)>|
        stably_sorted(t) && #[trigger] t.to_multiset() == tagged(s).to_multiset() && t.len() == s.len()
            && t[(s.len() / 2) as int].0 == r1;
    let t2 = choose|t: Seq<(u64, int)>|
        stably_sorted(t) && #[trigger] t.to_multiset() == tagged(s).to_multiset() && t.len() == s.len()
            && t[(s.len() / 2) as int].0 == r2;
    lemma_sorted_permutations_equal(t1, t2);
}

/// The readings of `s` in the order of a stable ascending sort, with the
/// positions they came from as `tags`.
fn sort_readings(s: &Vec<u64>) -> (res: (Vec<u64>, Ghost<Seq<(u64, int)>>))
    ensures
        stably_sorted(res.1@),
        res.1@.to_multiset() == tagged(s@).to_multiset(),
        res.1@.len() == s@.len(),
        res.0@.len() == s@.len(),
        forall|j: int| 0 <= j < s@.len() ==> #[trigger] res.0@[j] == res.1@[j].0,
{
    let mut t: Vec<u64> = Vec::new();
    let ghost mut tags: Seq<(u64, int)> = Seq::empty();
    let mut i: usize = 0;
    while i < s.len()
        invariant
            i <= s.len(),
            stably_sorted(tags),
            tags.to_multiset() == tagged(s@).take(i as int).to_multiset(),
            tags.len() == i,
            t@.len() == i,
            forall|j: int| 0 <= j < i ==> #[trigger] t@[j] == tags[j].0,
            forall|j: int| 0 <= j < i ==> 0 <= #[trigger] tags[j].1 < i,
        decreases s.len() - i,
    {
        let x = s[i];
        let kx = order_key_exec(x);
        let mut p: usize = 0;
        while p < t.len() && order_key_exec(t[p]) <= kx
            invariant
                p <= t@.len(),
                kx == order_key(x),
                t@.len() == tags.len(),
                forall|j: int| 0 <= j < t@.len() ==> #[trigger] t@[j] == tags[j].0,
                forall|j: int| 0 <= j < p ==> order_key(#[trigger] tags[j].0) <= order_key(x),
            decreases t@.len() - p,
        {
            p = p + 1;
        }
        let ghost before = tags;
        let ghost tx = (x, i as int);
        t.insert(p, x);
        proof {
            tags = before.insert(p as int, tx);
            assert(tagged(s@)[i as int] == tx);
            assert(tagged(s@).take(i + 1) =~= tagged(s@).take(i as int).push(tx));
            assert forall|a: int, b: int| 0 <= a < b < tags.len() implies sorts_before(#[trigger] tags[a], #[trigger] tags[b]) by {
                if b < p {
                    assert(sorts_before(before[a], before[b]));
                } else if b == p {
                    assert(order_key(before[a].0) <= order_key(x));
                    assert(before[a].1 < i);
                } else if a < p {
                    assert(sorts_before(before[a], before[b - 1]));
                } else if a == p {
                    assert(order_key(before[p as int].0) > order_key(x));
                    if b - 1 > p {
                        assert(sorts_before(before[p as int], before[b - 1]));
                    }
                } else {
                    assert(sorts_before(before[a - 1], before[b - 1]));
                }
            }
            assert forall|j: int| 0 <= j < i + 1 implies #[trigger] t@[j] == tags[j].0 by {
                if j < p {
                    assert(t@[j] == before[j].0);
                } else if j > p {
                    assert(t@[j] == before[j - 1].0);
                }
            }
            assert forall|j: int| 0 <= j < i + 1 implies 0 <= #[trigger] tags[j].1 < i + 1 by {
                if j < p {
                    assert(tags[j] == before[j]);
                } else if j > p {
                    assert(tags[j] == before[j - 1]);
                }
            }
        }
        i = i + 1;
    }
    assert(tagged(s@).take(s@.len() as int) =~= tagged(s@));
    (t, Ghost(tags))
}

/// The median of a non-empty list of readings.
fn median_reading(s: &Vec<u64>) -> (r: u64)
    requires
        s@.len() > 0,
    ensures
        is_median(s@, r),
{
    let (t, Ghost(tags)) = sort_readings(s);
    let r = t[s.len() / 2];
    assert(stably_sorted(tags) && tags.to_multiset() == tagged(s@).to_multiset() && tags.len() == s@.len()
        && tags[(s@.len() / 2) as int].0 == r);
    r
}

/// The outcome of filtering the window.
#[derive(Debug)]
pub enum FilteredSample {
    /// A single sample: the newest while the window is filling, the oldest of
    /// the window without filtering, or the channel-wise median.
    Sample(SensorData),
    /// The window, newest first, whose channel-wise mean is the filtered
    /// sample; the mean is taken in floating point by the caller.
    MeanOf(Vec<SensorData>),
}

/// The newest `w` samples of `h`, newest first.
pub open spec fn filter_window(h: Seq<SensorData>, w: nat) -> Seq<SensorData> {
    h.reverse().take(w as int)
}

/// The samples kept after appending to `h`: no more than twice the window.
pub open spec fn filter_push(h: Seq<SensorData>, w: nat, d: SensorData) -> Seq<SensorData> {
    let p = h.push(d);
    if p.len() > 2 * w { p.skip(p.len() - 2 * w) } else { p }
}

/// Whether `r` is the channel-wise median of the window `win`, digital inputs cleared.
pub open spec fn is_channel_median(win: Seq<SensorData>, r: SensorData) -> bool {
    &&& is_median(win.map_values(|d: SensorData| d.ad1_load), r.ad1_load)
    &&& is_median(win.map_values(|d: SensorData| d.ad2_radius), r.ad2_radius)
    &&& is_median(win.map_values(|d: SensorData| d.ad3_angle), r.ad3_angle)
    &&& !r.digital_input_0
    &&& !r.digital_input_1
}

/// Raw samples awaiting filtering, at most twice the window.
#[derive(Debug)]
pub struct FilterBuffer {
    raw_data: VecDeque<SensorData>,
    config: FilterBufferConfig,
}

fn channel(win: &Vec<SensorData>, which: u8) -> (r: Vec<u64>)
    ensures
        which == 0 ==> r@ == win@.map_values(|d: SensorData| d.ad1_load),
        which == 1 ==> r@ == win@.map_values(|d: SensorData| d.ad2_radius),
        which != 0 && which != 1 ==> r@ == win@.map_values(|d: SensorData| d.ad3_angle),
{
    let mut r: Vec<u64> = Vec::new();
    let mut i: usize = 0;
    while i < win.len()
        invariant
            i <= win@.len(),
            r@.len() == i,
            forall|j: int| 0 <= j < i ==> #[trigger] r@[j] == (if which == 0 {
                win@[j].ad1_load
            } else if which == 1 {
                win@[j].ad2_radius
            } else {
                win@[j].ad3_angle
            }),
        decreases win@.len() - i,
    {
        let d = win[i];
        let v = if which == 0 { d.ad1_load } else if which == 1 { d.ad2_radius } else { d.ad3_angle };
        r.push(v);
        i = i + 1;
    }
    if which == 0 {
        assert(r@ =~= win@.map_values(|d: SensorData| d.ad1_load));
    } else if which == 1 {
        assert(r@ =~= win@.map_values(|d: SensorData| d.ad2_radius));
    } else {
        assert(r@ =~= win@.map_values(|d: SensorData| d.ad3_angle));
    }
    r
}

impl FilterBuffer {
    #[verifier::type_invariant]
    spec fn within_bound(&self) -> bool {
        self.raw_data@.len() <= 2 * self.config.window_size
    }

    /// The samples held, oldest first.
    pub closed spec fn samples(&self) -> Seq<SensorData> {
        self.raw_data@
    }

    /// The filter settings.
    pub closed spec fn spec_config(&self) -> FilterBufferConfig {
        self.config
    }

    pub fn new(config: FilterBufferConfig) -> (r: Self)
        ensures
            r.samples() == Seq::<SensorData>::empty(),
            r.spec_config() == config,
    {
        FilterBuffer { raw_data: VecDeque::new(), config }
    }

    /// Appends a sample, then drops the oldest while more than twice the window is held.
    pub fn push(&mut self, data: SensorData)
        ensures
            final(self).samples() == filter_push(old(self).samples(), old(self).spec_config().window_size as nat, data),
            final(self).spec_config() == old(self).spec_config(),
    {
        let mut q = VecDeque::new();
        std::mem::swap(&mut q, &mut self.raw_data);
        q.push_back(data);
        let ghost p = q@;
        let w = self.config.window_size;
        while w <= usize::MAX / 2 && q.len() > w * 2
            invariant
                w == self.config.window_size,
                p.len() >= q@.len(),
                q@ == p.skip(p.len() - q@.len()),
                p.len() > 2 * w ==> q@.len() >= 2 * w,
                p.len() <= 2 * w ==> q@ == p,
            decreases q@.len(),
        {
            let ghost before = q@;
            let _ = q.pop_front();
            assert(q@ =~= p.skip(p.len() - q@.len()));
        }
        assert(p.len() <= 2 * w ==> q@ =~= p.skip(0));
        let held = q.len();
        assert(held <= 2 * w);
        self.raw_data = q;
    }

    /// The filtered sample, or `None` while no sample is held. Until the window
    /// fills, the newest sample; then, by filter type, the oldest sample of the
    /// window, the window for the mean, or the channel-wise median.
    pub fn get_filtered(&self) -> (r: Option<FilteredSample>)
        ensures
            ({
                let h = self.samples();
                let w = self.spec_config().window_size as nat;
                let win = filter_window(h, w);
                if h.len() == 0 {
                    r is None
                } else if h.len() < w {
                    r == Some(FilteredSample::Sample(h.last()))
                } else {
                    match self.spec_config().filter_type {
                        FilterType::NoFilter => r == Some(FilteredSample::Sample(h[h.len() - w])),
                        FilterType::Mean => r matches Some(FilteredSample::MeanOf(v)) && v@ == win,
                        FilterType::Median => r matches Some(FilteredSample::Sample(m)) && is_channel_median(win, m),
                    }
                }
            }),
    {
        proof {
            use_type_invariant(self);
        }
        let len = self.raw_data.len();
        if len == 0 {
            return None;
        }
        let w = self.config.window_size;
        if len < w {
            return Some(FilteredSample::Sample(self.raw_data[len - 1]));
        }
        match self.config.filter_type {
            FilterType::NoFilter => Some(FilteredSample::Sample(self.raw_data[len - w])),
            _ => {
                let mut win: Vec<SensorData> = Vec::new();
                let mut i: usize = 0;
                while i < w
                    invariant
                        w <= len,
                        len == self.raw_data@.len(),
                        i <= w,
                        win@ == self.raw_data@.reverse().take(i as int),
                    decreases w - i,
                {
                    win.push(self.raw_data[len - 1 - i]);
                    assert(win@ =~= self.raw_data@.reverse().take(i + 1));
                    i = i + 1;
                }
                match self.config.filter_type {
                    FilterType::Mean => Some(FilteredSample::MeanOf(win)),
                    _ => {
                        let a = channel(&win, 0);
                        let b = channel(&win, 1);
                        let c = channel(&win, 2);
                        let m = SensorData::new(median_reading(&a), median_reading(&b), median_reading(&c));
                        Some(FilteredSample::Sample(m))
                    },
                }
            },
        }
    }

    pub fn len(&self) -> (r: usize)
        ensures
            r == self.samples().len(),
    {
        self.raw_data.len()
    }

    pub fn is_empty(&self) -> (r: bool)
        ensures
            r == (self.samples().len() == 0),
    {
        self.raw_data.len() == 0
    }

    /// Whether a full window is held.
    pub fn is_ready(&self) -> (r: bool)
        ensures
            r == (self.samples().len() >= self.spec_config().window_size),
    {
        self.raw_data.len() >= self.config.window_size
    }

    /// Drops every held sample.
    pub fn clear(&mut self)
        ensures
            final(self).samples() == Seq::<SensorData>::empty(),
            final(self).spec_config() == old(self).spec_config(),
    {
        self.raw_data = VecDeque::new();
    }

    pub fn config(&self) -> (r: &FilterBufferConfig)
        ensures
            *r == self.spec_config(),
    {
        &self.config
    }

    /// Changes the filter type; the window and the held samples stay.
    pub fn set_filter_type(&mut self, filter_type: FilterType)
        ensures
            final(self).samples() == old(self).samples(),
            final(self).spec_config() == (FilterBufferConfig { filter_type, ..old(self).spec_config() }),
    {
        proof {
            use_type_invariant(&*self);
        }
        self.config.filter_type = filter_type;
    }
}

impl Default for FilterBuffer {
    fn default() -> (r: Self)
        ensures
            r.samples() == Seq::<SensorData>::empty(),
            r.spec_config() == (FilterBufferConfig { filter_type: FilterType::Mean, window_size: 10 }),
    {
        FilterBuffer::new(FilterBufferConfig::default())
    }
}

/// The buffer never holds more than twice its window, and what it holds is the
/// newest part of everything pushed, in order.
pub proof fn law_filter_buffer_bounded(h: Seq<SensorData>, w: nat, d: SensorData)
    ensures
        filter_push(h, w, d).len() <= 2 * w,
        filter_push(h, w, d).is_suffix_of(h.push(d)),
{
    let p = h.push(d);
    let r = filter_push(h, w, d);
    if p.len() > 2 * w {
        assert(p.subrange(p.len() - r.len(), p.len() as int) =~= r);
    } else {
        assert(p.subrange(0, p.len() as int) =~= p);
    }
}

/// The newest sample pushed is always held (when the window is not empty).
pub proof fn law_filter_keeps_newest(h: Seq<SensorData>, w: nat, d: SensorData)
    requires
        w >= 1,
    ensures
        filter_push(h, w, d).last() == d,
{
}

} // verus!
