use vstd::prelude::*;

verus! {

/// One progress report of the external downloader, its three fields kept as
/// display strings.
#[derive(Clone, Debug, PartialEq, Eq)]
pub struct Progress {
    pub percent: String,
    pub speed: String,
    pub eta: String,
}

/// What a `Progress` holds, as sequences of characters.
pub ghost struct ProgressView {
    pub percent: Seq<char>,
    pub speed: Seq<char>,
    pub eta: Seq<char>,
}

impl View for Progress {
    type V = ProgressView;

    open spec fn view(&self) -> ProgressView {
        ProgressView { percent: self.percent@, speed: self.speed@, eta: self.eta@ }
    }
}

/// The marker that opens every progress line.
pub open spec fn marker() -> Seq<char> {
    seq!['D', 'O', 'W', 'N', 'L', 'O', 'A', 'D', ':']
}

/// The index of the first `|` in `s` at or after `from`, or `s.len()` if none.
pub open spec fn next_bar(s: Seq<char>, from: int) -> int
    decreases s.len() - from,
{
    if from >= s.len() {
        s.len() as int
    } else if s[from] == '|' {
        from
    } else {
        next_bar(s, from + 1)
    }
}

/// `s` with every `%` taken out.
pub open spec fn without_percent(s: Seq<char>) -> Seq<char>
    decreases s.len(),
{
    if s.len() == 0 {
        s
    } else if s.last() == '%' {
        without_percent(s.drop_last())
    } else {
        without_percent(s.drop_last()).push(s.last())
    }
}

/// The part of a line after the marker, when the line starts with it.
pub open spec fn body_of(line: Seq<char>) -> Seq<char> {
    line.subrange(marker().len() as int, line.len() as int)
}

/// Whether `line` is a progress line: it starts with the marker and what
/// follows holds at least three `|`-separated fields.
pub open spec fn is_progress_line(line: Seq<char>) -> bool {
    let b = body_of(line);
    &&& line.len() >= marker().len()
    &&& line.subrange(0, marker().len() as int) == marker()
    &&& next_bar(b, 0) < b.len()
    &&& next_bar(b, next_bar(b, 0) + 1) < b.len()
}

/// The progress that a progress line carries: the first field without its
/// `%` signs, the second and third verbatim; later fields are ignored.
pub open spec fn progress_of(line: Seq<char>) -> ProgressView {
    let b = body_of(line);
    let i1 = next_bar(b, 0);
    let i2 = next_bar(b, i1 + 1);
    let i3 = next_bar(b, i2 + 1);
    ProgressView {
        percent: without_percent(b.subrange(0, i1)),
        speed: b.subrange(i1 + 1, i2),
        eta: b.subrange(i2 + 1, i3),
    }
}

/// The parser's result on any line: a progress report, or nothing.
pub open spec fn parse_spec(line: Seq<char>) -> Option<ProgressView> {
    if is_progress_line(line) {
        Some(progress_of(line))
    } else {
        None
    }
}

proof fn lemma_next_bar_bounds(s: Seq<char>, from: int)
    requires
        0 <= from <= s.len(),
    ensures
        from <= next_bar(s, from) <= s.len(),
        next_bar(s, from) < s.len() ==> s[next_bar(s, from)] == '|',
        forall|j: int| from <= j < next_bar(s, from) ==> s[j] != '|',
    decreases s.len() - from,
{
    if from < s.len() && s[from] != '|' {
        lemma_next_bar_bounds(s, from + 1);
    }
}

/// Finds the first `|` in `s` at or after `from`.
fn find_bar(s: &str, len: usize, from: usize) -> (r: usize)
    requires
        len == s@.len(),
        from <= len,
    ensures
        r == next_bar(s@, from as int),
{
    let mut i = from;
    while i < len
        invariant
            len == s@.len(),
            from <= i <= len,
            next_bar(s@, i as int) == next_bar(s@, from as int),
        decreases len - i,
    {
        if s.get_char(i) == '|' {
            return i;
        }
        i = i + 1;
    }
    i
}

/// Copies `s[from..to]` leaving out every `%`.
fn strip_percent(s: &str, from: usize, to: usize) -> (r: String)
    requires
        from <= to <= s@.len(),
    ensures
        r@ == without_percent(s@.subrange(from as int, to as int)),
{
    let mut out = String::new();
    let mut i = from;
    while i < to
        invariant
            from <= i <= to <= s@.len(),
            out@ == without_percent(s@.subrange(from as int, i as int)),
        decreases to - i,
    {
        let c = s.get_char(i);
        let ghost before = s@.subrange(from as int, i as int);
        assert(s@.subrange(from as int, i + 1) =~= before.push(c));
        assert(s@.subrange(from as int, i + 1).drop_last() =~= before);
        if c != '%' {
            let one = s.substring_char(i, i + 1);
            assert(one@ =~= seq![c]);
            out.append(one);
        }
        i = i + 1;
    }
    out
}

/// Reads one line of the downloader's output: `DOWNLOAD:` followed by at
/// least three `|`-separated fields gives a `Progress`; any other line gives
/// `None`.
pub fn parse_progress_line(line: &str) -> (r: Option<Progress>)
    ensures
        r.is_none() <==> parse_spec(line@).is_none(),
        r matches Some(p) ==> parse_spec(line@) == Some(p@),
{
    let len = line.unicode_len();
    let mark = "DOWNLOAD:";
    proof {
        reveal_strlit("DOWNLOAD:");
        assert(mark@ =~= marker());
    }
    let mlen: usize = 9;
    if len < mlen {
        return None;
    }
    let mut k: usize = 0;
    while k < mlen
        invariant
            mlen == marker().len(),
            mark@ == marker(),
            len == line@.len(),
            mlen <= len,
            k <= mlen,
            forall|j: int| 0 <= j < k ==> line@[j] == marker()[j],
        decreases mlen - k,
    {
        if line.get_char(k) != mark.get_char(k) {
            assert(line@.subrange(0, 9)[k as int] != marker()[k as int]);
            return None;
        }
        k = k + 1;
    }
    assert(line@.subrange(0, 9) =~= marker());
    let body = line.substring_char(mlen, len);
    let blen = len - mlen;
    assert(body@ =~= body_of(line@));
    let i1 = find_bar(body, blen, 0);
    if i1 >= blen {
        return None;
    }
    let i2 = find_bar(body, blen, i1 + 1);
    if i2 >= blen {
        return None;
    }
    let i3 = find_bar(body, blen, i2 + 1);
    proof {
        lemma_next_bar_bounds(body@, 0);
        lemma_next_bar_bounds(body@, i1 + 1);
        lemma_next_bar_bounds(body@, i2 + 1);
    }
    let percent = strip_percent(body, 0, i1);
    let speed = String::from_str(body.substring_char(i1 + 1, i2));
    let eta = String::from_str(body.substring_char(i2 + 1, i3));
    Some(Progress { percent, speed, eta })
}

} // verus!
