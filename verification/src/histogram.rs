//! The layout of a histogram printed as text: one row per nonempty bucket,
//! its bounds and count right-aligned in columns, and a bar of marks scaled
//! so that the largest bucket takes about fifty.
//!
//! The labels of the bounds and counts are formatted by the caller.

use vstd::prelude::*;

verus! {

/// The widest bar, in marks.
pub const WIDTH: u64 = 50;

/// The mark that bars are made of.
pub const MARK: char = '\u{220e}';

/// The labels of one bucket, and its count.
pub struct BucketLabels {
    /// The first value of the bucket.
    pub start: Vec<char>,
    /// The last value of the bucket.
    pub end: Vec<char>,
    /// The count of the bucket, in decimal.
    pub count: Vec<char>,
    pub count_value: u64,
}

/// How many samples one mark stands for: the largest count over `WIDTH`, at least one.
pub open spec fn count_per_char_spec(max_bucket_count: u64) -> u64 {
    if max_bucket_count / WIDTH >= 1 {
        max_bucket_count / WIDTH
    } else {
        1
    }
}

/// `s` right-aligned in `width` columns.
pub open spec fn pad_left(s: Seq<char>, width: nat) -> Seq<char> {
    if s.len() >= width {
        s
    } else {
        Seq::new((width - s.len()) as nat, |i: int| ' ') + s
    }
}

/// `n` marks.
pub open spec fn bar(n: nat) -> Seq<char> {
    Seq::new(n, |i: int| MARK)
}

/// The characters of a literal separator.
pub open spec fn sep_dots() -> Seq<char> {
    seq![' ', '.', '.', ' ']
}

/// The separator between the upper bound and the count.
pub open spec fn sep_open() -> Seq<char> {
    seq![' ', '[', ' ']
}

/// The separator after the count.
pub open spec fn sep_close() -> Seq<char> {
    seq![' ', ']', ':', ' ']
}

/// One printed row: `start .. end [ count ]: ` and the bar.
pub open spec fn row_spec(
    b: (Seq<char>, Seq<char>, Seq<char>, u64),
    ws: nat,
    we: nat,
    wc: nat,
    per_char: u64,
) -> Seq<char> {
    pad_left(b.0, ws) + sep_dots() + pad_left(b.1, we) + sep_open() + pad_left(b.2, wc)
        + sep_close() + bar((b.3 / per_char) as nat)
}

/// The rows of the buckets below `n` that hold samples.
pub open spec fn rows_spec(
    buckets: Seq<(Seq<char>, Seq<char>, Seq<char>, u64)>,
    n: int,
    ws: nat,
    we: nat,
    wc: nat,
    per_char: u64,
) -> Seq<Seq<char>>
    decreases n,
{
    if n <= 0 {
        Seq::empty()
    } else {
        let rest = rows_spec(buckets, n - 1, ws, we, wc, per_char);
        if buckets[n - 1].3 == 0 {
            rest
        } else {
            rest.push(row_spec(buckets[n - 1], ws, we, wc, per_char))
        }
    }
}

/// The widest of a column over the buckets below `n` (column 0, 1 or 2).
pub open spec fn widest(buckets: Seq<(Seq<char>, Seq<char>, Seq<char>, u64)>, n: int, col: int) -> nat
    decreases n,
{
    if n <= 0 {
        0
    } else {
        let w = widest(buckets, n - 1, col);
        let l = if col == 0 {
            buckets[n - 1].0.len()
        } else if col == 1 {
            buckets[n - 1].1.len()
        } else {
            buckets[n - 1].2.len()
        };
        if l > w {
            l
        } else {
            w
        }
    }
}

/// The largest count of the buckets below `n`.
pub open spec fn max_count(buckets: Seq<(Seq<char>, Seq<char>, Seq<char>, u64)>, n: int) -> u64
    decreases n,
{
    if n <= 0 {
        0
    } else {
        let m = max_count(buckets, n - 1);
        if buckets[n - 1].3 > m {
            buckets[n - 1].3
        } else {
            m
        }
    }
}

impl BucketLabels {
    /// The labels and the count.
    pub open spec fn parts(&self) -> (Seq<char>, Seq<char>, Seq<char>, u64) {
        (self.start@, self.end@, self.count@, self.count_value)
    }
}

/// The labels and counts of a list of buckets.
pub open spec fn all_parts(buckets: Seq<BucketLabels>) -> Seq<(Seq<char>, Seq<char>, Seq<char>, u64)> {
    buckets.map_values(|b: BucketLabels| b.parts())
}

/// How many samples one mark stands for.
pub fn count_per_char(max_bucket_count: u64) -> (r: u64)
    ensures
        r == count_per_char_spec(max_bucket_count),
        r >= 1,
        max_bucket_count >= WIDTH ==> r * WIDTH <= max_bucket_count,
        max_bucket_count < (r + 1) * WIDTH,
{
    proof {
        law_count_per_char(max_bucket_count);
    }
    let c = max_bucket_count / WIDTH;
    if c >= 1 {
        c
    } else {
        1
    }
}

/// One mark stands for as many samples as makes the largest bar about `WIDTH`
/// marks: at least one sample; when the largest count reaches `WIDTH`, no
/// more than a `WIDTH`-th of it, so the bar is at least `WIDTH` marks long
/// before rounding; and fewer than a `WIDTH`-th of it plus one, so the bar is
/// at most `WIDTH` marks long after rounding down, and never more than twice
/// `WIDTH` short of it.
pub proof fn law_count_per_char(m: u64)
    ensures
        count_per_char_spec(m) >= 1,
        m >= WIDTH ==> count_per_char_spec(m) * WIDTH <= m,
        m < (count_per_char_spec(m) + 1) * WIDTH,
        m >= WIDTH ==> (m as int) / (count_per_char_spec(m) as int) <= 2 * WIDTH - 1,
        m >= WIDTH ==> (m as int) / (count_per_char_spec(m) as int) >= WIDTH,
{
    let r = count_per_char_spec(m) as int;
    let w = WIDTH as int;
    let mi = m as int;
    assert(mi / w * w <= mi && mi < (mi / w + 1) * w) by (nonlinear_arith)
        requires
            w == 50,
            mi >= 0,
    ;
    if m >= WIDTH {
        assert(r == mi / w);
        assert(mi / r >= w && mi / r <= 2 * w - 1) by (nonlinear_arith)
            requires
                r >= 1,
                r * w <= mi,
                mi < (r + 1) * w,
                w == 50,
        ;
    }
}

/// The largest count of the buckets.
pub fn largest_count(buckets: &Vec<BucketLabels>) -> (r: u64)
    ensures
        r == max_count(all_parts(buckets@), buckets@.len() as int),
{
    let ghost p = all_parts(buckets@);
    let mut max: u64 = 0;
    let mut i: usize = 0;
    while i < buckets.len()
        invariant
            p == all_parts(buckets@),
            i <= buckets@.len(),
            max == max_count(p, i as int),
        decreases buckets@.len() - i,
    {
        proof {
            assert(p[i as int] == buckets@[i as int].parts());
        }
        if buckets[i].count_value > max {
            max = buckets[i].count_value;
        }
        i = i + 1;
    }
    max
}

/// Appends `s` right-aligned in `width` columns.
fn push_padded(out: &mut Vec<char>, s: &Vec<char>, width: usize)
    ensures
        final(out)@ == old(out)@ + pad_left(s@, width as nat),
{
    let ghost start = out@;
    if s.len() < width {
        let pad = width - s.len();
        let mut i: usize = 0;
        while i < pad
            invariant
                i <= pad,
                out@ == start + Seq::new(i as nat, |j: int| ' '),
            decreases pad - i,
        {
            out.push(' ');
            proof {
                assert(out@ =~= start + Seq::new((i + 1) as nat, |j: int| ' '));
            }
            i = i + 1;
        }
    }
    let ghost mid = out@;
    let mut k: usize = 0;
    while k < s.len()
        invariant
            k <= s@.len(),
            out@ == mid + s@.subrange(0, k as int),
        decreases s@.len() - k,
    {
        out.push(s[k]);
        proof {
            assert(out@ =~= mid + s@.subrange(0, k + 1));
        }
        k = k + 1;
    }
    proof {
        assert(s@.subrange(0, s@.len() as int) =~= s@);
        if s@.len() < width {
            assert(out@ =~= start + (Seq::new((width - s@.len()) as nat, |j: int| ' ') + s@));
        } else {
            assert(out@ =~= start + s@);
        }
    }
}

/// Appends literal characters.
fn push_chars(out: &mut Vec<char>, lit: &[char])
    ensures
        final(out)@ == old(out)@ + lit@,
{
    let ghost start = out@;
    let mut k: usize = 0;
    while k < lit.len()
        invariant
            k <= lit@.len(),
            out@ == start + lit@.subrange(0, k as int),
        decreases lit@.len() - k,
    {
        out.push(lit[k]);
        proof {
            assert(out@ =~= start + lit@.subrange(0, k + 1));
        }
        k = k + 1;
    }
    proof {
        assert(lit@.subrange(0, lit@.len() as int) =~= lit@);
    }
}

/// Lays out the rows of the buckets that hold samples, with every column as
/// wide as its widest label (over all buckets) and bars scaled by
/// `count_per_char` of the largest count.
pub fn layout_rows(buckets: &Vec<BucketLabels>) -> (rows: Vec<Vec<char>>)
    ensures
        ({
            let p = all_parts(buckets@);
            let n = buckets@.len() as int;
            rows@.map_values(|r: Vec<char>| r@) == rows_spec(
                p,
                n,
                widest(p, n, 0),
                widest(p, n, 1),
                widest(p, n, 2),
                count_per_char_spec(max_count(p, n)),
            )
        }),
{
    let ghost p = all_parts(buckets@);
    let n = buckets.len();
    let mut ws: usize = 0;
    let mut we: usize = 0;
    let mut wc: usize = 0;
    let mut max: u64 = 0;
    let mut i: usize = 0;
    while i < n
        invariant
            n == buckets@.len(),
            p == all_parts(buckets@),
            i <= n,
            ws == widest(p, i as int, 0),
            we == widest(p, i as int, 1),
            wc == widest(p, i as int, 2),
            max == max_count(p, i as int),
        decreases n - i,
    {
        let b = &buckets[i];
        proof {
            assert(p[i as int] == b.parts());
        }
        if b.start.len() > ws {
            ws = b.start.len();
        }
        if b.end.len() > we {
            we = b.end.len();
        }
        if b.count.len() > wc {
            wc = b.count.len();
        }
        if b.count_value > max {
            max = b.count_value;
        }
        i = i + 1;
    }
    let per_char = count_per_char(max);
    let dots: [char; 4] = [' ', '.', '.', ' '];
    let open: [char; 3] = [' ', '[', ' '];
    let close: [char; 4] = [' ', ']', ':', ' '];
    proof {
        assert(dots@ =~= sep_dots());
        assert(open@ =~= sep_open());
        assert(close@ =~= sep_close());
    }

    let mut rows: Vec<Vec<char>> = Vec::new();
    let mut j: usize = 0;
    while j < n
        invariant
            n == buckets@.len(),
            p == all_parts(buckets@),
            j <= n,
            per_char >= 1,
            dots@ == sep_dots(),
            open@ == sep_open(),
            close@ == sep_close(),
            rows@.map_values(|r: Vec<char>| r@) == rows_spec(
                p,
                j as int,
                ws as nat,
                we as nat,
                wc as nat,
                per_char,
            ),
        decreases n - j,
    {
        let b = &buckets[j];
        proof {
            assert(p[j as int] == b.parts());
        }
        let ghost before = rows@.map_values(|r: Vec<char>| r@);
        if b.count_value != 0 {
            let mut row: Vec<char> = Vec::new();
            push_padded(&mut row, &b.start, ws);
            push_chars(&mut row, dots.as_slice());
            push_padded(&mut row, &b.end, we);
            push_chars(&mut row, open.as_slice());
            push_padded(&mut row, &b.count, wc);
            push_chars(&mut row, close.as_slice());
            let marks = b.count_value / per_char;
            let ghost prefix = row@;
            let mut m: u64 = 0;
            while m < marks
                invariant
                    m <= marks,
                    row@ == prefix + bar(m as nat),
                decreases marks - m,
            {
                row.push(MARK);
                proof {
                    assert(row@ =~= prefix + bar((m + 1) as nat));
                }
                m = m + 1;
            }
            proof {
                assert(row@ =~= row_spec(p[j as int], ws as nat, we as nat, wc as nat, per_char));
            }
            rows.push(row);
            proof {
                assert(rows@.map_values(|r: Vec<char>| r@) =~= before.push(
                    row_spec(p[j as int], ws as nat, we as nat, wc as nat, per_char),
                ));
            }
        }
        j = j + 1;
    }
    rows
}

} // verus!
