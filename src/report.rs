//! Sizes of a directory's entries, summed and ordered into a report.

use vstd::prelude::*;
use crate::bar::{bar_text, format_percentage_bar, lemma_zero_whole, percent_band, BAR_LENGTH};
use crate::paint::Band;
use crate::text::repeat_char;
use crate::paint::{band_of_index, colorize_by_size, hue_of, paint, painted, Hue};
use crate::units::{magnitude, size_text};
use vstd::multiset::Multiset;
use vstd::seq_lib::{to_multiset_build, to_multiset_insert};

verus! {

/// Sum of a sequence of byte counts.
pub open spec fn total_of(s: Seq<u64>) -> nat
    decreases s.len(),
{
    if s.len() == 0 {
        0
    } else {
        total_of(s.drop_last()) + s.last() as nat
    }
}

/// The bytes that one reading contributes: its size, or nothing when it failed.
pub open spec fn reading_bytes(r: Option<u64>) -> u64 {
    match r {
        Some(n) => n,
        None => 0,
    }
}

/// Sum of the sizes of the readings that succeeded.
pub open spec fn readable_total(readings: Seq<Option<u64>>) -> nat {
    total_of(readings.map_values(|r: Option<u64>| reading_bytes(r)))
}

/// Adding the next element to a prefix adds its size to the prefix's sum.
pub proof fn lemma_total_prefix_step(s: Seq<u64>, i: int)
    requires
        0 <= i < s.len(),
    ensures
        total_of(s.subrange(0, i + 1)) == total_of(s.subrange(0, i)) + s[i],
{
    assert(s.subrange(0, i + 1).drop_last() =~= s.subrange(0, i));
}

/// The sum of a prefix never exceeds the sum of the whole sequence.
pub proof fn lemma_total_prefix_bounded(s: Seq<u64>, i: int)
    requires
        0 <= i <= s.len(),
    ensures
        total_of(s.subrange(0, i)) <= total_of(s),
    decreases s.len() - i,
{
    if i < s.len() {
        lemma_total_prefix_step(s, i);
        lemma_total_prefix_bounded(s, i + 1);
    } else {
        assert(s.subrange(0, i) =~= s);
    }
}

/// Inserting a size anywhere adds it to the sum.
pub proof fn lemma_total_insert(s: Seq<u64>, j: int, x: u64)
    requires
        0 <= j <= s.len(),
    ensures
        total_of(s.insert(j, x)) == total_of(s) + x,
    decreases s.len(),
{
    if j == s.len() {
        assert(s.insert(j, x).drop_last() =~= s);
    } else {
        lemma_total_insert(s.drop_last(), j, x);
        assert(s.insert(j, x).drop_last() =~= s.drop_last().insert(j, x));
    }
}

/// Sums the sizes of the readings of one subtree, skipping those that failed:
/// a failed reading leaves the sum smaller and never fails the whole.
/// `None` only when the sum does not fit in 64 bits.
pub fn subtree_size(readings: &Vec<Option<u64>>) -> (r: Option<u64>)
    ensures
        readable_total(readings@) <= u64::MAX ==> r == Some(readable_total(readings@) as u64),
        readable_total(readings@) > u64::MAX ==> r is None,
{
    let ghost bytes = readings@.map_values(|r: Option<u64>| reading_bytes(r));
    let mut sum: u64 = 0;
    let mut i: usize = 0;
    while i < readings.len()
        invariant
            i <= readings@.len(),
            bytes == readings@.map_values(|r: Option<u64>| reading_bytes(r)),
            sum as nat == total_of(bytes.subrange(0, i as int)),
        decreases readings@.len() - i,
    {
        proof {
            lemma_total_prefix_step(bytes, i as int);
        }
        match readings[i] {
            Some(n) => {
                if n > u64::MAX - sum {
                    proof {
                        lemma_total_prefix_bounded(bytes, i + 1);
                    }
                    return None;
                }
                sum = sum + n;
            },
            None => {},
        }
        i = i + 1;
    }
    assert(bytes.subrange(0, i as int) =~= bytes);
    Some(sum)
}

/// One line of a report: an entry's name, its size on disk, its share of
/// the total drawn as a bar, and its size in human-readable units.
pub struct FileInfo {
    pub name: String,
    pub raw_size: u64,
    pub percentage: String,
    pub size: String,
}

/// What a line of a report shows, as character sequences.
pub struct FileInfoView {
    pub name: Seq<char>,
    pub raw_size: u64,
    pub percentage: Seq<char>,
    pub size: Seq<char>,
}

impl View for FileInfo {
    type V = FileInfoView;

    open spec fn view(&self) -> FileInfoView {
        FileInfoView {
            name: self.name@,
            raw_size: self.raw_size,
            percentage: self.percentage@,
            size: self.size@,
        }
    }
}

/// The line of a report for an entry `name` of `raw_size` bytes, in a
/// report whose entries sum to `total` bytes.
pub open spec fn line_of(name: Seq<char>, raw_size: u64, total: u64) -> FileInfoView {
    FileInfoView {
        name: painted(Hue::Green, name),
        raw_size: raw_size,
        percentage: painted(
            hue_of(percent_band(raw_size as nat, total as nat)),
            bar_text(raw_size as nat, total as nat, BAR_LENGTH as nat),
        ),
        size: painted(hue_of(band_of_index(magnitude(raw_size as nat))), size_text(raw_size as nat)),
    }
}

impl FileInfo {
    /// The line for an entry `name` of `raw_size` bytes against a total of
    /// `total` bytes (a share of 0% when the total is 0).
    pub fn new(name: String, raw_size: u64, total: u64) -> (r: FileInfo)
        ensures
            r@ == line_of(name@, raw_size, total),
    {
        FileInfo {
            name: paint(name.as_str(), Hue::Green),
            size: colorize_by_size(raw_size),
            raw_size,
            percentage: format_percentage_bar(raw_size, total, BAR_LENGTH),
        }
    }
}

/// The sizes of a sequence of lines.
pub open spec fn line_sizes(s: Seq<FileInfo>) -> Seq<u64> {
    s.map_values(|l: FileInfo| l.raw_size)
}

/// What a sequence of lines shows.
pub open spec fn line_views(s: Seq<FileInfo>) -> Seq<FileInfoView> {
    s.map_values(|l: FileInfo| l@)
}

/// The lines are ordered from the largest size to the smallest.
pub open spec fn sorted_by_size_desc(s: Seq<FileInfo>) -> bool {
    forall|i: int, j: int| 0 <= i < j < s.len() ==> s[i].raw_size >= s[j].raw_size
}

/// Holds of a line of `v` bytes.
pub open spec fn has_size(v: u64) -> spec_fn(FileInfoView) -> bool {
    |l: FileInfoView| l.raw_size == v
}

/// The lines of `v` bytes among `s`, in their order in `s`.
pub open spec fn lines_of_size(s: Seq<FileInfoView>, v: u64) -> Seq<FileInfoView> {
    s.filter(has_size(v))
}

/// Inserting a line in front of all lines of its size or smaller puts it
/// first among the lines of its size, and leaves the lines of other sizes
/// as they were.
pub proof fn lemma_insert_before_not_larger(s: Seq<FileInfoView>, j: int, x: FileInfoView, v: u64)
    requires
        0 <= j <= s.len(),
        forall|k: int| 0 <= k < j ==> s[k].raw_size > x.raw_size,
    ensures
        lines_of_size(s.insert(j, x), v) == if x.raw_size == v {
            seq![x] + lines_of_size(s, v)
        } else {
            lines_of_size(s, v)
        },
{
    reveal(Seq::filter);
    let front = s.subrange(0, j);
    let back = s.subrange(j, s.len() as int);
    assert(s =~= front + back);
    assert(s.insert(j, x) =~= front + seq![x] + back);
    Seq::filter_distributes_over_add(front, back, has_size(v));
    Seq::filter_distributes_over_add(front + seq![x], back, has_size(v));
    Seq::filter_distributes_over_add(front, seq![x], has_size(v));
    assert(seq![x].drop_last() =~= Seq::<FileInfoView>::empty());
    assert(seq![x].drop_last().filter(has_size(v)) =~= Seq::<FileInfoView>::empty());
    if x.raw_size == v {
        assert(front.all(|l: FileInfoView| !has_size(v)(l)));
        front.lemma_all_neg_filter_empty(has_size(v));
        assert(front.filter(has_size(v)) =~= Seq::<FileInfoView>::empty());
        assert(lines_of_size(s.insert(j, x), v) =~= seq![x] + lines_of_size(s, v));
    } else {
        assert(seq![x].filter(has_size(v)) =~= Seq::<FileInfoView>::empty());
        assert(lines_of_size(s.insert(j, x), v) =~= lines_of_size(s, v));
    }
}

/// Orders lines from the largest size to the smallest; lines of equal size
/// keep the order they came in.
pub fn sort_by_size_desc(lines: Vec<FileInfo>) -> (r: Vec<FileInfo>)
    ensures
        sorted_by_size_desc(r@),
        line_views(r@).to_multiset() == line_views(lines@).to_multiset(),
        total_of(line_sizes(r@)) == total_of(line_sizes(lines@)),
        r@.len() == lines@.len(),
        forall|v: u64| #[trigger]
            lines_of_size(line_views(r@), v) == lines_of_size(line_views(lines@), v),
{
    let ghost orig = lines@;
    let mut rest = lines;
    let mut out: Vec<FileInfo> = Vec::new();
    proof {
        broadcast use vstd::multiset::group_multiset_axioms;
        assert(line_views(out@) =~= Seq::<FileInfoView>::empty());
        vstd::seq_lib::to_multiset_len(line_views(out@));
        vstd::multiset::lemma_multiset_empty_len(line_views(out@).to_multiset());
        assert(line_views(out@).to_multiset().add(line_views(rest@).to_multiset())
            =~= line_views(orig).to_multiset());
        assert(line_sizes(out@) =~= Seq::<u64>::empty());
        assert forall|u: u64| #[trigger]
            lines_of_size(line_views(orig), u) == lines_of_size(line_views(rest@), u)
                + lines_of_size(line_views(out@), u) by {
            assert(lines_of_size(line_views(out@), u) =~= Seq::<FileInfoView>::empty());
            assert(lines_of_size(line_views(orig), u) =~= lines_of_size(line_views(rest@), u)
                + lines_of_size(line_views(out@), u));
        }
    }
    while rest.len() > 0
        invariant
            sorted_by_size_desc(out@),
            line_views(out@).to_multiset().add(line_views(rest@).to_multiset())
                == line_views(orig).to_multiset(),
            total_of(line_sizes(out@)) + total_of(line_sizes(rest@)) == total_of(line_sizes(orig)),
            out@.len() + rest@.len() == orig.len(),
            forall|v: u64| #[trigger]
                lines_of_size(line_views(orig), v) == lines_of_size(line_views(rest@), v)
                    + lines_of_size(line_views(out@), v),
        decreases rest@.len(),
    {
        let ghost rest_before = rest@;
        let ghost out_before = out@;
        let line = match rest.pop() {
            Some(l) => l,
            None => {
                return out;
            },
        };
        let mut j: usize = 0;
        while j < out.len() && out[j].raw_size > line.raw_size
            invariant
                j <= out@.len(),
                out@ == out_before,
                forall|k: int| 0 <= k < j ==> out@[k].raw_size > line.raw_size,
            decreases out@.len() - j,
        {
            j = j + 1;
        }
        let ghost v = line@;
        let ghost x = line.raw_size;
        out.insert(j, line);
        proof {
            broadcast use vstd::multiset::group_multiset_axioms;
            assert(rest_before =~= rest@.push(out@[j as int]));
            assert(line_views(rest_before) =~= line_views(rest@).push(v));
            to_multiset_build(line_views(rest@), v);
            assert(line_views(out@) =~= line_views(out_before).insert(j as int, v));
            to_multiset_insert(line_views(out_before), j as int, v);
            assert(line_views(out@).to_multiset().add(line_views(rest@).to_multiset())
                =~= line_views(out_before).to_multiset().add(line_views(rest_before).to_multiset()));
            assert(line_sizes(rest_before).drop_last() =~= line_sizes(rest@));
            assert(line_sizes(out@) =~= line_sizes(out_before).insert(j as int, x));
            lemma_total_insert(line_sizes(out_before), j as int, x);
            assert forall|u: u64| #[trigger]
                lines_of_size(line_views(orig), u) == lines_of_size(line_views(rest@), u)
                    + lines_of_size(line_views(out@), u) by {
                lemma_insert_before_not_larger(line_views(out_before), j as int, v, u);
                line_views(rest@).lemma_filter_push(v, has_size(u));
                assert(lines_of_size(line_views(orig), u) == lines_of_size(line_views(rest_before), u)
                    + lines_of_size(line_views(out_before), u));
                if x == u {
                    assert(lines_of_size(line_views(rest_before), u) == lines_of_size(
                        line_views(rest@),
                        u,
                    ).push(v));
                    assert(lines_of_size(line_views(orig), u) =~= lines_of_size(line_views(rest@), u)
                        + lines_of_size(line_views(out@), u));
                } else {
                    assert(lines_of_size(line_views(rest_before), u) == lines_of_size(
                        line_views(rest@),
                        u,
                    ));
                }
            }
            assert forall|a: int, b: int| 0 <= a < b < out@.len() implies out@[a].raw_size
                >= out@[b].raw_size by {
                if b < j {
                } else if a < j {
                    if j < out_before.len() {
                        assert(out_before[j as int].raw_size <= x);
                    }
                } else if a == j {
                    assert(out@[b] == out_before[b - 1]);
                    assert(out_before[j as int].raw_size <= x);
                }
            }
        }
    }
    proof {
        assert(rest@ =~= Seq::<FileInfo>::empty());
        assert(line_views(rest@) =~= Seq::<FileInfoView>::empty());
        assert(line_sizes(rest@) =~= Seq::<u64>::empty());
        broadcast use vstd::multiset::group_multiset_axioms;
        vstd::seq_lib::to_multiset_len(line_views(rest@));
        vstd::multiset::lemma_multiset_empty_len(line_views(rest@).to_multiset());
        assert(line_views(out@).to_multiset() =~= line_views(out@).to_multiset().add(
            line_views(rest@).to_multiset(),
        ));
        assert forall|u: u64| #[trigger]
            lines_of_size(line_views(out@), u) == lines_of_size(line_views(orig), u) by {
            assert(lines_of_size(line_views(rest@), u) =~= Seq::<FileInfoView>::empty());
            assert(lines_of_size(line_views(orig), u) =~= lines_of_size(line_views(out@), u));
        }
    }
    out
}

/// The sizes of a directory's entries, given as name and size pairs.
pub open spec fn entry_sizes(s: Seq<(String, u64)>) -> Seq<u64> {
    s.map_values(|e: (String, u64)| e.1)
}

/// The lines that the entries `s` get against a total of `total` bytes.
pub open spec fn entry_lines(s: Seq<(String, u64)>, total: u64) -> Seq<FileInfoView> {
    s.map_values(|e: (String, u64)| line_of(e.0@, e.1, total))
}

/// The report on one directory: a line per entry, largest first, and the
/// total size of all entries.
pub struct Report {
    pub rows: Vec<FileInfo>,
    pub total: u64,
}

/// Builds the report on a directory from the name and size on disk of each
/// of its entries. Every entry gets a line, of size 0 too. The total is the
/// exact sum of the sizes, and each share is taken against it. Lines come
/// largest first; lines of equal size keep the order of `entries`. `None`
/// only when that sum does not fit in 64 bits.
pub fn build_report(entries: Vec<(String, u64)>) -> (r: Option<Report>)
    ensures
        r is None <==> total_of(entry_sizes(entries@)) > u64::MAX,
        r matches Some(rep) ==> {
            &&& rep.total == total_of(entry_sizes(entries@))
            &&& rep.total == total_of(line_sizes(rep.rows@))
            &&& sorted_by_size_desc(rep.rows@)
            &&& line_views(rep.rows@).to_multiset() == entry_lines(entries@, rep.total).to_multiset()
            &&& forall|v: u64| #[trigger]
                lines_of_size(line_views(rep.rows@), v) == lines_of_size(
                    entry_lines(entries@, rep.total),
                    v,
                )
        },
{
    let ghost sizes = entry_sizes(entries@);
    let mut total: u64 = 0;
    let mut i: usize = 0;
    while i < entries.len()
        invariant
            i <= entries@.len(),
            sizes == entry_sizes(entries@),
            total as nat == total_of(sizes.subrange(0, i as int)),
        decreases entries@.len() - i,
    {
        proof {
            lemma_total_prefix_step(sizes, i as int);
        }
        let n = entries[i].1;
        if n > u64::MAX - total {
            proof {
                lemma_total_prefix_bounded(sizes, i + 1);
            }
            return None;
        }
        total = total + n;
        i = i + 1;
    }
    assert(sizes.subrange(0, i as int) =~= sizes);
    let mut rows: Vec<FileInfo> = Vec::new();
    let mut k: usize = 0;
    while k < entries.len()
        invariant
            k <= entries@.len(),
            rows@.len() == k,
            forall|m: int|
                0 <= m < k ==> #[trigger] rows@[m]@ == line_of(
                    entries@[m].0@,
                    entries@[m].1,
                    total,
                ),
        decreases entries@.len() - k,
    {
        let line = FileInfo::new(entries[k].0.clone(), entries[k].1, total);
        rows.push(line);
        k = k + 1;
    }
    assert(line_views(rows@) =~= entry_lines(entries@, total));
    assert forall|m: int| 0 <= m < rows@.len() implies line_sizes(rows@)[m] == sizes[m] by {
        assert(rows@[m]@ == line_of(entries@[m].0@, entries@[m].1, total));
    }
    assert(line_sizes(rows@) =~= sizes);
    let sorted = sort_by_size_desc(rows);
    Some(Report { rows: sorted, total })
}

/// When the entries sum to 0 bytes, every line shows a 0.0% share in the
/// colour of the lowest band, with no slot of its bar filled.
pub proof fn lemma_zero_total_lines(entries: Seq<(String, u64)>)
    requires
        total_of(entry_sizes(entries)) == 0,
    ensures
        forall|i: int|
            0 <= i < entries.len() ==> #[trigger] entry_lines(entries, 0)[i].percentage == painted(
                hue_of(Band::Tiny),
                seq!['['] + repeat_char('.', BAR_LENGTH as nat) + seq![']', ' ', ' ', ' ', '0', '.', '0', '%'],
            ),
{
    assert forall|i: int| 0 <= i < entries.len() implies #[trigger] entry_lines(entries, 0)[i].percentage
        == painted(
        hue_of(Band::Tiny),
        seq!['['] + repeat_char('.', BAR_LENGTH as nat) + seq![']', ' ', ' ', ' ', '0', '.', '0', '%'],
    ) by {
        lemma_zero_whole(entries[i].1 as nat, BAR_LENGTH as nat);
        assert(seq!['['] + repeat_char('.', BAR_LENGTH as nat) + seq![']', ' '] + seq![' ', ' ', '0', '.', '0', '%']
            =~= seq!['['] + repeat_char('.', BAR_LENGTH as nat) + seq![']', ' ', ' ', ' ', '0', '.', '0', '%']);
    }
}

} // verus!
