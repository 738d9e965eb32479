//! The crash-store reading logic: given the files found in the crash
//! directory, keep the `.json` ones that parse as crash reports, drop the
//! rest silently, and order the survivors by timestamp, most recent first.
//!
//! The embedding application reads the directory and hands the file names
//! and contents in; everything after that point is verified here.

use vstd::prelude::*;
use vstd::string::*;

use crate::codec::{parse_view, render_file};
use crate::report::{CrashReport, ReportView};

verus! {

broadcast use vstd::seq_lib::group_to_multiset_ensures, vstd::multiset::group_multiset_axioms;

/// One directory entry: its file name and its full text contents.
pub struct StoredFile {
    pub name: String,
    pub content: String,
}

/// The mathematical content of a `StoredFile`.
#[verifier::ext_equal]
pub struct StoredFileView {
    pub name: Seq<char>,
    pub content: Seq<char>,
}

impl View for StoredFile {
    type V = StoredFileView;

    open spec fn view(&self) -> StoredFileView {
        StoredFileView { name: self.name@, content: self.content@ }
    }
}

pub open spec fn file_views(files: Seq<StoredFile>) -> Seq<StoredFileView> {
    files.map_values(|f: StoredFile| f@)
}

pub open spec fn report_views(reports: Seq<CrashReport>) -> Seq<ReportView> {
    reports.map_values(|r: CrashReport| r@)
}

/// A file name with a non-empty stem and the `.json` extension.
pub open spec fn is_json_name(n: Seq<char>) -> bool {
    n.len() >= 6 && n.subrange(n.len() - 5, n.len() as int) == ".json"@
}

/// What one directory entry contributes to the listing: its parsed report,
/// or nothing.
pub open spec fn one_report(f: StoredFileView) -> Seq<ReportView> {
    if is_json_name(f.name) {
        match parse_view(f.content) {
            Some(v) => seq![v],
            None => Seq::<ReportView>::empty(),
        }
    } else {
        Seq::<ReportView>::empty()
    }
}

/// Every report the directory yields, in directory order.
pub open spec fn parsed_reports(files: Seq<StoredFileView>) -> Seq<ReportView>
    decreases files.len(),
{
    if files.len() == 0 {
        Seq::<ReportView>::empty()
    } else {
        one_report(files[0]) + parsed_reports(files.skip(1))
    }
}

/// Descending by timestamp: every earlier entry is at least as recent.
pub open spec fn sorted_desc(s: Seq<CrashReport>) -> bool {
    forall|i: int, j: int| 0 <= i < j < s.len() ==> s[i].timestamp >= s[j].timestamp
}

pub proof fn lemma_parsed_concat(a: Seq<StoredFileView>, b: Seq<StoredFileView>)
    ensures
        parsed_reports(a + b) == parsed_reports(a) + parsed_reports(b),
    decreases a.len(),
{
    if a.len() == 0 {
        assert(a + b =~= b);
        assert(parsed_reports(a) + parsed_reports(b) =~= parsed_reports(b));
    } else {
        lemma_parsed_concat(a.skip(1), b);
        assert((a + b).skip(1) =~= a.skip(1) + b);
        assert((a + b)[0] == a[0]);
        assert(one_report(a[0]) + (parsed_reports(a.skip(1)) + parsed_reports(b)) =~= (one_report(
            a[0],
        ) + parsed_reports(a.skip(1))) + parsed_reports(b));
    }
}

/// Does this name end in `.json`, with a non-empty stem?
pub fn has_json_name(name: &String) -> (b: bool)
    ensures
        b == is_json_name(name@),
{
    proof {
        reveal_strlit(".json");
    }
    let s = name.as_str();
    let n = s.unicode_len();
    if n < 6 {
        return false;
    }
    let c1 = s.get_char(n - 5);
    let c2 = s.get_char(n - 4);
    let c3 = s.get_char(n - 3);
    let c4 = s.get_char(n - 2);
    let c5 = s.get_char(n - 1);
    let ok = c1 == '.' && c2 == 'j' && c3 == 's' && c4 == 'o' && c5 == 'n';
    proof {
        let sub = name@.subrange(n as int - 5, n as int);
        assert(sub[0] == name@[n as int - 5]);
        assert(sub[1] == name@[n as int - 4]);
        assert(sub[2] == name@[n as int - 3]);
        assert(sub[3] == name@[n as int - 2]);
        assert(sub[4] == name@[n as int - 1]);
        if ok {
            assert(sub =~= ".json"@);
        } else {
            assert(!is_json_name(name@));
        }
    }
    ok
}

/// Keeps every `.json` entry that parses as a crash report, drops the rest,
/// and returns the survivors sorted by timestamp descending. Never fails,
/// whatever the directory holds; an empty directory gives an empty listing.
pub fn collect_reports(files: Vec<StoredFile>) -> (r: Vec<CrashReport>)
    ensures
        report_views(r@).to_multiset() == parsed_reports(file_views(files@)).to_multiset(),
        r@.len() == parsed_reports(file_views(files@)).len(),
        sorted_desc(r@),
        files@.len() == 0 ==> r@.len() == 0,
{
    let ghost fv = file_views(files@);
    let mut out: Vec<CrashReport> = Vec::new();
    let mut idx: usize = 0;
    while idx < files.len()
        invariant
            idx <= files@.len(),
            fv == file_views(files@),
            report_views(out@).to_multiset() == parsed_reports(fv.take(idx as int)).to_multiset(),
            out@.len() == parsed_reports(fv.take(idx as int)).len(),
        decreases files@.len() - idx,
    {
        let ghost prefix = fv.take(idx as int);
        let ghost entry = fv[idx as int];
        proof {
            assert(fv.take(idx + 1 as int) =~= prefix + seq![entry]);
            lemma_parsed_concat(prefix, seq![entry]);
            assert(seq![entry].skip(1) =~= Seq::<StoredFileView>::empty());
            assert(seq![entry][0] == entry);
            assert(parsed_reports(Seq::<StoredFileView>::empty()) == Seq::<ReportView>::empty());
            assert(parsed_reports(seq![entry]) == one_report(entry) + parsed_reports(
                Seq::<StoredFileView>::empty(),
            ));
            assert(parsed_reports(seq![entry]) =~= one_report(entry));
            assert(parsed_reports(fv.take(idx + 1 as int)) =~= parsed_reports(prefix)
                + one_report(entry));
        }
        let f = &files[idx];
        proof {
            assert(f@ == entry);
        }
        if has_json_name(&f.name) {
            match CrashReport::from_json(f.content.as_str()) {
                Some(rep) => {
                    proof {
                        assert(one_report(entry) =~= seq![rep@]);
                        assert(parsed_reports(fv.take(idx + 1 as int)) =~= parsed_reports(
                            prefix,
                        ).push(rep@));
                        assert(report_views(out@.push(rep)) =~= report_views(out@).push(rep@));
                    }
                    out.push(rep);
                },
                None => {
                    proof {
                        assert(one_report(entry) =~= Seq::<ReportView>::empty());
                        assert(parsed_reports(fv.take(idx + 1 as int)) =~= parsed_reports(prefix));
                    }
                },
            }
        } else {
            proof {
                assert(one_report(entry) =~= Seq::<ReportView>::empty());
                assert(parsed_reports(fv.take(idx + 1 as int)) =~= parsed_reports(prefix));
            }
        }
        idx = idx + 1;
    }
    proof {
        assert(fv.take(files@.len() as int) =~= fv);
    }
    sort_reports_desc(&mut out);
    out
}

/// Moving the element at `j` one place to the left reorders the sequence
/// but keeps its contents.
proof fn lemma_views_swap(pre: Seq<CrashReport>, j: int)
    requires
        1 <= j < pre.len(),
    ensures
        report_views(pre.remove(j).insert(j - 1, pre[j])).to_multiset() == report_views(
            pre,
        ).to_multiset(),
        pre.remove(j).insert(j - 1, pre[j]) =~= pre.update(j, pre[j - 1]).update(j - 1, pre[j]),
{
    let vs = report_views(pre);
    let moved = pre.remove(j).insert(j - 1, pre[j]);
    assert(moved =~= pre.update(j, pre[j - 1]).update(j - 1, pre[j]));
    assert(report_views(moved) =~= vs.remove(j).insert(j - 1, vs[j]));
    assert(vs.remove(j).to_multiset() == vs.to_multiset().remove(vs[j]));
    assert(vs.remove(j).insert(j - 1, vs[j]).to_multiset() == vs.remove(j).to_multiset().insert(
        vs[j],
    ));
    assert(vs.contains(vs[j]));
    assert(vs.to_multiset().count(vs[j]) > 0);
    assert(vs.to_multiset().remove(vs[j]).insert(vs[j]) =~= vs.to_multiset());
}

/// Stable insertion sort, descending by timestamp; the contents are kept.
fn sort_reports_desc(r: &mut Vec<CrashReport>)
    ensures
        sorted_desc(final(r)@),
        report_views(final(r)@).to_multiset() == report_views(old(r)@).to_multiset(),
        final(r)@.len() == old(r)@.len(),
{
    let mut i: usize = 1;
    while i < r.len()
        invariant
            1 <= i,
            i <= r@.len() || r@.len() == 0,
            r@.len() == old(r)@.len(),
            report_views(r@).to_multiset() == report_views(old(r)@).to_multiset(),
            forall|a: int, b: int|
                0 <= a < b < i && b < r@.len() ==> r@[a].timestamp >= r@[b].timestamp,
        decreases r@.len() - i,
    {
        let mut j: usize = i;
        while j > 0 && r[j - 1].timestamp < r[j].timestamp
            invariant
                j <= i < r@.len(),
                r@.len() == old(r)@.len(),
                report_views(r@).to_multiset() == report_views(old(r)@).to_multiset(),
                forall|a: int, b: int|
                    0 <= a < b <= i && a != j && b != j ==> r@[a].timestamp >= r@[b].timestamp,
                forall|b: int| j < b <= i ==> r@[j as int].timestamp >= r@[b].timestamp,
            decreases j,
        {
            let ghost pre = r@;
            let x = r.remove(j);
            r.insert(j - 1, x);
            proof {
                lemma_views_swap(pre, j as int);
                assert(r@ =~= pre.update(j as int, pre[j - 1]).update(j - 1, pre[j as int]));
            }
            j = j - 1;
        }
        proof {
            assert forall|a: int, b: int|
                0 <= a < b <= i && b < r@.len() implies r@[a].timestamp >= r@[b].timestamp by {
                if b == j {
                    assert(j > 0);
                    assert(r@[j - 1].timestamp >= r@[j as int].timestamp);
                    if a < j - 1 {
                        assert(r@[a].timestamp >= r@[j - 1].timestamp);
                    }
                }
            }
        }
        i = i + 1;
    }
    proof {
        if old(r)@.len() == 0 {
            assert(r@.len() == 0);
        }
    }
}

pub proof fn lemma_parsed_contains(files: Seq<StoredFileView>, i: int, rv: ReportView)
    requires
        0 <= i < files.len(),
        is_json_name(files[i].name),
        parse_view(files[i].content) == Some(rv),
    ensures
        parsed_reports(files).contains(rv),
    decreases i,
{
    if i == 0 {
        assert(parsed_reports(files)[0] == rv);
    } else {
        lemma_parsed_contains(files.skip(1), i - 1, rv);
        let rest = parsed_reports(files.skip(1));
        let k = choose|k: int| 0 <= k < rest.len() && rest[k] == rv;
        assert(parsed_reports(files)[one_report(files[0]).len() + k] == rv);
    }
}

/// Law: a report whose file stands in the directory under a `.json` name
/// with parseable contents appears in any listing that meets
/// `collect_reports`' contract.
pub proof fn lemma_saved_report_listed(
    files: Seq<StoredFileView>,
    listed: Seq<CrashReport>,
    i: int,
    rv: ReportView,
)
    requires
        0 <= i < files.len(),
        is_json_name(files[i].name),
        parse_view(files[i].content) == Some(rv),
        report_views(listed).to_multiset() == parsed_reports(files).to_multiset(),
    ensures
        exists|k: int| 0 <= k < listed.len() && listed[k]@ == rv,
{
    lemma_parsed_contains(files, i, rv);
    assert(parsed_reports(files).to_multiset().count(rv) > 0);
    assert(report_views(listed).contains(rv));
    let k = choose|k: int|
        0 <= k < report_views(listed).len() && report_views(listed)[k] == rv;
    assert(listed[k]@ == rv);
}

/// Law: saving a report and then listing the directory shows it. The file
/// written for the report (its derived name, its rendered contents) parses
/// back to the report, so it is among the listed reports.
pub proof fn lemma_save_then_list_contains(
    files: Seq<StoredFileView>,
    listed: Seq<CrashReport>,
    i: int,
    rv: ReportView,
)
    requires
        0 <= i < files.len(),
        is_json_name(files[i].name),
        files[i].content == render_file(rv),
        report_views(listed).to_multiset() == parsed_reports(files).to_multiset(),
    ensures
        exists|k: int| 0 <= k < listed.len() && listed[k]@ == rv,
{
    crate::codec::lemma_file_round_trip(rv);
    lemma_saved_report_listed(files, listed, i, rv);
}

} // verus!
