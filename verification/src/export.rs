//! The exporter: a scan's records are encoded back to back and appended to
//! an artifact named by the minute of the export. An export in a fresh
//! minute opens a new artifact; another in the same minute appends to it.

use vstd::prelude::*;
use crate::clock::Timestamp;
use crate::digits::{dec_of, u64_to_string, lemma_dec_of_injective};
use crate::errors::ExportError;
use crate::json::{json_of, to_json};
use crate::record::{records_view, NameTagDB, NameTagDBView};
use vstd::string::StringExecFns;

verus! {

/// One export artifact: its minute-derived name and everything appended to
/// it so far, in order.
pub struct ExportFile {
    pub name: String,
    pub content: String,
}

/// The mathematical content of an artifact.
pub ghost struct ExportFileView {
    pub name: Seq<char>,
    pub content: Seq<char>,
}

impl View for ExportFile {
    type V = ExportFileView;

    open spec fn view(&self) -> ExportFileView {
        ExportFileView { name: self.name@, content: self.content@ }
    }
}

/// The views of a sequence of artifacts, artifact by artifact.
pub open spec fn files_view(fs: Seq<ExportFile>) -> Seq<ExportFileView> {
    fs.map_values(|f: ExportFile| f@)
}

/// The artifact name an export at the given instant writes to: the year,
/// month, day and minute, none zero-padded, under the dump directory.
pub open spec fn export_path(t: Timestamp) -> Seq<char> {
    "dumps/"@ + dec_of(t.year as nat) + dec_of(t.month as nat) + dec_of(t.day as nat) + dec_of(
        t.minute as nat,
    ) + ".json"@
}

/// Render the artifact name for an instant.
pub fn export_path_of(t: &Timestamp) -> (r: String)
    ensures
        r@ == export_path(*t),
{
    let mut out = String::from_str("dumps/");
    let y = u64_to_string(t.year as u64);
    out.append(y.as_str());
    let m = u64_to_string(t.month as u64);
    out.append(m.as_str());
    let d = u64_to_string(t.day as u64);
    out.append(d.as_str());
    let mi = u64_to_string(t.minute as u64);
    out.append(mi.as_str());
    out.append(".json");
    out
}

/// A scan's export payload: each record's JSON object, back to back, with
/// no separators and no enclosing array.
pub open spec fn payload_of(rs: Seq<NameTagDBView>) -> Seq<char>
    decreases rs.len(),
{
    if rs.len() == 0 {
        Seq::empty()
    } else {
        payload_of(rs.drop_last()) + json_of(rs.last())
    }
}

/// Encode a scan as one export payload.
pub fn payload(records: &Vec<NameTagDB>) -> (r: String)
    ensures
        r@ == payload_of(records_view(records@)),
{
    let mut out = String::new();
    let n = records.len();
    let mut i: usize = 0;
    proof {
        assert(records_view(records@).subrange(0, 0) =~= Seq::<NameTagDBView>::empty());
    }
    while i < n
        invariant
            i <= n,
            n == records.len(),
            out@ == payload_of(records_view(records@).subrange(0, i as int)),
        decreases n - i,
    {
        let ghost rv = records_view(records@);
        let piece = to_json(&records[i]);
        out.append(piece.as_str());
        proof {
            assert(rv.subrange(0, i + 1int).drop_last() =~= rv.subrange(0, i as int));
            assert(rv.subrange(0, i + 1int).last() == rv[i as int]);
            assert(rv[i as int] == records@[i as int]@);
        }
        i = i + 1;
    }
    proof {
        assert(records_view(records@).subrange(0, n as int) =~= records_view(records@));
    }
    out
}

/// The position of the artifact with a name, or `-1` if none has it.
pub open spec fn find_file(fs: Seq<ExportFileView>, name: Seq<char>) -> int
    decreases fs.len(),
{
    if fs.len() == 0 {
        -1
    } else if fs[0].name == name {
        0
    } else {
        let k = find_file(fs.drop_first(), name);
        if k == -1 {
            -1
        } else {
            k + 1
        }
    }
}

pub proof fn lemma_find_file_prefix(fs: Seq<ExportFileView>, name: Seq<char>, i: int)
    requires
        0 <= i <= fs.len(),
        forall|j: int| 0 <= j < i ==> fs[j].name != name,
        i == fs.len() || fs[i].name == name,
    ensures
        find_file(fs, name) == if i == fs.len() {
            -1int
        } else {
            i
        },
    decreases fs.len(),
{
    if fs.len() == 0 {
    } else if i == 0 {
    } else {
        assert(fs[0].name != name);
        let t = fs.drop_first();
        assert forall|j: int| 0 <= j < i - 1 implies t[j].name != name by {
            assert(t[j] == fs[j + 1]);
        }
        if i < fs.len() {
            assert(t[i - 1] == fs[i]);
        }
        lemma_find_file_prefix(t, name, i - 1);
    }
}

/// What the log holds after appending a payload under a name: a fresh
/// artifact when the name is new, else the payload glued onto the artifact
/// that has the name.
pub open spec fn log_after(
    fs: Seq<ExportFileView>,
    name: Seq<char>,
    payload: Seq<char>,
) -> Seq<ExportFileView> {
    let k = find_file(fs, name);
    if k == -1 {
        fs.push(ExportFileView { name, content: payload })
    } else {
        fs.update(k, ExportFileView { name, content: fs[k].content + payload })
    }
}

/// The export log: every artifact written so far, in creation order.
pub struct ExportLog {
    files: Vec<ExportFile>,
}

impl View for ExportLog {
    type V = Seq<ExportFileView>;

    closed spec fn view(&self) -> Seq<ExportFileView> {
        files_view(self.files@)
    }
}

impl ExportLog {
    /// An empty log: nothing exported yet.
    pub fn new() -> (log: ExportLog)
        ensures
            log@ == Seq::<ExportFileView>::empty(),
    {
        let log = ExportLog { files: Vec::new() };
        proof {
            assert(log@ =~= Seq::<ExportFileView>::empty());
        }
        log
    }

    /// How many artifacts exist.
    pub fn file_count(&self) -> (n: usize)
        ensures
            n == self@.len(),
    {
        self.files.len()
    }

    /// The name of one artifact.
    pub fn name_at(&self, i: usize) -> (r: String)
        requires
            i < self@.len(),
        ensures
            r@ == self@[i as int].name,
    {
        self.files[i].name.clone()
    }

    /// Everything appended to one artifact so far.
    pub fn content_at(&self, i: usize) -> (r: String)
        requires
            i < self@.len(),
        ensures
            r@ == self@[i as int].content,
    {
        self.files[i].content.clone()
    }

    /// Export a scan at an instant: encode every record and append the
    /// whole payload to the artifact of that instant's minute.
    pub fn export(&mut self, records: &Vec<NameTagDB>, now: &Timestamp) -> (r: Result<
        (),
        ExportError,
    >)
        ensures
            r is Ok,
            final(self)@ == log_after(
                old(self)@,
                export_path(*now),
                payload_of(records_view(records@)),
            ),
    {
        let name = export_path_of(now);
        let pay = payload(records);
        let ghost fs0 = self@;
        let n = self.files.len();
        let mut i: usize = 0;
        while i < n
            invariant
                i <= n,
                n == self.files.len(),
                self@ == fs0,
                fs0 == old(self)@,
                name@ == export_path(*now),
                pay@ == payload_of(records_view(records@)),
                forall|j: int| 0 <= j < i ==> fs0[j].name != name@,
            decreases n - i,
        {
            if self.files[i].name == name {
                proof {
                    assert(fs0[i as int].name == name@);
                    lemma_find_file_prefix(fs0, name@, i as int);
                }
                let mut f = self.files.remove(i);
                f.content.append(pay.as_str());
                self.files.insert(i, f);
                proof {
                    let target = ExportFileView {
                        name: name@,
                        content: fs0[i as int].content + pay@,
                    };
                    assert(self@ =~= fs0.update(i as int, target));
                }
                return Ok(());
            }
            proof {
                assert(fs0[i as int].name != name@);
            }
            i = i + 1;
        }
        proof {
            lemma_find_file_prefix(fs0, name@, n as int);
        }
        self.files.push(ExportFile { name, content: pay });
        proof {
            assert(self@ =~= fs0.push(
                ExportFileView { name: export_path(*now), content: pay@ },
            ));
        }
        Ok(())
    }
}

pub proof fn lemma_find_file_range(fs: Seq<ExportFileView>, name: Seq<char>)
    ensures
        -1 <= find_file(fs, name) < fs.len(),
    decreases fs.len(),
{
    if fs.len() > 0 && fs[0].name != name {
        lemma_find_file_range(fs.drop_first(), name);
    }
}

pub proof fn lemma_find_file_push_fresh(fs: Seq<ExportFileView>, f: ExportFileView, name: Seq<char>)
    requires
        find_file(fs, name) == -1,
        f.name == name,
    ensures
        find_file(fs.push(f), name) == fs.len(),
    decreases fs.len(),
{
    if fs.len() == 0 {
        assert(fs.push(f)[0] == f);
    } else {
        assert(fs[0].name != name);
        assert(fs.push(f)[0] == fs[0]);
        assert(fs.push(f).drop_first() =~= fs.drop_first().push(f));
        lemma_find_file_range(fs.drop_first(), name);
        assert(find_file(fs.drop_first(), name) == -1);
        lemma_find_file_push_fresh(fs.drop_first(), f, name);
    }
}

/// Law: two exports within the same calendar minute write one artifact —
/// the second appends its payload after the first, and replaces nothing.
pub proof fn lemma_same_minute_appends(
    fs: Seq<ExportFileView>,
    t1: Timestamp,
    t2: Timestamp,
    p1: Seq<char>,
    p2: Seq<char>,
)
    requires
        t1.year == t2.year,
        t1.month == t2.month,
        t1.day == t2.day,
        t1.minute == t2.minute,
        find_file(fs, export_path(t1)) == -1,
    ensures
        log_after(log_after(fs, export_path(t1), p1), export_path(t2), p2) == fs.push(
            ExportFileView { name: export_path(t1), content: p1 + p2 },
        ),
{
    let name = export_path(t1);
    assert(export_path(t2) == name);
    let f1 = ExportFileView { name, content: p1 };
    let log1 = fs.push(f1);
    assert(log_after(fs, name, p1) == log1);
    lemma_find_file_push_fresh(fs, f1, name);
    let k = find_file(log1, name);
    assert(k == fs.len());
    assert(log1[k].content == p1);
    assert(log_after(log1, name, p2) == log1.update(
        k,
        ExportFileView { name, content: p1 + p2 },
    ));
    assert(log1.update(k, ExportFileView { name, content: p1 + p2 }) =~= fs.push(
        ExportFileView { name, content: p1 + p2 },
    ));
}

/// Law: exports on one calendar day in different minutes name different
/// artifacts, so each minute gets its own.
pub proof fn lemma_distinct_minutes_distinct_artifacts(t1: Timestamp, t2: Timestamp)
    requires
        t1.year == t2.year,
        t1.month == t2.month,
        t1.day == t2.day,
        t1.minute != t2.minute,
    ensures
        export_path(t1) != export_path(t2),
{
    let p = "dumps/"@ + dec_of(t1.year as nat) + dec_of(t1.month as nat) + dec_of(t1.day as nat);
    let a = dec_of(t1.minute as nat);
    let b = dec_of(t2.minute as nat);
    let s = ".json"@;
    assert(export_path(t1) == p + a + s);
    assert(export_path(t2) == p + b + s);
    if export_path(t1) == export_path(t2) {
        assert(a.len() == b.len());
        assert forall|i: int| 0 <= i < a.len() implies a[i] == b[i] by {
            assert((p + a + s)[p.len() + i] == a[i]);
            assert((p + b + s)[p.len() + i] == b[i]);
        }
        assert(a =~= b);
        lemma_dec_of_injective(t1.minute as nat, t2.minute as nat);
    }
}

} // verus!
