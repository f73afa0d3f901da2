//! A line diff of two JSON documents, in their pretty-printed form.

use vstd::prelude::*;

verus! {

/// Which document a line of the diff comes from.
#[derive(Debug, Clone, Copy, PartialEq, Eq, Structural)]
pub enum DiffSide {
    /// Only in the left document.
    Left,
    /// In both documents.
    Both,
    /// Only in the right document.
    Right,
}

/// A line of the diff.
#[derive(Debug, Clone)]
pub struct DiffLine {
    pub side: DiffSide,
    pub line: String,
}

pub open spec fn diff_line_view(d: DiffLine) -> (DiffSide, Seq<char>) {
    (d.side, d.line@)
}

/// The line diff that the `diff` crate computes of two texts.
pub uninterp spec fn line_diff(left: Seq<char>, right: Seq<char>) -> Seq<(DiffSide, Seq<char>)>;

/// Calls `diff::lines`, which compares the two texts line by line (a longest common
/// subsequence of lines) and lists each line as only left, both, or only right. The contract
/// names the result `line_diff` of the two texts; for a line in both, the left one is kept.
/// Of two equal texts every line is listed as in both: the crate's diff then takes all lines
/// as leading equal lines.
#[verifier::external_body]
fn diff_lines(left: &str, right: &str) -> (r: Vec<DiffLine>)
    ensures
        r@.map_values(|d: DiffLine| diff_line_view(d)) == line_diff(left@, right@),
        left@ == right@ ==> forall|i: int| 0 <= i < r@.len() ==> (#[trigger] r@[i]).side == DiffSide::Both,
{
    diff::lines(left, right).into_iter().map(|d| match d {
        diff::Result::Left(l) => DiffLine { side: DiffSide::Left, line: l.to_string() },
        diff::Result::Both(l, _) => DiffLine { side: DiffSide::Both, line: l.to_string() },
        diff::Result::Right(r) => DiffLine { side: DiffSide::Right, line: r.to_string() },
    }).collect()
}

#[derive(Debug, Clone, Copy, PartialEq, Eq, Structural)]
pub enum JsonDiffMode {
    /// Every line, the common ones too.
    All,
    /// Only the lines that differ.
    DiffOnly,
}

/// The diff of two JSON documents, given as their pretty-printed texts.
#[derive(Debug, Clone)]
pub struct JsonDiff {
    pub left: String,
    pub right: String,
    /// Written before every line.
    pub padding: String,
    pub mode: JsonDiffMode,
}

/// One line of the printed diff: `-` for a left line, `+` for a right line, a space for a
/// common line, which `DiffOnly` leaves out.
pub open spec fn diff_line_text(d: (DiffSide, Seq<char>), padding: Seq<char>, mode: JsonDiffMode) -> Seq<char> {
    match d.0 {
        DiffSide::Left => padding + "-"@ + d.1 + "\n"@,
        DiffSide::Both => if mode == JsonDiffMode::All {
            padding + " "@ + d.1 + "\n"@
        } else {
            Seq::empty()
        },
        DiffSide::Right => padding + "+"@ + d.1 + "\n"@,
    }
}

pub open spec fn diff_text(lines: Seq<(DiffSide, Seq<char>)>, padding: Seq<char>, mode: JsonDiffMode) -> Seq<char>
    decreases lines.len(),
{
    if lines.len() == 0 {
        Seq::empty()
    } else {
        diff_text(lines.drop_last(), padding, mode) + diff_line_text(lines.last(), padding, mode)
    }
}

/// Lines that are all common print as nothing when only differences are asked for.
proof fn lemma_common_lines_hidden(lines: Seq<(DiffSide, Seq<char>)>, padding: Seq<char>)
    requires
        forall|i: int| 0 <= i < lines.len() ==> (#[trigger] lines[i]).0 == DiffSide::Both,
    ensures
        diff_text(lines, padding, JsonDiffMode::DiffOnly).len() == 0,
    decreases lines.len(),
{
    if lines.len() > 0 {
        let rest = lines.drop_last();
        assert forall|i: int| 0 <= i < rest.len() implies (#[trigger] rest[i]).0 == DiffSide::Both by {
            assert(rest[i] == lines[i]);
        }
        lemma_common_lines_hidden(rest, padding);
        assert(lines.last() == lines[lines.len() - 1]);
    }
}

/// Prints the lines of a diff, each behind the padding.
pub fn format_diff(lines: &Vec<DiffLine>, padding: &String, mode: JsonDiffMode) -> (r: String)
    ensures
        r@ == diff_text(lines@.map_values(|d: DiffLine| diff_line_view(d)), padding@, mode),
{
    let ghost ls = lines@.map_values(|d: DiffLine| diff_line_view(d));
    let mut out = String::new();
    let mut i: usize = 0;
    while i < lines.len()
        invariant
            i <= lines@.len(),
            ls == lines@.map_values(|d: DiffLine| diff_line_view(d)),
            out@ == diff_text(ls.take(i as int), padding@, mode),
        decreases lines@.len() - i,
    {
        let ghost before = out@;
        let d = &lines[i];
        match d.side {
            DiffSide::Left => {
                out.append(padding.as_str());
                out.append("-");
                out.append(d.line.as_str());
                out.append("\n");
            },
            DiffSide::Both => {
                if mode == JsonDiffMode::All {
                    out.append(padding.as_str());
                    out.append(" ");
                    out.append(d.line.as_str());
                    out.append("\n");
                }
            },
            DiffSide::Right => {
                out.append(padding.as_str());
                out.append("+");
                out.append(d.line.as_str());
                out.append("\n");
            },
        }
        proof {
            let s = ls.take(i + 1);
            assert(s.drop_last() =~= ls.take(i as int));
            assert(s.last() == diff_line_view(lines@[i as int]));
            assert(out@ =~= before + diff_line_text(s.last(), padding@, mode));
        }
        i = i + 1;
    }
    proof {
        assert(ls.take(i as int) =~= ls);
    }
    out
}

/// `serde_json::Value`, declared so that JSON documents can be handed in; nothing inside it
/// is seen.
#[verifier::external_type_specification]
#[verifier::external_body]
pub struct ExJsonValue(serde_json::Value);

/// The pretty-printed text of a JSON document.
pub uninterp spec fn json_pretty(value: serde_json::Value) -> Seq<char>;

/// The alternate (`{:#}`) form of `serde_json::Value`'s `Display`: the document pretty-printed,
/// a text that depends on the document alone, named `json_pretty`.
#[verifier::external_body]
fn pretty_json(value: &serde_json::Value) -> (r: String)
    ensures
        r@ == json_pretty(*value),
{
    format!("{:#}", value)
}

impl JsonDiff {
    /// The diff of the documents `left` and `right`, compared in their pretty-printed form,
    /// with every line and no padding.
    pub fn new(left: &serde_json::Value, right: &serde_json::Value) -> (r: Self)
        ensures
            r.left@ == json_pretty(*left),
            r.right@ == json_pretty(*right),
            r.padding@ == Seq::<char>::empty(),
            r.mode == JsonDiffMode::All,
    {
        let left_text = pretty_json(left);
        let right_text = pretty_json(right);
        Self::from_texts(&left_text, &right_text)
    }

    /// The diff of the pretty-printed texts `left` and `right`, with every line and no padding.
    pub fn from_texts(left: &String, right: &String) -> (r: Self)
        ensures
            r.left@ == left@,
            r.right@ == right@,
            r.padding@ == Seq::<char>::empty(),
            r.mode == JsonDiffMode::All,
    {
        JsonDiff { left: left.clone(), right: right.clone(), padding: String::new(), mode: JsonDiffMode::All }
    }

    /// The printed diff: one line per line of the two documents, as `mode` asks. A document
    /// compared with itself shows no line when only differences are asked for.
    pub fn to_text(&self) -> (r: String)
        ensures
            r@ == diff_text(line_diff(self.left@, self.right@), self.padding@, self.mode),
            self.left@ == self.right@ && self.mode == JsonDiffMode::DiffOnly ==> r@.len() == 0,
    {
        let lines = diff_lines(self.left.as_str(), self.right.as_str());
        proof {
            if self.left@ == self.right@ && self.mode == JsonDiffMode::DiffOnly {
                let ls = lines@.map_values(|d: DiffLine| diff_line_view(d));
                assert forall|i: int| 0 <= i < ls.len() implies (#[trigger] ls[i]).0 == DiffSide::Both by {
                    assert(lines@[i].side == DiffSide::Both);
                }
                lemma_common_lines_hidden(ls, self.padding@);
            }
        }
        format_diff(&lines, &self.padding, self.mode)
    }
}

} // verus!
