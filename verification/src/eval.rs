use vstd::prelude::*;
use vstd::string::StringExecFns;
use crate::errors::Error;

verus! {

/// The four candidate labels of a multiple-choice record.
#[derive(Clone, Copy, Debug, PartialEq, Eq, Structural)]
pub enum Label {
    A,
    B,
    C,
    D,
}

/// The text of a label.
pub open spec fn label_text(l: Label) -> Seq<char> {
    match l {
        Label::A => "A"@,
        Label::B => "B"@,
        Label::C => "C"@,
        Label::D => "D"@,
    }
}

impl Label {
    /// The label as text, for reporting.
    pub fn as_str(&self) -> (r: &'static str)
        ensures
            r@ == label_text(*self),
    {
        match self {
            Label::A => "A",
            Label::B => "B",
            Label::C => "C",
            Label::D => "D",
        }
    }
}

/// The label the harness selects from the four candidate scores: the
/// strictly greatest wins, and on ties the earlier label in the fixed
/// preference order A, B, C, D.
pub open spec fn label_pick(a: int, b: int, c: int, d: int) -> Label {
    if a >= b && a >= c && a >= d {
        Label::A
    } else if b >= c && b >= d {
        Label::B
    } else if c >= d {
        Label::C
    } else {
        Label::D
    }
}

/// Picks the winning label of four candidate scores.
pub fn pick_label(a: i64, b: i64, c: i64, d: i64) -> (r: Label)
    ensures
        r == label_pick(a as int, b as int, c as int, d as int),
{
    if a >= b && a >= c && a >= d {
        Label::A
    } else if b >= c && b >= d {
        Label::B
    } else if c >= d {
        Label::C
    } else {
        Label::D
    }
}

/// Tie preference: four equal scores select the first label, A.
pub proof fn lemma_tie_prefers_first(x: int)
    ensures
        label_pick(x, x, x, x) == Label::A,
{
}

/// The winning label's score is the maximum of the four.
pub proof fn lemma_pick_is_max(a: int, b: int, c: int, d: int)
    ensures
        match label_pick(a, b, c, d) {
            Label::A => a >= b && a >= c && a >= d,
            Label::B => b >= a && b >= c && b >= d,
            Label::C => c >= a && c >= b && c >= d,
            Label::D => d >= a && d >= b && d >= c,
        },
{
}

/// One well-formed evaluation record: the question, the four candidate
/// answers, and the ground-truth label.
#[derive(Debug)]
pub struct Record {
    pub question: String,
    pub answer_a: String,
    pub answer_b: String,
    pub answer_c: String,
    pub answer_d: String,
    pub truth: String,
}

/// How many fields a row must hold to be a record: the question, four
/// answers, and the ground-truth label.
pub const RECORD_FIELDS: usize = 6;

/// Whether a parsed row carries a whole record.
pub open spec fn row_valid(row: Seq<String>) -> bool {
    row.len() >= RECORD_FIELDS
}

/// The prompt an evaluation record is scored with: the question and the
/// four labelled candidates in one fixed template, ending just before the
/// answer.
pub open spec fn prompt_text(
    theme: Seq<char>,
    question: Seq<char>,
    a: Seq<char>,
    b: Seq<char>,
    c: Seq<char>,
    d: Seq<char>,
) -> Seq<char> {
    "The following are multiple choice questions (with answers) about "@ + theme + ".\n"@
        + question + "\nA. "@ + a + "\nB. "@ + b + "\nC. "@ + c + "\nD. "@ + d + "\nAnswer:\n"@
}

/// Renders the scoring prompt of one record.
pub fn build_prompt(
    theme: &str,
    question: &str,
    a: &str,
    b: &str,
    c: &str,
    d: &str,
) -> (r: String)
    ensures
        r@ == prompt_text(theme@, question@, a@, b@, c@, d@),
{
    let mut s: String = String::new();
    s.append("The following are multiple choice questions (with answers) about ");
    s.append(theme);
    s.append(".\n");
    s.append(question);
    s.append("\nA. ");
    s.append(a);
    s.append("\nB. ");
    s.append(b);
    s.append("\nC. ");
    s.append(c);
    s.append("\nD. ");
    s.append(d);
    s.append("\nAnswer:\n");
    proof {
        assert(s@ =~= prompt_text(theme@, question@, a@, b@, c@, d@));
    }
    s
}

/// What the CSV reader makes of a text: one entry per row, a readable
/// row's fields or nothing for a row the reader refused. Parsing is a
/// function of the bytes alone; this names its result.
pub uninterp spec fn csv_rows(data: Seq<u8>) -> Seq<Option<Seq<Seq<char>>>>;

/// A parsed row's fields as plain character sequences.
pub open spec fn row_view(fields: Seq<String>) -> Seq<Seq<char>> {
    fields.map_values(|s: String| s@)
}

/// A whole parsed result in the same shape as `csv_rows`.
pub open spec fn rows_view(rows: Seq<Result<Vec<String>, Error>>) -> Seq<
    Option<Seq<Seq<char>>>,
> {
    rows.map_values(
        |row: Result<Vec<String>, Error>|
            match row {
                Result::Ok(fields) => Option::Some(row_view(fields@)),
                Result::Err(_) => Option::None,
            },
    )
}

/// Whether one row of `csv_rows` carries a whole record.
pub open spec fn whole_row(row: Option<Seq<Seq<char>>>) -> bool {
    match row {
        Option::Some(fields) => fields.len() >= RECORD_FIELDS,
        Option::None => false,
    }
}

/// The whole rows among the first `k`, in order: what the harness turns
/// into records.
pub open spec fn kept_rows(rows: Seq<Option<Seq<Seq<char>>>>, k: int) -> Seq<Seq<Seq<char>>>
    decreases k,
{
    if k <= 0 {
        Seq::empty()
    } else if whole_row(rows[k - 1]) {
        kept_rows(rows, k - 1).push(rows[k - 1].unwrap())
    } else {
        kept_rows(rows, k - 1)
    }
}

/// There are never more whole rows than rows.
proof fn lemma_kept_rows_len(rows: Seq<Option<Seq<Seq<char>>>>, k: int)
    requires
        0 <= k,
    ensures
        kept_rows(rows, k).len() <= k,
    decreases k,
{
    if k > 0 {
        lemma_kept_rows_len(rows, k - 1);
    }
}

/// Whether a record holds exactly the first six fields of a row.
pub open spec fn record_matches(rec: Record, fields: Seq<Seq<char>>) -> bool {
    &&& rec.question@ == fields[0]
    &&& rec.answer_a@ == fields[1]
    &&& rec.answer_b@ == fields[2]
    &&& rec.answer_c@ == fields[3]
    &&& rec.answer_d@ == fields[4]
    &&& rec.truth@ == fields[5]
}

/// Relies on csv::Reader over an in-memory text, headers off: each item is
/// one row's fields in order, or the row's read error. The result is named
/// `csv_rows` of the bytes; nothing more is assumed of it.
#[verifier::external_body]
fn parse_rows(data: &[u8]) -> (r: Vec<Result<Vec<String>, Error>>)
    ensures
        rows_view(r@) == csv_rows(data@),
{
    let mut reader = csv::ReaderBuilder::new().has_headers(false).from_reader(data);
    reader
        .records()
        .map(|row| match row {
            Ok(rec) => Ok(rec.iter().map(|f| f.to_string()).collect()),
            Err(_) => Err(Error::MalformedRecord),
        })
        .collect()
}

/// A tally after one more event: it grows by one until it saturates.
pub open spec fn counted(n: usize) -> usize {
    if n < usize::MAX {
        (n + 1) as usize
    } else {
        n
    }
}

/// A tally after `k` more events: it grows by `k` until it saturates.
pub open spec fn counted_many(n: usize, k: int) -> usize {
    if n + k <= usize::MAX {
        (n + k) as usize
    } else {
        usize::MAX
    }
}

/// Counts one more event into a tally, saturating at the top.
fn count_one(n: usize) -> (r: usize)
    ensures
        r == counted(n),
{
    if n < usize::MAX {
        n + 1
    } else {
        n
    }
}

/// The suffix a question file's stem carries.
pub open spec fn test_suffix() -> Seq<char> {
    seq!['_', 't', 'e', 's', 't']
}

/// A file stem with its trailing suffix stripped, if it carries one.
pub open spec fn stem_base(stem: Seq<char>) -> Seq<char> {
    if stem.len() >= 5 && stem.subrange(stem.len() - 5, stem.len() as int) == test_suffix() {
        stem.subrange(0, stem.len() - 5)
    } else {
        stem
    }
}

/// A character sequence with every underscore turned into a space.
pub open spec fn spaced(s: Seq<char>) -> Seq<char> {
    s.map_values(|c: char| if c == '_' { ' ' } else { c })
}

/// The reporting theme a question file's stem names: the stem without its
/// trailing suffix, underscores as spaces.
pub fn theme_chars(stem: &Vec<char>) -> (r: Vec<char>)
    ensures
        r@ == spaced(stem_base(stem@)),
{
    let n: usize = stem.len();
    let has_suffix: bool = n >= 5 && stem[n - 5] == '_' && stem[n - 4] == 't' && stem[n - 3]
        == 'e' && stem[n - 2] == 's' && stem[n - 1] == 't';
    proof {
        if n >= 5 {
            let sub = stem@.subrange(n as int - 5, n as int);
            if has_suffix {
                assert(sub =~= test_suffix());
            } else {
                assert(sub != test_suffix()) by {
                    if sub == test_suffix() {
                        assert(sub[0] == '_' && sub[1] == 't' && sub[2] == 'e' && sub[3] == 's'
                            && sub[4] == 't');
                    }
                }
            }
        }
    }
    let base_len: usize = if has_suffix {
        n - 5
    } else {
        n
    };
    let mut out: Vec<char> = Vec::new();
    let mut i: usize = 0;
    while i < base_len
        invariant
            base_len <= n,
            n == stem@.len(),
            i <= base_len,
            out@.len() == i,
            forall|j: int|
                0 <= j < i ==> #[trigger] out@[j] == (if stem@[j] == '_' {
                    ' '
                } else {
                    stem@[j]
                }),
        decreases base_len - i,
    {
        let c: char = stem[i];
        out.push(if c == '_' {
            ' '
        } else {
            c
        });
        i = i + 1;
    }
    proof {
        assert(out@ =~= spaced(stem_base(stem@)));
    }
    out
}

/// The evaluation harness: the vocabulary ids of the four labels, and the
/// running tallies of scored and skipped records.
pub struct Harness {
    pub label_a: u32,
    pub label_b: u32,
    pub label_c: u32,
    pub label_d: u32,
    pub scored: usize,
    pub skipped: usize,
}

impl Harness {
    /// Builds a harness from the vocabulary lookups of the four labels.
    /// A missing label is a tokenizer/model mismatch: fatal
    /// `Configuration`, exactly when any lookup came back empty.
    pub fn new(a: Option<u32>, b: Option<u32>, c: Option<u32>, d: Option<u32>) -> (r: Result<
        Harness,
        Error,
    >)
        ensures
            (r matches Err(_)) <==> (a is None || b is None || c is None || d is None),
            match r {
                Result::Err(e) => e == Error::Configuration,
                Result::Ok(h) => {
                    &&& Option::Some(h.label_a) == a
                    &&& Option::Some(h.label_b) == b
                    &&& Option::Some(h.label_c) == c
                    &&& Option::Some(h.label_d) == d
                    &&& h.scored == 0
                    &&& h.skipped == 0
                },
            },
    {
        match (a, b, c, d) {
            (Option::Some(a), Option::Some(b), Option::Some(c), Option::Some(d)) => Ok(
                Harness { label_a: a, label_b: b, label_c: c, label_d: d, scored: 0, skipped: 0 },
            ),
            _ => Err(Error::Configuration),
        }
    }

    /// Takes one parsed row. A row that could not be read, or that holds
    /// fewer fields than a record needs, is skipped and counted (the count
    /// saturates), never fatal; a whole row becomes a record, fields in
    /// order.
    pub fn take_row(&mut self, row: Result<Vec<String>, Error>) -> (r: Option<Record>)
        ensures
            final(self).label_a == old(self).label_a,
            final(self).label_b == old(self).label_b,
            final(self).label_c == old(self).label_c,
            final(self).label_d == old(self).label_d,
            final(self).scored == old(self).scored,
            match row {
                Result::Err(_) => r is None && final(self).skipped == counted(old(self).skipped),
                Result::Ok(fields) => {
                    if row_valid(fields@) {
                        &&& final(self).skipped == old(self).skipped
                        &&& match r {
                            Option::Some(rec) => {
                                &&& rec.question@ == fields@[0]@
                                &&& rec.answer_a@ == fields@[1]@
                                &&& rec.answer_b@ == fields@[2]@
                                &&& rec.answer_c@ == fields@[3]@
                                &&& rec.answer_d@ == fields@[4]@
                                &&& rec.truth@ == fields@[5]@
                            },
                            Option::None => false,
                        }
                    } else {
                        r is None && final(self).skipped == counted(old(self).skipped)
                    }
                },
            },
    {
        match row {
            Result::Err(_) => {
                self.skipped = count_one(self.skipped);
                None
            },
            Result::Ok(fields) => {
                if fields.len() < RECORD_FIELDS {
                    self.skipped = count_one(self.skipped);
                    None
                } else {
                    Some(
                        Record {
                            question: fields[0].clone(),
                            answer_a: fields[1].clone(),
                            answer_b: fields[2].clone(),
                            answer_c: fields[3].clone(),
                            answer_d: fields[4].clone(),
                            truth: fields[5].clone(),
                        },
                    )
                }
            },
        }
    }

    /// Reads the four label scores out of a full score vector. A label id
    /// beyond the vocabulary is a tokenizer/model mismatch: fatal
    /// `Configuration`, exactly when any of the four ids is out of range.
    pub fn label_scores(&self, scores: &Vec<i64>) -> (r: Result<(i64, i64, i64, i64), Error>)
        ensures
            (r matches Err(_)) <==> !(self.label_a < scores@.len() && self.label_b < scores@.len()
                && self.label_c < scores@.len() && self.label_d < scores@.len()),
            match r {
                Result::Err(e) => e == Error::Configuration,
                Result::Ok(t) => t == (
                    scores@[self.label_a as int],
                    scores@[self.label_b as int],
                    scores@[self.label_c as int],
                    scores@[self.label_d as int],
                ),
            },
    {
        let len: usize = scores.len();
        if !((self.label_a as usize) < len && (self.label_b as usize) < len && (self.label_c
            as usize) < len && (self.label_d as usize) < len) {
            return Err(Error::Configuration);
        }
        Ok(
            (
                scores[self.label_a as usize],
                scores[self.label_b as usize],
                scores[self.label_c as usize],
                scores[self.label_d as usize],
            ),
        )
    }

    /// Reads one CSV text and takes every row of it. The rows are
    /// `csv_rows` of the bytes: every whole row comes back as a record,
    /// fields in order, and the skip tally grows by exactly the number of
    /// unreadable or short rows (saturating). The per-row behaviour is
    /// `take_row`'s contract.
    pub fn take_csv(&mut self, data: &[u8]) -> (r: Vec<Record>)
        ensures
            final(self).label_a == old(self).label_a,
            final(self).label_b == old(self).label_b,
            final(self).label_c == old(self).label_c,
            final(self).label_d == old(self).label_d,
            final(self).scored == old(self).scored,
            r@.len() == kept_rows(csv_rows(data@), csv_rows(data@).len() as int).len(),
            forall|j: int|
                0 <= j < r@.len() ==> record_matches(
                    #[trigger] r@[j],
                    kept_rows(csv_rows(data@), csv_rows(data@).len() as int)[j],
                ),
            final(self).skipped == counted_many(
                old(self).skipped,
                csv_rows(data@).len() - kept_rows(csv_rows(data@), csv_rows(data@).len() as int).len(),
            ),
    {
        let mut rows: Vec<Result<Vec<String>, Error>> = parse_rows(data);
        let ghost all: Seq<Result<Vec<String>, Error>> = rows@;
        let ghost abs: Seq<Option<Seq<Seq<char>>>> = csv_rows(data@);
        let n: usize = rows.len();
        let mut out: Vec<Record> = Vec::new();
        let mut i: usize = 0;
        proof {
            assert(abs.len() == n);
        }
        while i < n
            invariant
                self.label_a == old(self).label_a,
                self.label_b == old(self).label_b,
                self.label_c == old(self).label_c,
                self.label_d == old(self).label_d,
                self.scored == old(self).scored,
                rows_view(all) == abs,
                abs.len() == n,
                all.len() == n,
                i <= n,
                rows@ == all.subrange(i as int, n as int),
                out@.len() == kept_rows(abs, i as int).len(),
                forall|j: int|
                    0 <= j < out@.len() ==> record_matches(
                        #[trigger] out@[j],
                        kept_rows(abs, i as int)[j],
                    ),
                self.skipped == counted_many(
                    old(self).skipped,
                    i - kept_rows(abs, i as int).len(),
                ),
            decreases n - i,
        {
            proof {
                lemma_kept_rows_len(abs, i as int);
                assert(rows@[0] == all[i as int]);
            }
            let row: Result<Vec<String>, Error> = rows.remove(0);
            proof {
                assert(rows@ =~= all.subrange(i as int + 1, n as int));
                assert(abs[i as int] == rows_view(all)[i as int]);
            }
            match self.take_row(row) {
                Option::Some(rec) => {
                    proof {
                        assert(whole_row(abs[i as int]));
                        assert(kept_rows(abs, i as int + 1) == kept_rows(abs, i as int).push(
                            abs[i as int].unwrap(),
                        ));
                    }
                    out.push(rec);
                },
                Option::None => {
                    proof {
                        assert(!whole_row(abs[i as int]));
                        assert(kept_rows(abs, i as int + 1) == kept_rows(abs, i as int));
                    }
                },
            }
            i = i + 1;
        }
        out
    }

    /// Scores one record's forward pass: picks the winning label out of
    /// the four label positions and counts the record as scored (the
    /// count saturates). Fatal `Configuration` exactly when a label id is
    /// outside the vocabulary.
    pub fn classify(&mut self, scores: &Vec<i64>) -> (r: Result<Label, Error>)
        ensures
            final(self).label_a == old(self).label_a,
            final(self).label_b == old(self).label_b,
            final(self).label_c == old(self).label_c,
            final(self).label_d == old(self).label_d,
            final(self).skipped == old(self).skipped,
            (r matches Err(_)) <==> !(old(self).label_a < scores@.len() && old(self).label_b
                < scores@.len() && old(self).label_c < scores@.len() && old(self).label_d
                < scores@.len()),
            match r {
                Result::Err(e) => e == Error::Configuration && final(self).scored == old(
                    self,
                ).scored,
                Result::Ok(l) => {
                    &&& final(self).scored == counted(old(self).scored)
                    &&& l == label_pick(
                        scores@[old(self).label_a as int] as int,
                        scores@[old(self).label_b as int] as int,
                        scores@[old(self).label_c as int] as int,
                        scores@[old(self).label_d as int] as int,
                    )
                },
            },
    {
        match self.label_scores(scores) {
            Result::Err(e) => Err(e),
            Result::Ok((a, b, c, d)) => {
                self.scored = count_one(self.scored);
                Ok(pick_label(a, b, c, d))
            },
        }
    }
}

} // verus!
