//! The document-analysis pipeline: its components, the text analysis it
//! rests on, and its two ordered systems.
//!
//! Ingestion moves every pending document with raw content to
//! `Analyzing`; analysis computes a word count and a keyword-entity list
//! in first-seen order, sets the fixed sentiment score, and moves the
//! document to `Completed`. A document whose input data is missing is
//! marked `Failed` instead of stalling, and one entity's failure never
//! blocks the others.

use vstd::prelude::*;

use crate::kernel::{
    in_entity_prefix, rec_has, rec_matches, ComponentKind, ComponentValue, Entity, EntityRecord,
    RecordV, World,
};
use crate::scheduler::{schedule_ready, run_systems_spec, Schedule, SystemId};

verus! {

/// The fixed placeholder sentiment score, in hundredths.
pub const SENTIMENT_SCORE_CENTI: u32 = 85;

/// The raw text payload of a document. Its view is the text itself.
#[derive(Debug, Clone, PartialEq)]
pub struct RawContent(pub String);

impl View for RawContent {
    type V = Seq<char>;

    open spec fn view(&self) -> Seq<char> {
        self.0@
    }
}

/// Descriptive metadata of a document.
#[derive(Debug, Clone, PartialEq)]
pub struct DocumentMetadata {
    pub id: String,
    pub filename: String,
    pub file_type: String,
}

/// Mathematical image of [`DocumentMetadata`].
#[verifier::ext_equal]
pub struct DocumentMetadataV {
    pub id: Seq<char>,
    pub filename: Seq<char>,
    pub file_type: Seq<char>,
}

impl View for DocumentMetadata {
    type V = DocumentMetadataV;

    open spec fn view(&self) -> DocumentMetadataV {
        DocumentMetadataV { id: self.id@, filename: self.filename@, file_type: self.file_type@ }
    }
}

/// Processing state of a document. Transitions only move forward:
/// Pending -> Analyzing -> Completed or Failed.
#[derive(Clone, Copy, PartialEq, Eq, Structural, Debug)]
pub enum ProcessingStatus {
    Pending,
    Analyzing,
    Completed,
    Failed,
}

/// Output of the analysis pass. The sentiment score is a fixed-point
/// value in hundredths (85 stands for 0.85).
#[derive(Debug, Clone, PartialEq)]
pub struct AnalysisResult {
    pub word_count: usize,
    pub key_entities: Vec<String>,
    pub sentiment_score: u32,
    pub summary: String,
}

/// Mathematical image of [`AnalysisResult`].
#[verifier::ext_equal]
pub struct AnalysisResultV {
    pub word_count: int,
    pub key_entities: Seq<Seq<char>>,
    pub sentiment_score: int,
    pub summary: Seq<char>,
}

impl View for AnalysisResult {
    type V = AnalysisResultV;

    open spec fn view(&self) -> AnalysisResultV {
        AnalysisResultV {
            word_count: self.word_count as int,
            key_entities: Seq::new(self.key_entities@.len(), |i: int| self.key_entities@[i]@),
            sentiment_score: self.sentiment_score as int,
            summary: self.summary@,
        }
    }
}

/// The separators that delimit words: the characters with the Unicode
/// White_Space property, as whitespace splitting and trimming understand
/// them.
pub open spec fn is_space_char(c: char) -> bool {
    ||| c == '\u{0009}'
    ||| c == '\u{000A}'
    ||| c == '\u{000B}'
    ||| c == '\u{000C}'
    ||| c == '\u{000D}'
    ||| c == '\u{0020}'
    ||| c == '\u{0085}'
    ||| c == '\u{00A0}'
    ||| c == '\u{1680}'
    ||| c == '\u{2000}'
    ||| c == '\u{2001}'
    ||| c == '\u{2002}'
    ||| c == '\u{2003}'
    ||| c == '\u{2004}'
    ||| c == '\u{2005}'
    ||| c == '\u{2006}'
    ||| c == '\u{2007}'
    ||| c == '\u{2008}'
    ||| c == '\u{2009}'
    ||| c == '\u{200A}'
    ||| c == '\u{2028}'
    ||| c == '\u{2029}'
    ||| c == '\u{202F}'
    ||| c == '\u{205F}'
    ||| c == '\u{3000}'
}

/// Position `i` begins a word: a non-space whose predecessor, if any, is
/// a space.
pub open spec fn is_word_start(s: Seq<char>, i: int) -> bool {
    &&& 0 <= i < s.len()
    &&& !is_space_char(s[i])
    &&& (i == 0 || is_space_char(s[i - 1]))
}

/// How many word starts lie strictly below position `n`.
pub open spec fn word_starts_below(s: Seq<char>, n: int) -> int
    decreases n,
{
    if n <= 0 {
        0
    } else {
        word_starts_below(s, n - 1) + if is_word_start(s, n - 1) {
            1int
        } else {
            0int
        }
    }
}

/// The number of whitespace-delimited tokens, consecutive separators
/// collapsed.
pub open spec fn word_count_spec(s: Seq<char>) -> int {
    word_starts_below(s, s.len() as int)
}

/// The pattern occurs in the text starting at position `i`.
pub open spec fn matches_at(text: Seq<char>, pat: Seq<char>, i: int) -> bool {
    &&& 0 <= i
    &&& i + pat.len() <= text.len()
    &&& forall|k: int| 0 <= k < pat.len() ==> text[i + k] == pat[k]
}

/// The pattern occurs somewhere in the text.
pub open spec fn contains_substring(text: Seq<char>, pat: Seq<char>) -> bool {
    exists|i: int| matches_at(text, pat, i)
}

/// The position of the pattern's first occurrence at or after `i`, or -1
/// when it occurs nowhere at or after `i`.
pub open spec fn first_match_from(text: Seq<char>, pat: Seq<char>, i: int) -> int
    decreases text.len() - i,
{
    if i < 0 || i + pat.len() > text.len() {
        -1
    } else if matches_at(text, pat, i) {
        i
    } else {
        first_match_from(text, pat, i + 1)
    }
}

/// The position of the pattern's first occurrence, or -1 when it does
/// not occur at all.
pub open spec fn first_match(text: Seq<char>, pat: Seq<char>) -> int {
    first_match_from(text, pat, 0)
}

proof fn lemma_first_match_from(text: Seq<char>, pat: Seq<char>, i: int)
    requires
        0 <= i,
    ensures
        first_match_from(text, pat, i) >= 0 ==> i <= first_match_from(text, pat, i)
            && matches_at(text, pat, first_match_from(text, pat, i)),
        first_match_from(text, pat, i) < 0 ==> forall|p: int|
            i <= p ==> !matches_at(text, pat, p),
        forall|p: int| i <= p < first_match_from(text, pat, i) ==> !matches_at(text, pat, p),
    decreases text.len() - i,
{
    if i + pat.len() > text.len() {
    } else if matches_at(text, pat, i) {
    } else {
        lemma_first_match_from(text, pat, i + 1);
    }
}

/// `first_match` is non-negative exactly when the pattern occurs, and
/// then names its earliest occurrence.
pub proof fn lemma_first_match(text: Seq<char>, pat: Seq<char>)
    ensures
        first_match(text, pat) >= 0 <==> contains_substring(text, pat),
        first_match(text, pat) >= 0 ==> matches_at(text, pat, first_match(text, pat)),
        forall|p: int| 0 <= p < first_match(text, pat) ==> !matches_at(text, pat, p),
{
    lemma_first_match_from(text, pat, 0);
}

/// A position that matches, with no earlier match, is the first match.
proof fn lemma_first_match_unique(text: Seq<char>, pat: Seq<char>, i: int)
    requires
        0 <= i,
        matches_at(text, pat, i),
        forall|p: int| 0 <= p < i ==> !matches_at(text, pat, p),
    ensures
        first_match(text, pat) == i,
{
    lemma_first_match(text, pat);
}

/// Whether a character is whitespace in the sense of [`is_space_char`].
pub fn is_space(c: char) -> (b: bool)
    ensures
        b == is_space_char(c),
{
    match c {
        '\u{0009}' | '\u{000A}' | '\u{000B}' | '\u{000C}' | '\u{000D}' | '\u{0020}'
        | '\u{0085}' | '\u{00A0}' | '\u{1680}' | '\u{2000}' | '\u{2001}' | '\u{2002}'
        | '\u{2003}' | '\u{2004}' | '\u{2005}' | '\u{2006}' | '\u{2007}' | '\u{2008}'
        | '\u{2009}' | '\u{200A}' | '\u{2028}' | '\u{2029}' | '\u{202F}' | '\u{205F}'
        | '\u{3000}' => true,
        _ => false,
    }
}

/// Count the whitespace-delimited words of a text.
pub fn word_count(s: &str) -> (n: usize)
    ensures
        n == word_count_spec(s@),
{
    let len = s.unicode_len();
    let mut n: usize = 0;
    let mut i: usize = 0;
    let mut prev_space = true;
    while i < len
        invariant
            len == s@.len(),
            0 <= i <= len,
            n == word_starts_below(s@, i as int),
            n <= i,
            prev_space == (i == 0 || is_space_char(s@[i - 1])),
        decreases len - i,
    {
        let c = s.get_char(i);
        if !is_space(c) && prev_space {
            n += 1;
        }
        prev_space = is_space(c);
        i += 1;
    }
    n
}

fn match_at(text: &str, pat: &str, i: usize) -> (b: bool)
    requires
        i + pat@.len() <= text@.len(),
    ensures
        b == matches_at(text@, pat@, i as int),
{
    let n = text.unicode_len();
    let m = pat.unicode_len();
    let mut k: usize = 0;
    while k < m
        invariant
            n == text@.len(),
            m == pat@.len(),
            i + m <= n,
            0 <= k <= m,
            forall|p: int| 0 <= p < k ==> text@[i + p] == pat@[p],
        decreases m - k,
    {
        if text.get_char(i + k) != pat.get_char(k) {
            return false;
        }
        k += 1;
    }
    true
}

/// Whether the text contains the pattern as a substring.
pub fn contains_substr(text: &str, pat: &str) -> (b: bool)
    ensures
        b == contains_substring(text@, pat@),
{
    let n = text.unicode_len();
    let m = pat.unicode_len();
    if m > n {
        proof {
            assert forall|i: int| !matches_at(text@, pat@, i) by {}
        }
        return false;
    }
    let mut i: usize = 0;
    while i <= n - m
        invariant
            n == text@.len(),
            m == pat@.len(),
            m <= n,
            0 <= i,
            forall|p: int| 0 <= p < i ==> !matches_at(text@, pat@, p),
        decreases n - i,
    {
        if match_at(text, pat, i) {
            return true;
        }
        i += 1;
    }
    proof {
        assert forall|p: int| !matches_at(text@, pat@, p) by {
            if 0 <= p < i {
            } else {
            }
        }
    }
    false
}

/// The position of the pattern's first occurrence in the text, if any.
pub fn find_substr(text: &str, pat: &str) -> (r: Option<usize>)
    ensures
        r is Some <==> contains_substring(text@, pat@),
        r is Some ==> r->0 as int == first_match(text@, pat@),
{
    let n = text.unicode_len();
    let m = pat.unicode_len();
    if m > n {
        proof {
            assert forall|i: int| !matches_at(text@, pat@, i) by {}
            lemma_first_match(text@, pat@);
        }
        return None;
    }
    let mut i: usize = 0;
    while i <= n - m
        invariant
            n == text@.len(),
            m == pat@.len(),
            m <= n,
            0 <= i,
            forall|p: int| 0 <= p < i ==> !matches_at(text@, pat@, p),
        decreases n - i,
    {
        if match_at(text, pat, i) {
            proof {
                lemma_first_match_unique(text@, pat@, i as int);
            }
            return Some(i);
        }
        i += 1;
    }
    proof {
        assert forall|p: int| !matches_at(text@, pat@, p) by {
            if 0 <= p < i {
            } else {
            }
        }
        lemma_first_match(text@, pat@);
    }
    None
}

/// The keyword whose presence marks the "Strata Corp" entity.
pub open spec fn kw_strata() -> Seq<char> {
    "Strata"@
}

/// The entity recorded when [`kw_strata`] occurs.
pub open spec fn entity_strata() -> Seq<char> {
    "Strata Corp"@
}

/// The keyword whose presence marks the "Financials" entity.
pub open spec fn kw_budget() -> Seq<char> {
    "Budget"@
}

/// The entity recorded when [`kw_budget`] occurs.
pub open spec fn entity_budget() -> Seq<char> {
    "Financials"@
}

/// The keyword entities extracted from a content: each keyword of the
/// fixed set contributes its entity exactly once if it occurs at all, in
/// first-seen order — the entity whose keyword first occurs earlier in
/// the content comes first.
pub open spec fn key_entities_spec(content: Seq<char>) -> Seq<Seq<char>> {
    let s = first_match(content, kw_strata());
    let b = first_match(content, kw_budget());
    if s >= 0 && b >= 0 {
        if b < s {
            seq![entity_budget(), entity_strata()]
        } else {
            seq![entity_strata(), entity_budget()]
        }
    } else if s >= 0 {
        seq![entity_strata()]
    } else if b >= 0 {
        seq![entity_budget()]
    } else {
        Seq::empty()
    }
}

/// What analysis makes of a content, given the previous result: the word
/// count, the keyword entities appended to the previous list, the fixed
/// sentiment, and the summary untouched.
pub open spec fn analyzed_result(content: Seq<char>, prev: AnalysisResultV) -> AnalysisResultV {
    AnalysisResultV {
        word_count: word_count_spec(content),
        key_entities: prev.key_entities + key_entities_spec(content),
        sentiment_score: SENTIMENT_SCORE_CENTI as int,
        summary: prev.summary,
    }
}

/// Ingestion on one record: a pending document with raw content moves to
/// `Analyzing`; a pending one whose raw content is missing is marked
/// `Failed` instead of stalling; every other record is untouched.
pub open spec fn ingest_rec(r: RecordV) -> RecordV {
    if r.status == Some(ProcessingStatus::Pending) {
        if r.raw_content is Some {
            RecordV { status: Some(ProcessingStatus::Analyzing), ..r }
        } else {
            RecordV { status: Some(ProcessingStatus::Failed), ..r }
        }
    } else {
        r
    }
}

/// The store after the ingestion system's pass.
pub open spec fn ingestion_sys_spec(recs: Seq<RecordV>) -> Seq<RecordV> {
    Seq::new(recs.len(), |i: int| ingest_rec(recs[i]))
}

/// Analysis on one record: a document under analysis gains its analysis
/// result and moves to `Completed`; one whose raw content or analysis
/// slot is missing is marked `Failed` instead of stalling; every other
/// record is untouched.
pub open spec fn analyze_rec(r: RecordV) -> RecordV {
    if r.status == Some(ProcessingStatus::Analyzing) {
        if r.raw_content is Some && r.analysis is Some {
            RecordV {
                analysis: Some(analyzed_result(r.raw_content->0, r.analysis->0)),
                status: Some(ProcessingStatus::Completed),
                ..r
            }
        } else {
            RecordV { status: Some(ProcessingStatus::Failed), ..r }
        }
    } else {
        r
    }
}

/// The store after the analysis system's pass.
pub open spec fn analysis_sys_spec(recs: Seq<RecordV>) -> Seq<RecordV> {
    Seq::new(recs.len(), |i: int| analyze_rec(recs[i]))
}

fn clone_string_vec(v: &Vec<String>) -> (r: Vec<String>)
    ensures
        r@.len() == v@.len(),
        forall|i: int| 0 <= i < v@.len() ==> r@[i] == v@[i],
{
    let mut r: Vec<String> = Vec::new();
    let mut i: usize = 0;
    while i < v.len()
        invariant
            0 <= i <= v@.len(),
            r@.len() == i,
            forall|j: int| 0 <= j < i ==> r@[j] == v@[j],
        decreases v@.len() - i,
    {
        r.push(v[i].clone());
        i += 1;
    }
    r
}

/// Move every pending document that has raw content to `Analyzing`, and
/// mark every pending document whose raw content is missing `Failed`.
/// Nothing else in the store changes; one entity's failure never blocks
/// the others.
pub fn ingestion_system(world: &mut World)
    ensures
        final(world)@ == ingestion_sys_spec(old(world)@),
{
    let ghost orig = world@;
    let total = world.num_entities();
    let mut with_kinds: Vec<ComponentKind> = Vec::new();
    with_kinds.push(ComponentKind::ProcessingStatus);
    let without_kinds: Vec<ComponentKind> = Vec::new();
    let q = world.query(&with_kinds, &without_kinds);
    let qlen = q.len();
    let mut m: usize = 0;
    while m < qlen
        invariant
            qlen == q@.len(),
            0 <= m <= qlen,
            world@.len() == orig.len(),
            with_kinds@.len() == 1,
            with_kinds@[0] == ComponentKind::ProcessingStatus,
            forall|p: int|
                0 <= p < qlen ==> (#[trigger] q@[p]).0 < orig.len() && rec_matches(
                    orig[q@[p].0 as int],
                    with_kinds@,
                    without_kinds@,
                ),
            forall|i: int, j: int| 0 <= i < j < qlen ==> q@[i].0 < q@[j].0,
            forall|p: int|
                0 <= p < m ==> world@[(#[trigger] q@[p]).0 as int] == ingest_rec(
                    orig[q@[p].0 as int],
                ),
            forall|j: int|
                0 <= j < orig.len() && !in_entity_prefix(q@, m as int, j) ==> world@[j] == orig[j],
        decreases qlen - m,
    {
        let e = q[m];
        proof {
            assert(!in_entity_prefix(q@, m as int, e.0 as int));
            assert(world@[e.0 as int] == orig[e.0 as int]);
        }
        let pending = match world.record(e).status {
            Some(ProcessingStatus::Pending) => true,
            _ => false,
        };
        if pending {
            if world.record(e).raw_content.is_some() {
                world.set_component(e, ComponentValue::Status(ProcessingStatus::Analyzing));
            } else {
                world.set_component(e, ComponentValue::Status(ProcessingStatus::Failed));
            }
        }
        proof {
            assert(world@[e.0 as int] == ingest_rec(orig[e.0 as int]));
            assert forall|j: int|
                0 <= j < orig.len() && !in_entity_prefix(q@, m as int + 1, j) implies world@[j]
                == orig[j] by {
                assert(!in_entity_prefix(q@, m as int, j));
                assert(j != e.0 as int);
            }
        }
        m += 1;
    }
    proof {
        assert forall|j: int| 0 <= j < orig.len() implies world@[j] == ingest_rec(orig[j]) by {
            if rec_matches(orig[j], with_kinds@, without_kinds@) {
                assert(orig.len() == total);
                assert(q@.contains(Entity(j as usize)));
                let p = choose|p: int| 0 <= p < q@.len() && q@[p] == Entity(j as usize);
                assert(q@[p].0 as int == j);
                assert(world@[j] == ingest_rec(orig[j]));
            } else {
                assert(!rec_has(orig[j], ComponentKind::ProcessingStatus)) by {
                    if rec_has(orig[j], ComponentKind::ProcessingStatus) {
                        assert(with_kinds@[0] == ComponentKind::ProcessingStatus);
                        assert forall|k: int|
                            0 <= k < with_kinds@.len() implies rec_has(
                            orig[j],
                            with_kinds@[k],
                        ) by {}
                        assert(rec_matches(orig[j], with_kinds@, without_kinds@));
                    }
                }
                assert(!in_entity_prefix(q@, qlen as int, j)) by {
                    if in_entity_prefix(q@, qlen as int, j) {
                        let p = choose|p: int| 0 <= p < qlen && (#[trigger] q@[p]).0 == j;
                        assert(rec_matches(orig[j], with_kinds@, without_kinds@));
                    }
                }
                assert(world@[j] == orig[j]);
                assert(ingest_rec(orig[j]) == orig[j]);
            }
        }
        assert(world@ =~= ingestion_sys_spec(orig));
    }
}

/// Analyze every document whose status is `Analyzing`: compute its word
/// count and keyword entities (in first-seen order), set the fixed
/// sentiment, and move it to `Completed`; one whose raw content or
/// analysis slot is missing is marked `Failed` instead. Nothing else in
/// the store changes; one entity's failure never blocks the others.
pub fn analysis_system(world: &mut World)
    ensures
        final(world)@ == analysis_sys_spec(old(world)@),
{
    let ghost orig = world@;
    let total = world.num_entities();
    let mut with_kinds: Vec<ComponentKind> = Vec::new();
    with_kinds.push(ComponentKind::ProcessingStatus);
    let without_kinds: Vec<ComponentKind> = Vec::new();
    let q = world.query(&with_kinds, &without_kinds);
    let qlen = q.len();
    let mut m: usize = 0;
    while m < qlen
        invariant
            qlen == q@.len(),
            0 <= m <= qlen,
            world@.len() == orig.len(),
            with_kinds@.len() == 1,
            with_kinds@[0] == ComponentKind::ProcessingStatus,
            forall|p: int|
                0 <= p < qlen ==> (#[trigger] q@[p]).0 < orig.len() && rec_matches(
                    orig[q@[p].0 as int],
                    with_kinds@,
                    without_kinds@,
                ),
            forall|i: int, j: int| 0 <= i < j < qlen ==> q@[i].0 < q@[j].0,
            forall|p: int|
                0 <= p < m ==> world@[(#[trigger] q@[p]).0 as int] == analyze_rec(
                    orig[q@[p].0 as int],
                ),
            forall|j: int|
                0 <= j < orig.len() && !in_entity_prefix(q@, m as int, j) ==> world@[j] == orig[j],
        decreases qlen - m,
    {
        let e = q[m];
        proof {
            assert(!in_entity_prefix(q@, m as int, e.0 as int));
            assert(world@[e.0 as int] == orig[e.0 as int]);
        }
        let analyzing = match world.record(e).status {
            Some(ProcessingStatus::Analyzing) => true,
            _ => false,
        };
        if analyzing {
            let rec = world.record(e);
            if rec.raw_content.is_some() && rec.analysis.is_some() {
                let content: String = rec.raw_content.as_ref().unwrap().0.clone();
                let prev = rec.analysis.as_ref().unwrap();
                let mut kes: Vec<String> = clone_string_vec(&prev.key_entities);
                let summary: String = prev.summary.clone();
                let ghost prev_v = orig[e.0 as int].analysis->0;
                proof {
                    assert(content@ == orig[e.0 as int].raw_content->0);
                    assert(Seq::new(kes@.len(), |i: int| kes@[i]@) =~= prev_v.key_entities);
                }
                let wc = word_count(content.as_str());
                let pos_strata = find_substr(content.as_str(), "Strata");
                let pos_budget = find_substr(content.as_str(), "Budget");
                let ghost kes_before = Seq::new(kes@.len(), |i: int| kes@[i]@);
                match (pos_strata, pos_budget) {
                    (Some(ps), Some(pb)) => {
                        if pb < ps {
                            kes.push(String::from_str("Financials"));
                            kes.push(String::from_str("Strata Corp"));
                            proof {
                                assert(Seq::new(kes@.len(), |i: int| kes@[i]@) =~= kes_before
                                    + seq![entity_budget(), entity_strata()]);
                            }
                        } else {
                            kes.push(String::from_str("Strata Corp"));
                            kes.push(String::from_str("Financials"));
                            proof {
                                assert(Seq::new(kes@.len(), |i: int| kes@[i]@) =~= kes_before
                                    + seq![entity_strata(), entity_budget()]);
                            }
                        }
                    },
                    (Some(_), None) => {
                        kes.push(String::from_str("Strata Corp"));
                        proof {
                            assert(Seq::new(kes@.len(), |i: int| kes@[i]@) =~= kes_before
                                + seq![entity_strata()]);
                        }
                    },
                    (None, Some(_)) => {
                        kes.push(String::from_str("Financials"));
                        proof {
                            assert(Seq::new(kes@.len(), |i: int| kes@[i]@) =~= kes_before
                                + seq![entity_budget()]);
                        }
                    },
                    (None, None) => {
                        proof {
                            assert(Seq::new(kes@.len(), |i: int| kes@[i]@) =~= kes_before
                                + Seq::<Seq<char>>::empty());
                        }
                    },
                }
                proof {
                    lemma_first_match(content@, kw_strata());
                    lemma_first_match(content@, kw_budget());
                    assert(Seq::new(kes@.len(), |i: int| kes@[i]@) =~= prev_v.key_entities
                        + key_entities_spec(content@));
                }
                let res = AnalysisResult {
                    word_count: wc,
                    key_entities: kes,
                    sentiment_score: SENTIMENT_SCORE_CENTI,
                    summary,
                };
                proof {
                    assert(res@ =~= analyzed_result(orig[e.0 as int].raw_content->0, prev_v));
                }
                world.set_component(e, ComponentValue::Analysis(res));
                world.set_component(e, ComponentValue::Status(ProcessingStatus::Completed));
                proof {
                    assert(world@[e.0 as int] =~= analyze_rec(orig[e.0 as int]));
                }
            } else {
                world.set_component(e, ComponentValue::Status(ProcessingStatus::Failed));
            }
        }
        proof {
            assert(world@[e.0 as int] == analyze_rec(orig[e.0 as int]));
            assert forall|j: int|
                0 <= j < orig.len() && !in_entity_prefix(q@, m as int + 1, j) implies world@[j]
                == orig[j] by {
                assert(!in_entity_prefix(q@, m as int, j));
                assert(j != e.0 as int);
            }
        }
        m += 1;
    }
    proof {
        assert forall|j: int| 0 <= j < orig.len() implies world@[j] == analyze_rec(orig[j]) by {
            if rec_matches(orig[j], with_kinds@, without_kinds@) {
                assert(orig.len() == total);
                assert(q@.contains(Entity(j as usize)));
                let p = choose|p: int| 0 <= p < q@.len() && q@[p] == Entity(j as usize);
                assert(q@[p].0 as int == j);
                assert(world@[j] == analyze_rec(orig[j]));
            } else {
                assert(!rec_has(orig[j], ComponentKind::ProcessingStatus)) by {
                    if rec_has(orig[j], ComponentKind::ProcessingStatus) {
                        assert(with_kinds@[0] == ComponentKind::ProcessingStatus);
                        assert forall|k: int|
                            0 <= k < with_kinds@.len() implies rec_has(
                            orig[j],
                            with_kinds@[k],
                        ) by {}
                        assert(rec_matches(orig[j], with_kinds@, without_kinds@));
                    }
                }
                assert(!in_entity_prefix(q@, qlen as int, j)) by {
                    if in_entity_prefix(q@, qlen as int, j) {
                        let p = choose|p: int| 0 <= p < qlen && (#[trigger] q@[p]).0 == j;
                        assert(rec_matches(orig[j], with_kinds@, without_kinds@));
                    }
                }
                assert(world@[j] == orig[j]);
                assert(analyze_rec(orig[j]) == orig[j]);
            }
        }
        assert(world@ =~= analysis_sys_spec(orig));
    }
}

/// How often a text occurs in a list of texts.
pub open spec fn count_in(s: Seq<Seq<char>>, x: Seq<char>) -> int
    decreases s.len(),
{
    if s.len() == 0 {
        0
    } else {
        count_in(s.drop_last(), x) + if s.last() == x {
            1int
        } else {
            0int
        }
    }
}

/// A terminal processing status: the run will not move it again.
pub open spec fn is_terminal_status(s: Option<ProcessingStatus>) -> bool {
    s == Some(ProcessingStatus::Completed) || s == Some(ProcessingStatus::Failed)
}

/// After one run of the document schedule no document stays `Pending` or
/// `Analyzing`: every entity that held either status ends `Completed` or
/// `Failed`. A pending document with its raw content and analysis slot
/// ends `Completed`; one with missing input data ends `Failed`. Each
/// record moves independently, so one entity's failure never blocks the
/// others.
pub proof fn lemma_pending_documents_reach_terminal(recs: Seq<RecordV>)
    ensures
        forall|i: int|
            0 <= i < recs.len() && ((#[trigger] recs[i]).status == Some(ProcessingStatus::Pending)
                || recs[i].status == Some(ProcessingStatus::Analyzing)) ==> is_terminal_status(
                analysis_sys_spec(ingestion_sys_spec(recs))[i].status,
            ),
        forall|i: int|
            0 <= i < recs.len() && (#[trigger] recs[i]).status == Some(ProcessingStatus::Pending)
                && recs[i].raw_content is Some && recs[i].analysis is Some ==> analysis_sys_spec(
                ingestion_sys_spec(recs),
            )[i].status == Some(ProcessingStatus::Completed),
        forall|i: int|
            0 <= i < recs.len() && (#[trigger] recs[i]).status == Some(ProcessingStatus::Pending)
                && !(recs[i].raw_content is Some && recs[i].analysis is Some) ==> analysis_sys_spec(
                ingestion_sys_spec(recs),
            )[i].status == Some(ProcessingStatus::Failed),
{
    assert forall|i: int|
        0 <= i < recs.len() && ((#[trigger] recs[i]).status == Some(ProcessingStatus::Pending)
            || recs[i].status == Some(ProcessingStatus::Analyzing)) implies is_terminal_status(
        analysis_sys_spec(ingestion_sys_spec(recs))[i].status,
    ) by {
        assert(ingestion_sys_spec(recs)[i] == ingest_rec(recs[i]));
        assert(analysis_sys_spec(ingestion_sys_spec(recs))[i] == analyze_rec(
            ingest_rec(recs[i]),
        ));
    }
    assert forall|i: int|
        0 <= i < recs.len() && (#[trigger] recs[i]).status == Some(ProcessingStatus::Pending)
            implies analysis_sys_spec(ingestion_sys_spec(recs))[i] == analyze_rec(
        ingest_rec(recs[i]),
    ) by {
        assert(ingestion_sys_spec(recs)[i] == ingest_rec(recs[i]));
    }
}

/// A status ordering: `Pending` before `Analyzing` before the terminal
/// states `Completed` and `Failed`.
pub open spec fn status_rank(s: ProcessingStatus) -> int {
    match s {
        ProcessingStatus::Pending => 0,
        ProcessingStatus::Analyzing => 1,
        ProcessingStatus::Completed => 2,
        ProcessingStatus::Failed => 2,
    }
}

/// One status field may follow another: both absent, or both present and
/// never moving backwards.
pub open spec fn status_le(a: Option<ProcessingStatus>, b: Option<ProcessingStatus>) -> bool {
    match (a, b) {
        (None, None) => true,
        (Some(x), Some(y)) => status_rank(x) <= status_rank(y),
        _ => false,
    }
}

/// Neither document system ever moves a status backwards, nor attaches
/// or removes one.
pub proof fn lemma_status_only_forward(recs: Seq<RecordV>)
    ensures
        forall|i: int|
            0 <= i < recs.len() ==> status_le(
                (#[trigger] recs[i]).status,
                ingestion_sys_spec(recs)[i].status,
            ),
        forall|i: int|
            0 <= i < recs.len() ==> status_le(
                (#[trigger] recs[i]).status,
                analysis_sys_spec(recs)[i].status,
            ),
{
    assert forall|i: int| 0 <= i < recs.len() implies status_le(
        (#[trigger] recs[i]).status,
        ingestion_sys_spec(recs)[i].status,
    ) && status_le((#[trigger] recs[i]).status, analysis_sys_spec(recs)[i].status) by {
        assert(ingestion_sys_spec(recs)[i] == ingest_rec(recs[i]));
        assert(analysis_sys_spec(recs)[i] == analyze_rec(recs[i]));
    }
}

/// Keyword extraction is idempotent in effect: however often a keyword's
/// substring occurs in the content, its entity enters the extracted list
/// exactly once, and not at all when the keyword is absent.
pub proof fn lemma_keyword_entities_once(content: Seq<char>)
    ensures
        count_in(key_entities_spec(content), entity_strata()) == (if contains_substring(
            content,
            kw_strata(),
        ) {
            1int
        } else {
            0int
        }),
        count_in(key_entities_spec(content), entity_budget()) == (if contains_substring(
            content,
            kw_budget(),
        ) {
            1int
        } else {
            0int
        }),
{
    reveal_strlit("Strata Corp");
    reveal_strlit("Financials");
    assert(entity_strata().len() == 11);
    assert(entity_budget().len() == 10);
    lemma_first_match(content, kw_strata());
    lemma_first_match(content, kw_budget());
    let fs = first_match(content, kw_strata());
    let fb = first_match(content, kw_budget());
    let ks = key_entities_spec(content);
    let none: Seq<Seq<char>> = Seq::empty();
    let only_s = seq![entity_strata()];
    let only_b = seq![entity_budget()];
    assert(count_in(none, entity_strata()) == 0);
    assert(count_in(none, entity_budget()) == 0);
    assert(only_s.drop_last() =~= none);
    assert(count_in(only_s, entity_strata()) == 1);
    assert(count_in(only_s, entity_budget()) == 0);
    assert(only_b.drop_last() =~= none);
    assert(count_in(only_b, entity_strata()) == 0);
    assert(count_in(only_b, entity_budget()) == 1);
    if fs >= 0 && fb >= 0 {
        if fb < fs {
            let both = seq![entity_budget(), entity_strata()];
            assert(both.drop_last() =~= only_b);
            assert(count_in(both, entity_strata()) == 1);
            assert(count_in(both, entity_budget()) == 1);
            assert(ks =~= both);
        } else {
            let both = seq![entity_strata(), entity_budget()];
            assert(both.drop_last() =~= only_s);
            assert(count_in(both, entity_strata()) == 1);
            assert(count_in(both, entity_budget()) == 1);
            assert(ks =~= both);
        }
    } else if fs >= 0 {
        assert(ks =~= only_s);
    } else if fb >= 0 {
        assert(ks =~= only_b);
    } else {
        assert(ks =~= none);
    }
}

/// The record a new document enters the world with: its raw content and
/// metadata (file type "pdf"), status `Pending`, and an empty analysis
/// result awaiting the run.
pub open spec fn doc_record(id: Seq<char>, filename: Seq<char>, content: Seq<char>) -> RecordV {
    RecordV {
        raw_content: Some(content),
        metadata: Some(DocumentMetadataV { id, filename, file_type: "pdf"@ }),
        status: Some(ProcessingStatus::Pending),
        analysis: Some(
            AnalysisResultV {
                word_count: 0,
                key_entities: Seq::empty(),
                sentiment_score: 0,
                summary: Seq::empty(),
            },
        ),
        element: None,
        finding: None,
        inspector: None,
        job: None,
        slot: None,
        assignment: None,
    }
}

/// The final component tuples of the document pipeline: metadata, status
/// and analysis of every entity carrying all three, in entity order.
pub open spec fn doc_results_spec(recs: Seq<RecordV>) -> Seq<
    (DocumentMetadataV, ProcessingStatus, AnalysisResultV),
>
    decreases recs.len(),
{
    if recs.len() == 0 {
        Seq::empty()
    } else {
        let rest = doc_results_spec(recs.drop_last());
        let r = recs.last();
        if r.metadata is Some && r.status is Some && r.analysis is Some {
            rest.push((r.metadata->0, r.status->0, r.analysis->0))
        } else {
            rest
        }
    }
}

impl DocumentMetadata {
    /// An equal copy; spelled out so the equality is known.
    pub fn duplicate(&self) -> (r: DocumentMetadata)
        ensures
            r == *self,
    {
        DocumentMetadata {
            id: self.id.clone(),
            filename: self.filename.clone(),
            file_type: self.file_type.clone(),
        }
    }
}

impl AnalysisResult {
    /// A copy with the same image; spelled out so the image is known.
    pub fn duplicate(&self) -> (r: AnalysisResult)
        ensures
            r@ == self@,
    {
        let r = AnalysisResult {
            word_count: self.word_count,
            key_entities: clone_string_vec(&self.key_entities),
            sentiment_score: self.sentiment_score,
            summary: self.summary.clone(),
        };
        proof {
            assert(r@ =~= self@);
        }
        r
    }
}

/// A world wired with the document pipeline: ingestion, then analysis.
#[derive(Debug)]
pub struct DocumentWorld {
    world: World,
    schedule: Schedule,
}

impl View for DocumentWorld {
    type V = Seq<RecordV>;

    closed spec fn view(&self) -> Seq<RecordV> {
        self.world@
    }
}

impl DocumentWorld {
    /// The schedule is the document pipeline in its declared order.
    pub closed spec fn wf(&self) -> bool {
        self.schedule.systems@ == seq![SystemId::Ingestion, SystemId::Analysis]
    }

    /// An empty world with the two document systems registered in order.
    pub fn new() -> (w: DocumentWorld)
        ensures
            w@ == Seq::<RecordV>::empty(),
            w.wf(),
    {
        let mut systems: Vec<SystemId> = Vec::new();
        systems.push(SystemId::Ingestion);
        systems.push(SystemId::Analysis);
        let schedule = Schedule::new(systems);
        let w = DocumentWorld { world: World::new(), schedule };
        proof {
            assert(w.schedule.systems@ =~= seq![SystemId::Ingestion, SystemId::Analysis]);
        }
        w
    }

    /// Seed one document: pending, with the given content, typed "pdf".
    pub fn add_document(&mut self, id: String, filename: String, content: String)
        requires
            old(self).wf(),
        ensures
            final(self).wf(),
            final(self)@ == old(self)@.push(doc_record(id@, filename@, content@)),
    {
        let ghost idv = id@;
        let ghost filenamev = filename@;
        let ghost contentv = content@;
        let rec = EntityRecord {
            raw_content: Some(RawContent(content)),
            metadata: Some(
                DocumentMetadata { id, filename, file_type: String::from_str("pdf") },
            ),
            status: Some(ProcessingStatus::Pending),
            analysis: Some(
                AnalysisResult {
                    word_count: 0,
                    key_entities: Vec::new(),
                    sentiment_score: 0,
                    summary: String::new(),
                },
            ),
            element: None,
            finding: None,
            inspector: None,
            job: None,
            slot: None,
            assignment: None,
        };
        proof {
            assert(rec@ =~= doc_record(idv, filenamev, contentv));
        }
        self.world.spawn(rec);
    }

    /// Execute the schedule once: every pending document is ingested and
    /// analyzed in this single pass.
    pub fn run(&mut self)
        requires
            old(self).wf(),
        ensures
            final(self).wf(),
            final(self)@ == analysis_sys_spec(ingestion_sys_spec(old(self)@)),
    {
        let ghost orig = self.world@;
        let ghost systems_v = self.schedule.systems@;
        let noise: Vec<u16> = Vec::new();
        proof {
            assert(systems_v.skip(1) =~= seq![SystemId::Analysis]);
            assert(systems_v.skip(1).skip(1) =~= Seq::<SystemId>::empty());
            assert(noise@.skip(0) =~= noise@);
            assert(systems_v[0] == SystemId::Ingestion);
            assert(systems_v.skip(1)[0] == SystemId::Analysis);
            assert(schedule_ready(
                analysis_sys_spec(ingestion_sys_spec(orig)),
                systems_v.skip(1).skip(1),
                noise@,
            ));
            assert(schedule_ready(ingestion_sys_spec(orig), systems_v.skip(1), noise@));
            assert(schedule_ready(orig, systems_v, noise@));
        }
        self.schedule.run(&mut self.world, &noise);
        proof {
            assert(run_systems_spec(orig, systems_v, noise@) == run_systems_spec(
                ingestion_sys_spec(orig),
                systems_v.skip(1),
                noise@,
            ));
            assert(run_systems_spec(ingestion_sys_spec(orig), systems_v.skip(1), noise@)
                == run_systems_spec(
                analysis_sys_spec(ingestion_sys_spec(orig)),
                systems_v.skip(1).skip(1),
                noise@,
            ));
            assert(self.world@ == analysis_sys_spec(ingestion_sys_spec(orig)));
        }
    }

    /// Read back the final component tuples, in entity order.
    pub fn get_results(&self) -> (out: Vec<(DocumentMetadata, ProcessingStatus, AnalysisResult)>)
        ensures
            out@.len() == doc_results_spec(self@).len(),
            forall|k: int|
                0 <= k < out@.len() ==> (#[trigger] out@[k]).0@ == doc_results_spec(self@)[k].0
                    && out@[k].1 == doc_results_spec(self@)[k].1 && out@[k].2@ == doc_results_spec(
                    self@,
                )[k].2,
    {
        let n = self.world.num_entities();
        let mut out: Vec<(DocumentMetadata, ProcessingStatus, AnalysisResult)> = Vec::new();
        let mut i: usize = 0;
        proof {
            assert(self@.subrange(0, 0) =~= Seq::<RecordV>::empty());
        }
        while i < n
            invariant
                n == self@.len(),
                0 <= i <= n,
                out@.len() == doc_results_spec(self@.subrange(0, i as int)).len(),
                forall|k: int|
                    0 <= k < out@.len() ==> (#[trigger] out@[k]).0@ == doc_results_spec(
                        self@.subrange(0, i as int),
                    )[k].0 && out@[k].1 == doc_results_spec(self@.subrange(0, i as int))[k].1
                        && out@[k].2@ == doc_results_spec(self@.subrange(0, i as int))[k].2,
            decreases n - i,
        {
            let ghost prefix = self@.subrange(0, i as int);
            let rec = self.world.record(Entity(i));
            if rec.metadata.is_some() && rec.status.is_some() && rec.analysis.is_some() {
                let meta = rec.metadata.as_ref().unwrap().duplicate();
                let status = *rec.status.as_ref().unwrap();
                let analysis = rec.analysis.as_ref().unwrap().duplicate();
                out.push((meta, status, analysis));
            }
            proof {
                assert(self@.subrange(0, i + 1).drop_last() =~= prefix);
                assert(self@.subrange(0, i + 1).last() == self@[i as int]);
            }
            i += 1;
        }
        proof {
            assert(self@.subrange(0, n as int) =~= self@);
        }
        out
    }
}

} // verus!
