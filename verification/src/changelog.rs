//! The per-branch changelog document: two named mappings of titled sections
//! to note lines, with creation, content checks and validation.

use vstd::prelude::*;
use crate::error::Error;
use crate::text::{find_last, last_index_of, starts_with, starts_with_spec};

verus! {

/// The model of one mapping: ordered `(title, lines)` pairs.
pub type WorkModel = Seq<(Seq<char>, Seq<Seq<char>>)>;

/// One titled group of note lines.
#[derive(Debug)]
pub struct Section {
    pub title: String,
    pub lines: Vec<String>,
}

impl View for Section {
    type V = (Seq<char>, Seq<Seq<char>>);

    open spec fn view(&self) -> Self::V {
        (self.title@, self.lines.deep_view())
    }
}

/// An ordered, string-keyed mapping from section title to note lines.
#[derive(Debug)]
pub struct Work {
    pub sections: Vec<Section>,
}

impl View for Work {
    type V = WorkModel;

    open spec fn view(&self) -> WorkModel {
        self.sections@.map_values(|s: Section| s@)
    }
}

/// A changelog document: creative ("Artists") and engineering ("Technical")
/// notes.
#[derive(Debug)]
pub struct Changelog {
    pub artists: Work,
    pub technical: Work,
}

/// The characters with the Unicode `White_Space` property, the ones
/// `char::is_whitespace` recognises.
pub open spec fn is_whitespace_char(c: char) -> bool {
    ||| ('\u{9}' <= c && c <= '\u{d}')
    ||| c == ' '
    ||| c == '\u{85}'
    ||| c == '\u{a0}'
    ||| c == '\u{1680}'
    ||| ('\u{2000}' <= c && c <= '\u{200a}')
    ||| c == '\u{2028}'
    ||| c == '\u{2029}'
    ||| c == '\u{202f}'
    ||| c == '\u{205f}'
    ||| c == '\u{3000}'
}

/// A line counts as content when some character in it is not whitespace.
pub open spec fn line_has_content(line: Seq<char>) -> bool {
    exists|i: int| 0 <= i < line.len() && !is_whitespace_char(line[i])
}

/// A sequence of lines counts as content when some line does.
pub open spec fn lines_have_content(lines: Seq<Seq<char>>) -> bool {
    exists|i: int| 0 <= i < lines.len() && line_has_content(lines[i])
}

/// A mapping holds content when some section's lines do.
pub open spec fn work_has_content(w: WorkModel) -> bool {
    exists|i: int| 0 <= i < w.len() && lines_have_content(w[i].1)
}

/// A document contains entries when either mapping holds content.
pub open spec fn doc_has_content(d: Changelog) -> bool {
    work_has_content(d.artists@) || work_has_content(d.technical@)
}

/// True iff `c` has the Unicode `White_Space` property.
pub fn whitespace_char(c: char) -> (b: bool)
    ensures
        b == is_whitespace_char(c),
{
    let u = c as u32;
    (9 <= u && u <= 13) || u == 32 || u == 0x85 || u == 0xa0 || u == 0x1680 || (0x2000 <= u && u
        <= 0x200a) || u == 0x2028 || u == 0x2029 || u == 0x202f || u == 0x205f || u == 0x3000
}

/// True iff some character of `line` is not whitespace.
pub fn line_contains_something(line: &str) -> (b: bool)
    ensures
        b == line_has_content(line@),
{
    let n = line.unicode_len();
    let mut i: usize = 0;
    while i < n
        invariant
            i <= n,
            n == line@.len(),
            forall|j: int| 0 <= j < i ==> is_whitespace_char(line@[j]),
        decreases n - i,
    {
        let c = line.get_char(i);
        if !whitespace_char(c) {
            return true;
        }
        i += 1;
    }
    false
}

/// True iff some line holds a non-whitespace character.
pub fn contains_something(lines: &Vec<String>) -> (b: bool)
    ensures
        b == lines_have_content(lines.deep_view()),
{
    let n = lines.len();
    let mut i: usize = 0;
    while i < n
        invariant
            i <= n,
            n == lines.len(),
            forall|j: int| 0 <= j < i ==> !line_has_content(lines.deep_view()[j]),
        decreases n - i,
    {
        if line_contains_something(lines[i].as_str()) {
            assert(lines.deep_view()[i as int] == lines@[i as int]@);
            return true;
        }
        i += 1;
    }
    false
}

/// True iff some section of `w` holds content.
fn work_contains_entries(w: &Work) -> (b: bool)
    ensures
        b == work_has_content(w@),
{
    let n = w.sections.len();
    let mut i: usize = 0;
    while i < n
        invariant
            i <= n,
            n == w.sections.len(),
            forall|j: int| 0 <= j < i ==> !lines_have_content(w@[j].1),
        decreases n - i,
    {
        if contains_something(&w.sections[i].lines) {
            assert(w@[i as int].1 == w.sections@[i as int].lines.deep_view());
            return true;
        }
        assert(w@[i as int].1 == w.sections@[i as int].lines.deep_view());
        i += 1;
    }
    false
}

/// The stub mapping: a single "General" section holding one empty line.
pub open spec fn stub_work() -> WorkModel {
    seq![("General"@, seq![Seq::<char>::empty()])]
}

/// The mapping holding a single "General" section with exactly `[msg]`.
pub open spec fn message_work(msg: Seq<char>) -> WorkModel {
    seq![("General"@, seq![msg])]
}

/// One "General" section holding the given lines.
fn general_section(lines: Vec<String>) -> (s: Section)
    ensures
        s@ == ("General"@, lines.deep_view()),
{
    Section { title: String::from_str("General"), lines }
}

impl Changelog {
    /// The default stub document: one "General" section holding a single
    /// empty line, in both mappings. Never valid content.
    pub fn new() -> (d: Changelog)
        ensures
            d.artists@ == stub_work(),
            d.technical@ == stub_work(),
    {
        let mut a_lines: Vec<String> = Vec::new();
        a_lines.push(String::new());
        let mut t_lines: Vec<String> = Vec::new();
        t_lines.push(String::new());
        let a = general_section(a_lines);
        let t = general_section(t_lines);
        let mut a_secs: Vec<Section> = Vec::new();
        a_secs.push(a);
        let mut t_secs: Vec<Section> = Vec::new();
        t_secs.push(t);
        let d = Changelog { artists: Work { sections: a_secs }, technical: Work { sections: t_secs } };
        proof {
            assert(d.artists@ =~~= stub_work());
            assert(d.technical@ =~~= stub_work());
        }
        d
    }

    /// A document with no sections at all in either mapping.
    pub fn empty() -> (d: Changelog)
        ensures
            d.artists@ == Seq::<(Seq<char>, Seq<Seq<char>>)>::empty(),
            d.technical@ == Seq::<(Seq<char>, Seq<Seq<char>>)>::empty(),
    {
        let d = Changelog {
            artists: Work { sections: Vec::new() },
            technical: Work { sections: Vec::new() },
        };
        proof {
            assert(d.artists@ =~~= Seq::<(Seq<char>, Seq<Seq<char>>)>::empty());
            assert(d.technical@ =~~= Seq::<(Seq<char>, Seq<Seq<char>>)>::empty());
        }
        d
    }

    /// A document whose "Artists" mapping holds a single "General" section
    /// containing exactly `[msg]`, with an empty "Technical" mapping.
    pub fn with_message(msg: &str) -> (d: Changelog)
        ensures
            d.artists@ == message_work(msg@),
            d.technical@ == Seq::<(Seq<char>, Seq<Seq<char>>)>::empty(),
    {
        let mut lines: Vec<String> = Vec::new();
        lines.push(String::from_str(msg));
        let s = general_section(lines);
        let mut secs: Vec<Section> = Vec::new();
        secs.push(s);
        let d = Changelog { artists: Work { sections: secs }, technical: Work { sections: Vec::new() } };
        proof {
            assert(d.artists@ =~~= message_work(msg@));
            assert(d.technical@ =~~= Seq::<(Seq<char>, Seq<Seq<char>>)>::empty());
        }
        d
    }

    /// True iff neither mapping has any section.
    pub fn is_empty(&self) -> (b: bool)
        ensures
            b == (self.artists@.len() == 0 && self.technical@.len() == 0),
    {
        self.artists.sections.len() == 0 && self.technical.sections.len() == 0
    }

    /// True iff at least one line, in either mapping, has a non-whitespace
    /// character.
    pub fn contains_entries(&self) -> (b: bool)
        ensures
            b == doc_has_content(*self),
    {
        if work_contains_entries(&self.artists) {
            return true;
        }
        work_contains_entries(&self.technical)
    }
}

/// Names what heck's title-casing returns: a normalized section title that
/// depends on the characters of the input alone.
pub uninterp spec fn title_case_of(s: Seq<char>) -> Seq<char>;

/// Relies on `heck::ToTitleCase::to_title_case`: a pure function of the
/// input characters, used here to normalize section titles so that titles
/// differing only in case merge into one section.
#[verifier::external_body]
fn to_title_case(s: &str) -> (r: String)
    ensures
        r@ == title_case_of(s@),
        s@.len() == 0 ==> r@.len() == 0,
{
    heck::ToTitleCase::to_title_case(s)
}

/// The first index of a section titled `key`, if any.
pub open spec fn work_find(w: WorkModel, key: Seq<char>) -> Option<int>
    decreases w.len(),
{
    if w.len() == 0 {
        None
    } else if w[0].0 == key {
        Some(0)
    } else {
        match work_find(w.drop_first(), key) {
            Some(i) => Some(i + 1),
            None => None,
        }
    }
}

/// One titled group of lines folded into a mapping under its normalized
/// title: appended to the section already so titled, or inserted at the end.
pub open spec fn merge_one(lhs: WorkModel, title: Seq<char>, lines: Seq<Seq<char>>) -> WorkModel {
    let key = title_case_of(title);
    match work_find(lhs, key) {
        Some(i) => lhs.update(i, (key, lhs[i].1 + lines)),
        None => lhs.push((key, lines)),
    }
}

/// Every content-bearing section of `rhs` folded, in order, into `lhs`;
/// sections whose lines are entirely whitespace are dropped silently.
pub open spec fn merge_work_model(lhs: WorkModel, rhs: WorkModel) -> WorkModel
    decreases rhs.len(),
{
    if rhs.len() == 0 {
        lhs
    } else {
        let step = if lines_have_content(rhs[0].1) {
            merge_one(lhs, rhs[0].0, rhs[0].1)
        } else {
            lhs
        };
        merge_work_model(step, rhs.drop_first())
    }
}

proof fn lemma_merge_take_succ(lhs: WorkModel, rhs: WorkModel, i: int)
    requires
        0 <= i < rhs.len(),
    ensures
        merge_work_model(lhs, rhs.take(i + 1)) == (if lines_have_content(rhs[i].1) {
            merge_one(merge_work_model(lhs, rhs.take(i)), rhs[i].0, rhs[i].1)
        } else {
            merge_work_model(lhs, rhs.take(i))
        }),
    decreases i,
{
    let t1 = rhs.take(i + 1);
    let t0 = rhs.take(i);
    let step0 = if lines_have_content(rhs[0].1) {
        merge_one(lhs, rhs[0].0, rhs[0].1)
    } else {
        lhs
    };
    assert(t1.len() == i + 1);
    assert(t1[0] == rhs[0]);
    if i == 0 {
        assert(t1.drop_first() =~= t0);
        assert(t0.len() == 0);
        assert(merge_work_model(lhs, t1) == merge_work_model(step0, t0));
        assert(merge_work_model(step0, t0) == step0);
        assert(merge_work_model(lhs, t0) == lhs);
    } else {
        assert(t1.drop_first() =~= rhs.drop_first().take(i));
        assert(merge_work_model(lhs, t1) == merge_work_model(step0, rhs.drop_first().take(i)));
        lemma_merge_take_succ(step0, rhs.drop_first(), i - 1);
        assert(rhs.drop_first()[i - 1] == rhs[i]);
        assert(t0[0] == rhs[0]);
        assert(t0.drop_first() =~= rhs.drop_first().take(i - 1));
        assert(merge_work_model(lhs, t0) == merge_work_model(step0, rhs.drop_first().take(i - 1)));
    }
}

proof fn lemma_work_find_at(w: WorkModel, key: Seq<char>, i: int)
    requires
        0 <= i < w.len(),
        w[i].0 == key,
        forall|j: int| 0 <= j < i ==> w[j].0 != key,
    ensures
        work_find(w, key) == Some(i),
    decreases i,
{
    if i > 0 {
        lemma_work_find_at(w.drop_first(), key, i - 1);
    }
}

proof fn lemma_work_find_none(w: WorkModel, key: Seq<char>)
    requires
        forall|j: int| 0 <= j < w.len() ==> w[j].0 != key,
    ensures
        work_find(w, key) is None,
    decreases w.len(),
{
    if w.len() > 0 {
        lemma_work_find_none(w.drop_first(), key);
    }
}

/// The first section of `w` titled exactly `key`, if any.
fn work_find_exec(w: &Work, key: &String) -> (r: Option<usize>)
    ensures
        match r {
            Some(i) => i < w@.len() && w@[i as int].0 == key@ && work_find(w@, key@) == Some(
                i as int,
            ),
            None => work_find(w@, key@) is None,
        },
{
    let n = w.sections.len();
    let mut i: usize = 0;
    while i < n
        invariant
            i <= n,
            n == w.sections.len(),
            forall|j: int| 0 <= j < i ==> w@[j].0 != key@,
        decreases n - i,
    {
        if w.sections[i].title == *key {
            proof {
                assert(w@[i as int].0 == key@);
                lemma_work_find_at(w@, key@, i as int);
            }
            return Some(i);
        }
        assert(w@[i as int].0 == w.sections@[i as int].title@);
        i += 1;
    }
    proof {
        lemma_work_find_none(w@, key@);
    }
    None
}

/// Copies a list of note lines.
fn clone_lines(src: &Vec<String>) -> (r: Vec<String>)
    ensures
        r@ == src@,
        r.deep_view() == src.deep_view(),
{
    let n = src.len();
    let mut r: Vec<String> = Vec::new();
    let mut i: usize = 0;
    while i < n
        invariant
            i <= n,
            n == src.len(),
            r@ =~= src@.take(i as int),
        decreases n - i,
    {
        r.push(src[i].clone());
        assert(r@ =~= src@.take(i + 1));
        i += 1;
    }
    proof {
        assert(src@.take(n as int) =~= src@);
        assert(r.deep_view() =~= src.deep_view());
    }
    r
}

/// Appends the lines of `src` to `dst`, preserving order.
fn append_lines(dst: &mut Vec<String>, src: &Vec<String>)
    ensures
        final(dst)@ == old(dst)@ + src@,
        final(dst).deep_view() == old(dst).deep_view() + src.deep_view(),
{
    let n = src.len();
    let mut i: usize = 0;
    while i < n
        invariant
            i <= n,
            n == src.len(),
            dst@ =~= old(dst)@ + src@.take(i as int),
        decreases n - i,
    {
        dst.push(src[i].clone());
        assert(dst@ =~= old(dst)@ + src@.take(i + 1));
        i += 1;
    }
    proof {
        assert(src@.take(n as int) =~= src@);
        assert(dst@ =~= old(dst)@ + src@);
        assert(dst.deep_view() =~= old(dst).deep_view() + src.deep_view());
    }
}

/// Merges `rhs` into `lhs`: each content-bearing section, in order, is
/// appended to the aggregate section of the same title-cased title, or
/// inserted as a new section; all-whitespace sections are dropped.
pub fn merge_work(lhs: &mut Work, rhs: &Work)
    ensures
        final(lhs)@ == merge_work_model(old(lhs)@, rhs@),
{
    let n = rhs.sections.len();
    let mut i: usize = 0;
    while i < n
        invariant
            i <= n,
            n == rhs.sections.len(),
            lhs@ == merge_work_model(old(lhs)@, rhs@.take(i as int)),
        decreases n - i,
    {
        proof {
            lemma_merge_take_succ(old(lhs)@, rhs@, i as int);
            assert(rhs@[i as int] == rhs.sections@[i as int]@);
        }
        let has_content = contains_something(&rhs.sections[i].lines);
        if has_content {
            let key = to_title_case(rhs.sections[i].title.as_str());
            match work_find_exec(lhs, &key) {
                Some(j) => {
                    let ghost before = lhs@;
                    let mut sec = lhs.sections.remove(j);
                    append_lines(&mut sec.lines, &rhs.sections[i].lines);
                    let ghost merged = sec;
                    lhs.sections.insert(j, sec);
                    proof {
                        assert(merged@ == (key@, before[j as int].1 + rhs@[i as int].1));
                        assert(lhs@ =~= before.update(
                            j as int,
                            (key@, before[j as int].1 + rhs@[i as int].1),
                        ));
                    }
                }
                None => {
                    let lines = clone_lines(&rhs.sections[i].lines);
                    let sec = Section { title: key, lines };
                    lhs.sections.push(sec);
                    proof {
                        assert(lhs@ =~= merge_work_model(old(lhs)@, rhs@.take(i as int)).push(
                            (key@, rhs@[i as int].1),
                        ));
                    }
                }
            }
        }
        i += 1;
    }
    proof {
        assert(rhs@.take(n as int) =~= rhs@);
    }
}

/// The two mappings of a document, as one model value.
pub open spec fn doc_model(d: Changelog) -> (WorkModel, WorkModel) {
    (d.artists@, d.technical@)
}

/// A document equal, value for value, to the default stub.
pub open spec fn is_stub_doc(d: (WorkModel, WorkModel)) -> bool {
    d.0 == stub_work() && d.1 == stub_work()
}

/// One document folded into a running aggregate: a stub is skipped whole,
/// anything else has each mapping merged into the aggregate's.
pub open spec fn aggregate_step(
    acc: (WorkModel, WorkModel),
    d: (WorkModel, WorkModel),
) -> (WorkModel, WorkModel) {
    if is_stub_doc(d) {
        acc
    } else {
        (merge_work_model(acc.0, d.0), merge_work_model(acc.1, d.1))
    }
}

/// The documents folded, in order, into `acc`.
pub open spec fn aggregate_from(
    acc: (WorkModel, WorkModel),
    docs: Seq<(WorkModel, WorkModel)>,
) -> (WorkModel, WorkModel)
    decreases docs.len(),
{
    if docs.len() == 0 {
        acc
    } else {
        aggregate_from(aggregate_step(acc, docs[0]), docs.drop_first())
    }
}

/// The aggregate of the documents, in processing order, starting from a
/// document with no sections.
pub open spec fn aggregate_model(docs: Seq<(WorkModel, WorkModel)>) -> (WorkModel, WorkModel) {
    aggregate_from((Seq::<(Seq<char>, Seq<Seq<char>>)>::empty(), Seq::<(Seq<char>, Seq<Seq<char>>)>::empty()), docs)
}

proof fn lemma_aggregate_take_succ(acc: (WorkModel, WorkModel), docs: Seq<(WorkModel, WorkModel)>, i: int)
    requires
        0 <= i < docs.len(),
    ensures
        aggregate_from(acc, docs.take(i + 1)) == aggregate_step(
            aggregate_from(acc, docs.take(i)),
            docs[i],
        ),
    decreases i,
{
    let t1 = docs.take(i + 1);
    let t0 = docs.take(i);
    let step0 = aggregate_step(acc, docs[0]);
    assert(t1.len() == i + 1);
    assert(t1[0] == docs[0]);
    if i == 0 {
        assert(t1.drop_first() =~= t0);
        assert(t0.len() == 0);
        assert(aggregate_from(acc, t1) == aggregate_from(step0, t0));
        assert(aggregate_from(step0, t0) == step0);
        assert(aggregate_from(acc, t0) == acc);
    } else {
        assert(t1.drop_first() =~= docs.drop_first().take(i));
        assert(aggregate_from(acc, t1) == aggregate_from(step0, docs.drop_first().take(i)));
        lemma_aggregate_take_succ(step0, docs.drop_first(), i - 1);
        assert(docs.drop_first()[i - 1] == docs[i]);
        assert(t0[0] == docs[0]);
        assert(t0.drop_first() =~= docs.drop_first().take(i - 1));
        assert(aggregate_from(acc, t0) == aggregate_from(step0, docs.drop_first().take(i - 1)));
    }
}

impl Changelog {
    /// True iff this document equals the default stub, value for value.
    pub fn is_stub(&self) -> (b: bool)
        ensures
            b == is_stub_doc(doc_model(*self)),
    {
        let a = work_is_stub(&self.artists);
        if !a {
            return false;
        }
        work_is_stub(&self.technical)
    }
}

/// True iff `w` is exactly the stub mapping.
fn work_is_stub(w: &Work) -> (b: bool)
    ensures
        b == (w@ == stub_work()),
{
    proof {
        assert(stub_work().len() == 1);
    }
    if w.sections.len() != 1 {
        proof {
            assert(w@.len() == w.sections@.len());
        }
        return false;
    }
    let sec = &w.sections[0];
    proof {
        assert(w@[0] == sec@);
    }
    let general = String::from_str("General");
    if !(sec.title == general) {
        proof {
            if w@ == stub_work() {
                assert(w@[0].0 == "General"@);
            }
        }
        return false;
    }
    if sec.lines.len() != 1 {
        proof {
            if w@ == stub_work() {
                assert(w@[0].1 == seq![Seq::<char>::empty()]);
                assert(w@[0].1.len() == 1);
                assert(sec.lines.deep_view().len() == sec.lines@.len());
            }
        }
        return false;
    }
    let first_empty = sec.lines[0].as_str().is_empty();
    proof {
        assert(sec.lines.deep_view()[0] == sec.lines@[0]@);
        if w@ == stub_work() {
            assert(w@[0].1[0] == Seq::<char>::empty());
        }
        if first_empty {
            assert(w@[0].1 =~~= seq![Seq::<char>::empty()]);
            assert(w@ =~~= stub_work());
        }
    }
    first_empty
}

/// Aggregates parsed changelog documents, already in processing order:
/// documents equal to the default stub are skipped whole, and every other
/// document has its mappings merged into the aggregate's.
pub fn aggregate(docs: &Vec<Changelog>) -> (agg: Changelog)
    ensures
        (agg.artists@, agg.technical@) == aggregate_model(
            docs@.map_values(|d: Changelog| doc_model(d)),
        ),
{
    let ghost models = docs@.map_values(|d: Changelog| doc_model(d));
    let mut agg = Changelog::empty();
    let n = docs.len();
    let mut i: usize = 0;
    while i < n
        invariant
            i <= n,
            n == docs.len(),
            models == docs@.map_values(|d: Changelog| doc_model(d)),
            (agg.artists@, agg.technical@) == aggregate_from(
                (Seq::<(Seq<char>, Seq<Seq<char>>)>::empty(), Seq::<(Seq<char>, Seq<Seq<char>>)>::empty()),
                models.take(i as int),
            ),
        decreases n - i,
    {
        proof {
            lemma_aggregate_take_succ(
                (Seq::<(Seq<char>, Seq<Seq<char>>)>::empty(), Seq::<(Seq<char>, Seq<Seq<char>>)>::empty()),
                models,
                i as int,
            );
            assert(models[i as int] == doc_model(docs@[i as int]));
        }
        let stub = docs[i].is_stub();
        if !stub {
            merge_work(&mut agg.artists, &docs[i].artists);
            merge_work(&mut agg.technical, &docs[i].technical);
        }
        i += 1;
    }
    proof {
        assert(models.take(n as int) =~= models);
    }
    agg
}

proof fn lemma_aggregate_from_stubs(acc: (WorkModel, WorkModel), docs: Seq<(WorkModel, WorkModel)>)
    requires
        forall|i: int| 0 <= i < docs.len() ==> is_stub_doc(#[trigger] docs[i]),
    ensures
        aggregate_from(acc, docs) == acc,
    decreases docs.len(),
{
    if docs.len() > 0 {
        assert(is_stub_doc(docs[0]));
        lemma_aggregate_from_stubs(acc, docs.drop_first());
    }
}

/// Aggregating a set of documents each equal, value for value, to the
/// default stub yields an aggregate with no sections in either mapping.
pub proof fn lemma_aggregate_all_stubs(docs: Seq<(WorkModel, WorkModel)>)
    requires
        forall|i: int| 0 <= i < docs.len() ==> is_stub_doc(#[trigger] docs[i]),
    ensures
        aggregate_model(docs) == (
            Seq::<(Seq<char>, Seq<Seq<char>>)>::empty(),
            Seq::<(Seq<char>, Seq<Seq<char>>)>::empty(),
        ),
{
    lemma_aggregate_from_stubs(
        (Seq::<(Seq<char>, Seq<Seq<char>>)>::empty(), Seq::<(Seq<char>, Seq<Seq<char>>)>::empty()),
        docs,
    );
}

/// No two sections of `w` share a title.
pub open spec fn titles_unique(w: WorkModel) -> bool {
    forall|i: int, j: int| 0 <= i < j < w.len() ==> w[i].0 != w[j].0
}

proof fn lemma_work_find_some(w: WorkModel, key: Seq<char>, i: int)
    requires
        work_find(w, key) == Some(i),
    ensures
        0 <= i < w.len(),
        w[i].0 == key,
    decreases w.len(),
{
    if w.len() > 0 && w[0].0 != key {
        lemma_work_find_some(w.drop_first(), key, i - 1);
        assert(w.drop_first()[i - 1] == w[i]);
    }
}

proof fn lemma_work_find_none_means_absent(w: WorkModel, key: Seq<char>)
    requires
        work_find(w, key) is None,
    ensures
        forall|j: int| 0 <= j < w.len() ==> w[j].0 != key,
    decreases w.len(),
{
    if w.len() > 0 {
        lemma_work_find_none_means_absent(w.drop_first(), key);
        assert forall|j: int| 0 <= j < w.len() implies w[j].0 != key by {
            if j > 0 {
                assert(w.drop_first()[j - 1] == w[j]);
            }
        }
    }
}

proof fn lemma_merge_one_unique(lhs: WorkModel, title: Seq<char>, lines: Seq<Seq<char>>)
    requires
        titles_unique(lhs),
    ensures
        titles_unique(merge_one(lhs, title, lines)),
{
    let key = title_case_of(title);
    match work_find(lhs, key) {
        Some(i) => {
            lemma_work_find_some(lhs, key, i);
            let merged = lhs.update(i, (key, lhs[i].1 + lines));
            assert forall|a: int, b: int| 0 <= a < b < merged.len() implies merged[a].0
                != merged[b].0 by {
                assert(merged[a].0 == lhs[a].0);
                assert(merged[b].0 == lhs[b].0);
            }
        },
        None => {
            lemma_work_find_none_means_absent(lhs, key);
            let merged = lhs.push((key, lines));
            assert forall|a: int, b: int| 0 <= a < b < merged.len() implies merged[a].0
                != merged[b].0 by {
                assert(merged[a].0 == lhs[a].0);
                if b < lhs.len() {
                    assert(merged[b].0 == lhs[b].0);
                } else {
                    assert(merged[b].0 == key);
                }
            }
        },
    }
}

proof fn lemma_merge_work_unique(lhs: WorkModel, rhs: WorkModel)
    requires
        titles_unique(lhs),
    ensures
        titles_unique(merge_work_model(lhs, rhs)),
    decreases rhs.len(),
{
    if rhs.len() > 0 {
        let step = if lines_have_content(rhs[0].1) {
            lemma_merge_one_unique(lhs, rhs[0].0, rhs[0].1);
            merge_one(lhs, rhs[0].0, rhs[0].1)
        } else {
            lhs
        };
        lemma_merge_work_unique(step, rhs.drop_first());
    }
}

proof fn lemma_aggregate_from_unique(acc: (WorkModel, WorkModel), docs: Seq<(WorkModel, WorkModel)>)
    requires
        titles_unique(acc.0),
        titles_unique(acc.1),
    ensures
        titles_unique(aggregate_from(acc, docs).0),
        titles_unique(aggregate_from(acc, docs).1),
    decreases docs.len(),
{
    if docs.len() > 0 {
        let step = aggregate_step(acc, docs[0]);
        if !is_stub_doc(docs[0]) {
            lemma_merge_work_unique(acc.0, docs[0].0);
            lemma_merge_work_unique(acc.1, docs[0].1);
        }
        lemma_aggregate_from_unique(step, docs.drop_first());
    }
}

/// The aggregate never holds two sections with the same title, in either
/// mapping: every section enters under its normalized title, and lookups
/// are made on the same normalized key.
pub proof fn lemma_aggregate_titles_unique(docs: Seq<(WorkModel, WorkModel)>)
    ensures
        titles_unique(aggregate_model(docs).0),
        titles_unique(aggregate_model(docs).1),
{
    lemma_aggregate_from_unique(
        (Seq::<(Seq<char>, Seq<Seq<char>>)>::empty(), Seq::<(Seq<char>, Seq<Seq<char>>)>::empty()),
        docs,
    );
}

/// The default stub document contains no entries: its single line is empty.
pub proof fn lemma_stub_has_no_entries()
    ensures
        !work_has_content(stub_work()),
{
    assert forall|i: int| 0 <= i < stub_work().len() implies !lines_have_content(
        #[trigger] stub_work()[i].1,
    ) by {
        assert(stub_work()[i].1 == seq![Seq::<char>::empty()]);
        assert forall|j: int| 0 <= j < stub_work()[i].1.len() implies !line_has_content(
            #[trigger] stub_work()[i].1[j],
        ) by {
            assert(stub_work()[i].1[j] == Seq::<char>::empty());
        }
    }
}

/// A message-seeded document contains entries exactly when the message has a
/// non-whitespace character.
pub proof fn lemma_message_doc_entries(msg: Seq<char>)
    ensures
        work_has_content(message_work(msg)) == line_has_content(msg),
{
    assert(message_work(msg)[0].1 == seq![msg]);
    assert(message_work(msg)[0].1[0] == msg);
    if line_has_content(msg) {
        assert(lines_have_content(message_work(msg)[0].1));
    }
    if work_has_content(message_work(msg)) {
        let i = choose|i: int| 0 <= i < message_work(msg).len() && lines_have_content(
            message_work(msg)[i].1,
        );
        assert(i == 0);
        let j = choose|j: int| 0 <= j < message_work(msg)[0].1.len() && line_has_content(
            message_work(msg)[0].1[j],
        );
        assert(j == 0);
    }
}

/// Every character is ASCII and none is a tab.
pub open spec fn content_acceptable(s: Seq<char>) -> bool {
    forall|i: int| 0 <= i < s.len() ==> s[i] != '\t' && s[i] <= '\u{7f}'
}

/// True iff `raw` is tab-free, ASCII-only text.
pub fn acceptable(raw: &str) -> (b: bool)
    ensures
        b == content_acceptable(raw@),
{
    let n = raw.unicode_len();
    let mut i: usize = 0;
    while i < n
        invariant
            i <= n,
            n == raw@.len(),
            forall|j: int| 0 <= j < i ==> raw@[j] != '\t' && raw@[j] <= '\u{7f}',
        decreases n - i,
    {
        let c = raw.get_char(i);
        let u = c as u32;
        if u == 9 || u > 127 {
            return false;
        }
        i += 1;
    }
    true
}

/// Validates a document against its raw serialized text: refuses text with a
/// tab character or a non-ASCII character, and otherwise reports whether the
/// document contains entries. A stub or all-whitespace document yields
/// `Ok(false)`; the caller decides whether that is fatal.
pub fn validate(raw: &str, doc: &Changelog) -> (r: Result<bool, Error>)
    ensures
        r is Err <==> !content_acceptable(raw@),
        r matches Err(e) ==> e is Validation,
        content_acceptable(raw@) ==> r == Ok::<bool, Error>(doc_has_content(*doc)),
{
    if !acceptable(raw) {
        return Err(Error::Validation);
    }
    Ok(doc.contains_entries())
}

/// The directory the changelog documents live under, optionally below a
/// repository root.
pub open spec fn changelog_dir(root: Option<Seq<char>>) -> Seq<char> {
    match root {
        Some(r) => r + "/changelog/"@,
        None => "changelog/"@,
    }
}

/// `name` with the extension of its final path component dropped: the part
/// before the last '.', when that dot comes after the last '/' and is not
/// the component's first character.
pub open spec fn stem_of(name: Seq<char>) -> Seq<char> {
    let slash = last_index_of(name, '/');
    let dot = last_index_of(name, '.');
    if dot > slash + 1 {
        name.take(dot)
    } else {
        name
    }
}

/// The view of an optional repository root.
pub open spec fn root_view(root: Option<&str>) -> Option<Seq<char>> {
    match root {
        Some(r) => Some(r@),
        None => None,
    }
}

/// The location of the changelog document for `name`: under the changelog
/// root, below `root` when one is given, named by `name` with a `.yml`
/// extension in place of any extension `name` already carries.
pub open spec fn resolve_path(name: Seq<char>, root: Option<Seq<char>>) -> Seq<char> {
    changelog_dir(root) + stem_of(name) + ".yml"@
}

/// The deterministic location of the changelog document for `name`.
pub fn resolve(name: &str, repo_path: Option<&str>) -> (r: String)
    ensures
        r@ == resolve_path(name@, root_view(repo_path)),
{
    let mut out = match repo_path {
        Some(p) => {
            let mut s = String::from_str(p);
            s.append("/changelog/");
            s
        },
        None => String::from_str("changelog/"),
    };
    let slash = find_last(name, '/');
    let dot = find_last(name, '.');
    let cut: Option<usize> = match dot {
        Some(d) => match slash {
            Some(sl) => if d > sl && d - sl > 1 {
                Some(d)
            } else {
                None
            },
            None => if d > 0 {
                Some(d)
            } else {
                None
            },
        },
        None => None,
    };
    match cut {
        Some(d) => {
            out.append(name.substring_char(0, d));
        },
        None => {
            out.append(name);
        },
    }
    out.append(".yml");
    proof {
        assert(out@ =~= resolve_path(name@, root_view(repo_path)));
    }
    out
}

/// The location the aggregate changelog for `tag` is persisted to, under
/// the fixed changelog root.
pub fn aggregate_path(tag: &str) -> (r: String)
    ensures
        r@ == resolve_path(tag@ + ".e"@, None),
{
    let mut name = String::from_str(tag);
    name.append(".e");
    resolve(name.as_str(), None)
}

/// True iff the path, taken relative to the changelog root, starts with one
/// of the given prefixes.
pub fn matches_prefix(rel: &str, prefixes: &Vec<String>) -> (b: bool)
    ensures
        b == exists|i: int|
            0 <= i < prefixes@.len() && starts_with_spec(rel@, prefixes@[i]@),
{
    let n = prefixes.len();
    let mut i: usize = 0;
    while i < n
        invariant
            i <= n,
            n == prefixes@.len(),
            forall|j: int| 0 <= j < i ==> !starts_with_spec(rel@, prefixes@[j]@),
        decreases n - i,
    {
        if starts_with(rel, prefixes[i].as_str()) {
            assert(starts_with_spec(rel@, prefixes@[i as int]@));
            return true;
        }
        i += 1;
    }
    false
}

/// One note line rendered as a bullet with blank-line separation.
pub open spec fn render_line(line: Seq<char>) -> Seq<char> {
    "- "@ + line + "\n\n"@
}

/// The note lines rendered in order.
pub open spec fn render_lines(lines: Seq<Seq<char>>) -> Seq<char>
    decreases lines.len(),
{
    if lines.len() == 0 {
        Seq::<char>::empty()
    } else {
        render_line(lines[0]) + render_lines(lines.drop_first())
    }
}

/// A section is rendered only when its first line exists and is non-empty.
pub open spec fn section_visible(sec: (Seq<char>, Seq<Seq<char>>)) -> bool {
    sec.1.len() > 0 && sec.1[0].len() > 0
}

/// One section rendered: its title as a heading, then its lines.
pub open spec fn render_section(sec: (Seq<char>, Seq<Seq<char>>)) -> Seq<char> {
    "### "@ + sec.0 + "\n\n"@ + render_lines(sec.1)
}

/// A mapping rendered: every visible section in order, the rest omitted.
pub open spec fn render_work(w: WorkModel) -> Seq<char>
    decreases w.len(),
{
    if w.len() == 0 {
        Seq::<char>::empty()
    } else {
        (if section_visible(w[0]) {
            render_section(w[0])
        } else {
            Seq::<char>::empty()
        }) + render_work(w.drop_first())
    }
}

/// The whole document rendered: the "Artists" mapping under its heading,
/// then the "Technical" mapping under its own.
pub open spec fn render_doc(d: Changelog) -> Seq<char> {
    "## Artists\n"@ + render_work(d.artists@) + "## Technical\n"@ + render_work(d.technical@)
}

proof fn lemma_render_lines_snoc(lines: Seq<Seq<char>>, i: int)
    requires
        0 <= i < lines.len(),
    ensures
        render_lines(lines.take(i + 1)) == render_lines(lines.take(i)) + render_line(lines[i]),
    decreases i,
{
    let t1 = lines.take(i + 1);
    let t0 = lines.take(i);
    assert(t1.len() == i + 1);
    assert(t1[0] == lines[0]);
    if i == 0 {
        assert(t1.drop_first() =~= t0);
        assert(t0.len() == 0);
        assert(render_lines(t1) == render_line(lines[0]) + render_lines(t0));
        assert(render_lines(t0) == Seq::<char>::empty());
        assert(render_line(lines[0]) + Seq::<char>::empty() =~= render_line(lines[0]));
        assert(Seq::<char>::empty() + render_line(lines[0]) =~= render_line(lines[0]));
    } else {
        let d = lines.drop_first();
        assert(t1.drop_first() =~= d.take(i));
        assert(render_lines(t1) == render_line(lines[0]) + render_lines(d.take(i)));
        lemma_render_lines_snoc(d, i - 1);
        assert(d[i - 1] == lines[i]);
        assert(t0[0] == lines[0]);
        assert(t0.drop_first() =~= d.take(i - 1));
        assert(render_lines(t0) == render_line(lines[0]) + render_lines(d.take(i - 1)));
        assert((render_line(lines[0]) + render_lines(d.take(i - 1))) + render_line(lines[i]) =~= render_line(
            lines[0],
        ) + (render_lines(d.take(i - 1)) + render_line(lines[i])));
    }
}

proof fn lemma_render_work_snoc(w: WorkModel, i: int)
    requires
        0 <= i < w.len(),
    ensures
        render_work(w.take(i + 1)) == render_work(w.take(i)) + (if section_visible(w[i]) {
            render_section(w[i])
        } else {
            Seq::<char>::empty()
        }),
    decreases i,
{
    let t1 = w.take(i + 1);
    let t0 = w.take(i);
    let head = if section_visible(w[0]) {
        render_section(w[0])
    } else {
        Seq::<char>::empty()
    };
    let tail = if section_visible(w[i]) {
        render_section(w[i])
    } else {
        Seq::<char>::empty()
    };
    assert(t1.len() == i + 1);
    assert(t1[0] == w[0]);
    if i == 0 {
        assert(t1.drop_first() =~= t0);
        assert(t0.len() == 0);
        assert(render_work(t1) == head + render_work(t0));
        assert(render_work(t0) == Seq::<char>::empty());
        assert(head + Seq::<char>::empty() =~= head);
        assert(Seq::<char>::empty() + head =~= head);
    } else {
        let d = w.drop_first();
        assert(t1.drop_first() =~= d.take(i));
        assert(render_work(t1) == head + render_work(d.take(i)));
        lemma_render_work_snoc(d, i - 1);
        assert(d[i - 1] == w[i]);
        assert(t0[0] == w[0]);
        assert(t0.drop_first() =~= d.take(i - 1));
        assert(render_work(t0) == head + render_work(d.take(i - 1)));
        assert((head + render_work(d.take(i - 1))) + tail =~= head + (render_work(d.take(i - 1))
            + tail));
    }
}

/// Appends the rendered note lines to `out`.
fn render_lines_exec(out: &mut String, lines: &Vec<String>)
    ensures
        final(out)@ == old(out)@ + render_lines(lines.deep_view()),
{
    let ghost base = old(out)@;
    let n = lines.len();
    proof {
        assert(render_lines(lines.deep_view().take(0)) == Seq::<char>::empty());
        assert(base + Seq::<char>::empty() =~= base);
    }
    let mut i: usize = 0;
    while i < n
        invariant
            i <= n,
            n == lines@.len(),
            out@ == base + render_lines(lines.deep_view().take(i as int)),
        decreases n - i,
    {
        proof {
            lemma_render_lines_snoc(lines.deep_view(), i as int);
        }
        out.append("- ");
        out.append(lines[i].as_str());
        out.append("\n\n");
        proof {
            assert(lines.deep_view()[i as int] == lines@[i as int]@);
            assert(out@ =~= base + render_lines(lines.deep_view().take(i + 1)));
        }
        i += 1;
    }
    proof {
        assert(lines.deep_view().take(n as int) =~= lines.deep_view());
    }
}

/// Appends the rendered mapping to `out`: a "###" heading and bulleted
/// lines for every section whose first line is non-empty, nothing for the
/// rest.
fn render_work_exec(out: &mut String, w: &Work)
    ensures
        final(out)@ == old(out)@ + render_work(w@),
{
    let ghost base = old(out)@;
    let n = w.sections.len();
    proof {
        assert(render_work(w@.take(0)) == Seq::<char>::empty());
        assert(base + Seq::<char>::empty() =~= base);
    }
    let mut i: usize = 0;
    while i < n
        invariant
            i <= n,
            n == w.sections@.len(),
            out@ == base + render_work(w@.take(i as int)),
        decreases n - i,
    {
        proof {
            lemma_render_work_snoc(w@, i as int);
            assert(w@[i as int] == w.sections@[i as int]@);
        }
        let sec = &w.sections[i];
        let visible = sec.lines.len() > 0 && !sec.lines[0].as_str().is_empty();
        proof {
            assert(sec.lines.deep_view().len() == sec.lines@.len());
            if sec.lines@.len() > 0 {
                assert(sec.lines.deep_view()[0] == sec.lines@[0]@);
            }
            assert(visible == section_visible(w@[i as int]));
        }
        if visible {
            out.append("### ");
            out.append(sec.title.as_str());
            out.append("\n\n");
            render_lines_exec(out, &sec.lines);
            proof {
                assert(out@ =~= base + render_work(w@.take(i + 1)));
            }
        } else {
            proof {
                assert(out@ =~= base + render_work(w@.take(i + 1)));
            }
        }
        i += 1;
    }
    proof {
        assert(w@.take(n as int) =~= w@);
    }
}

/// Renders the document to the human-readable text that becomes a merge
/// request's description: "## Artists", then every visible artists section,
/// then "## Technical" and every visible technical section.
pub fn formatted(doc: &Changelog) -> (r: String)
    ensures
        r@ == render_doc(*doc),
{
    let mut out = String::from_str("## Artists\n");
    render_work_exec(&mut out, &doc.artists);
    out.append("## Technical\n");
    render_work_exec(&mut out, &doc.technical);
    proof {
        assert(out@ =~= render_doc(*doc));
    }
    out
}

/// How an edit session must proceed, decided up front.
#[derive(Debug)]
pub struct EditPlan {
    /// Create the stub document first, because none exists yet.
    pub create_stub: bool,
    /// Seed the document from this message instead of opening the editor.
    pub seed_message: Option<String>,
    /// The message to commit with after staging, when committing was asked.
    pub commit_message: Option<String>,
}

/// Decides an edit session for the changelog of `name`: create a stub when
/// the document is missing, seed from the last commit message when one is
/// given (otherwise the operator edits interactively), and commit with
/// "update changelog for `name`" when asked.
pub fn edit_plan(name: &str, file_exists: bool, commit: bool, last_commit_message: Option<
    String,
>) -> (p: EditPlan)
    ensures
        p.create_stub == !file_exists,
        p.seed_message == last_commit_message,
        commit ==> (p.commit_message matches Some(m) && m@ == "update changelog for "@ + name@),
        !commit ==> p.commit_message is None,
{
    let commit_message = if commit {
        let mut m = String::from_str("update changelog for ");
        m.append(name);
        Some(m)
    } else {
        None
    };
    EditPlan { create_stub: !file_exists, seed_message: last_commit_message, commit_message }
}

} // verus!
