//! Answering questions from memory: full-text query text, hits from decisions and files,
//! ranking and the printed answer.

use crate::ids::{self, id_text};
use crate::knowledge::{self, find_related_files};
use crate::models::{Decision, KnowledgeGraph};
use crate::order::{self, stable_desc_order};
use crate::text::{self, append_str, join_strings, push_decimal, str_contains, to_lower};
use vstd::prelude::*;

verus! {

/// One answer to a question: where it comes from, what it is, and a snippet.
pub struct SearchHit {
    pub doc_id: String,
    pub source: String,
    pub snippet: String,
}

/// The text of a search hit.
pub struct SearchHitView {
    pub doc_id: Seq<char>,
    pub source: Seq<char>,
    pub snippet: Seq<char>,
}

impl View for SearchHit {
    type V = SearchHitView;

    open spec fn view(&self) -> SearchHitView {
        SearchHitView { doc_id: self.doc_id@, source: self.source@, snippet: self.snippet@ }
    }
}

/// The views of a sequence of hits.
pub open spec fn hit_views(hits: Seq<SearchHit>) -> Seq<SearchHitView> {
    hits.map_values(|h: SearchHit| h@)
}

impl SearchHit {
    /// A copy of this hit.
    pub fn duplicate(&self) -> (r: SearchHit)
        ensures
            r == *self,
    {
        SearchHit {
            doc_id: self.doc_id.clone(),
            source: self.source.clone(),
            snippet: self.snippet.clone(),
        }
    }
}

/// The words of a text: its maximal runs of non-whitespace characters, in order.
pub open spec fn whitespace_words(s: Seq<char>) -> Seq<Seq<char>>
    decreases s.len(),
{
    if s.len() == 0 {
        Seq::empty()
    } else if text::is_white_space(s.last()) {
        whitespace_words(s.drop_last())
    } else if s.len() >= 2 && !text::is_white_space(s[s.len() - 2]) {
        let w = whitespace_words(s.drop_last());
        w.update(w.len() - 1, w.last().push(s.last()))
    } else {
        whitespace_words(s.drop_last()).push(seq![s.last()])
    }
}

/// Splits a text with `str::split_whitespace`, which yields the runs of
/// non-whitespace characters between whitespace (`whitespace_words`).
#[verifier::external_body]
fn split_words(s: &str) -> (r: Vec<String>)
    ensures
        text::texts(r@) == whitespace_words(s@),
{
    s.split_whitespace().map(String::from).collect()
}

/// A word in double quotes, so that the full-text index reads it as a plain phrase.
pub open spec fn quoted(w: Seq<char>) -> Seq<char> {
    seq!['"'] + w + seq!['"']
}

/// Each word quoted.
pub open spec fn quoted_all(ws: Seq<Seq<char>>) -> Seq<Seq<char>> {
    ws.map_values(|w: Seq<char>| quoted(w))
}

/// The full-text query for a question: each word quoted, joined by ` OR `.
pub open spec fn fts_query_text(query: Seq<char>) -> Seq<char> {
    text::join_text(quoted_all(whitespace_words(query)), " OR "@)
}

/// Builds the full-text query for a question.
pub fn fts_query(query: &str) -> (r: String)
    ensures
        r@ == fts_query_text(query@),
{
    let words = split_words(query);
    let ghost ws = text::texts(words@);
    let mut out: Vec<String> = Vec::new();
    let mut i: usize = 0;
    while i < words.len()
        invariant
            i <= words@.len(),
            ws == text::texts(words@),
            out@.len() == i,
            text::texts(out@) == quoted_all(ws.take(i as int)),
        decreases words@.len() - i,
    {
        let mut q = "\"".to_owned();
        append_str(&mut q, words[i].as_str());
        append_str(&mut q, "\"");
        proof {
            reveal_strlit("\"");
        }
        assert(q@ == quoted(ws[i as int]));
        let ghost prev = out@;
        let ghost qv = q@;
        out.push(q);
        assert forall|j: int| 0 <= j < i + 1 implies #[trigger] text::texts(out@)[j] == quoted_all(ws.take(i + 1))[j] by {
            assert(text::texts(out@)[j] == out@[j]@);
            assert(quoted_all(ws.take(i + 1))[j] == quoted(ws[j]));
            if j < i {
                assert(out@[j] == prev[j]);
                assert(text::texts(prev)[j] == prev[j]@);
                assert(text::texts(prev)[j] == quoted_all(ws.take(i as int))[j]);
                assert(quoted_all(ws.take(i as int))[j] == quoted(ws[j]));
            } else {
                assert(out@[j]@ == qv);
            }
        }
        assert(text::texts(out@) =~= quoted_all(ws.take(i + 1)));
        i = i + 1;
    }
    assert(ws.take(words@.len() as int) =~= ws);
    join_strings(&out, " OR ")
}

/// A decision mentions the lower-cased question `q` in its content or its rationale.
pub open spec fn mentions(d: Decision, q: Seq<char>) -> bool {
    ||| text::seq_contains_text(text::lowercase_text(d.content@), q)
    ||| (d.rationale matches Some(r) && text::seq_contains_text(text::lowercase_text(r@), q))
}

/// The hit that shows a decision.
pub open spec fn decision_hit(d: Decision) -> SearchHitView {
    SearchHitView { doc_id: ids::uuid_text(d.id), source: "decision"@, snippet: d.content@ }
}

/// The hits for the decisions of `ds` that mention `q`, in order.
pub open spec fn decision_hits_of(ds: Seq<Decision>, q: Seq<char>) -> Seq<SearchHitView>
    decreases ds.len(),
{
    if ds.len() == 0 {
        Seq::empty()
    } else if mentions(ds.last(), q) {
        decision_hits_of(ds.drop_last(), q).push(decision_hit(ds.last()))
    } else {
        decision_hits_of(ds.drop_last(), q)
    }
}

/// A decision whose lower-cased content or rationale contains the question anywhere
/// is found: a hit with its identifier, source `decision` and its content as snippet.
pub proof fn law_mentioning_decision_is_found(ds: Seq<Decision>, q: Seq<char>, k: int)
    requires
        0 <= k < ds.len(),
        text::seq_contains_text(text::lowercase_text(ds[k].content@), q) || (ds[k].rationale matches Some(r)
            && text::seq_contains_text(text::lowercase_text(r@), q)),
    ensures
        decision_hits_of(ds, q).contains((SearchHitView { doc_id: ids::uuid_text(ds[k].id), source: "decision"@, snippet: ds[k].content@ })),
    decreases ds.len(),
{
    let h = SearchHitView { doc_id: ids::uuid_text(ds[k].id), source: "decision"@, snippet: ds[k].content@ };
    if k < ds.len() - 1 {
        law_mentioning_decision_is_found(ds.drop_last(), q, k);
        assert(ds.drop_last()[k] == ds[k]);
        let prev = decision_hits_of(ds.drop_last(), q);
        let w = choose|w: int| 0 <= w < prev.len() && prev[w] == h;
        assert(decision_hits_of(ds, q)[w] == h);
    } else {
        assert(ds.last() == ds[k]);
        assert(decision_hits_of(ds, q).last() == h);
    }
}

/// Every decision hit shows a decision whose lower-cased content or rationale contains the question.
pub proof fn law_decision_hits_mention(ds: Seq<Decision>, q: Seq<char>, i: int)
    requires
        0 <= i < decision_hits_of(ds, q).len(),
    ensures
        exists|k: int|
            0 <= k < ds.len() && decision_hits_of(ds, q)[i].doc_id == ids::uuid_text(#[trigger] ds[k].id)
                && decision_hits_of(ds, q)[i].source == "decision"@ && decision_hits_of(ds, q)[i].snippet == ds[k].content@
                && (text::seq_contains_text(text::lowercase_text(ds[k].content@), q) || (ds[k].rationale matches Some(r)
                && text::seq_contains_text(text::lowercase_text(r@), q))),
    decreases ds.len(),
{
    let prev = decision_hits_of(ds.drop_last(), q);
    if i < prev.len() {
        law_decision_hits_mention(ds.drop_last(), q, i);
        let k = choose|k: int|
            0 <= k < ds.drop_last().len() && prev[i].doc_id == ids::uuid_text(#[trigger] ds.drop_last()[k].id)
                && prev[i].source == "decision"@ && prev[i].snippet == ds.drop_last()[k].content@
                && (text::seq_contains_text(text::lowercase_text(ds.drop_last()[k].content@), q) || (
            ds.drop_last()[k].rationale matches Some(r) && text::seq_contains_text(text::lowercase_text(r@), q)));
        assert(ds.drop_last()[k] == ds[k]);
        assert(decision_hits_of(ds, q)[i] == prev[i]);
    } else {
        assert(ds[ds.len() - 1] == ds.last());
        assert(mentions(ds.last(), q));
    }
}

/// Whether a decision mentions the lower-cased question `q`.
fn decision_mentions(d: &Decision, q: &str) -> (b: bool)
    ensures
        b == mentions(*d, q@),
{
    let c = to_lower(d.content.as_str());
    if str_contains(c.as_str(), q) {
        return true;
    }
    match &d.rationale {
        Some(r) => {
            let lr = to_lower(r.as_str());
            str_contains(lr.as_str(), q)
        },
        None => false,
    }
}

/// The hits for the decisions that mention the question, case-insensitively, in order.
pub fn decision_hits(decisions: &Vec<Decision>, query: &str) -> (r: Vec<SearchHit>)
    ensures
        hit_views(r@) == decision_hits_of(decisions@, text::lowercase_text(query@)),
{
    let q = to_lower(query);
    let mut out: Vec<SearchHit> = Vec::new();
    let mut i: usize = 0;
    while i < decisions.len()
        invariant
            i <= decisions@.len(),
            q@ == text::lowercase_text(query@),
            hit_views(out@) == decision_hits_of(decisions@.take(i as int), q@),
        decreases decisions@.len() - i,
    {
        let d = &decisions[i];
        assert(decisions@.take(i + 1).drop_last() =~= decisions@.take(i as int));
        assert(decisions@.take(i + 1).last() == decisions@[i as int]);
        if decision_mentions(d, q.as_str()) {
            let hit = SearchHit {
                doc_id: id_text(d.id),
                source: "decision".to_owned(),
                snippet: d.content.clone(),
            };
            out.push(hit);
            assert(hit_views(out@) =~= decision_hits_of(decisions@.take(i + 1), q@));
        }
        i = i + 1;
    }
    assert(decisions@.take(decisions@.len() as int) =~= decisions@);
    out
}

/// The hit that points at a related file.
pub open spec fn file_hit(path: Seq<char>) -> SearchHitView {
    SearchHitView { doc_id: path, source: "file"@, snippet: "Related file: "@ + path }
}

/// The hits for related files, in order.
pub open spec fn file_hits_of(paths: Seq<Seq<char>>) -> Seq<SearchHitView> {
    paths.map_values(|p: Seq<char>| file_hit(p))
}

/// One hit per related file, in order.
pub fn file_hits(files: &Vec<String>) -> (r: Vec<SearchHit>)
    ensures
        hit_views(r@) == file_hits_of(text::texts(files@)),
{
    let mut out: Vec<SearchHit> = Vec::new();
    let mut i: usize = 0;
    while i < files.len()
        invariant
            i <= files@.len(),
            out@.len() == i,
            hit_views(out@) == file_hits_of(text::texts(files@.take(i as int))),
        decreases files@.len() - i,
    {
        let mut snippet = "Related file: ".to_owned();
        append_str(&mut snippet, files[i].as_str());
        let ghost prev = out@;
        let hit = SearchHit { doc_id: files[i].clone(), source: "file".to_owned(), snippet };
        proof {
            reveal_strlit("file");
        }
        assert(hit@ == file_hit(files@[i as int]@));
        let ghost hv = hit@;
        out.push(hit);
        assert forall|j: int| 0 <= j < i + 1 implies #[trigger] hit_views(out@)[j] == file_hits_of(text::texts(files@.take(i + 1)))[j] by {
            assert(hit_views(out@)[j] == out@[j]@);
            assert(text::texts(files@.take(i + 1))[j] == files@[j]@);
            assert(file_hits_of(text::texts(files@.take(i + 1)))[j] == file_hit(files@[j]@));
            if j < i {
                assert(out@[j] == prev[j]);
                assert(hit_views(prev)[j] == prev[j]@);
                assert(hit_views(prev)[j] == file_hits_of(text::texts(files@.take(i as int)))[j]);
                assert(text::texts(files@.take(i as int))[j] == files@[j]@);
                assert(file_hits_of(text::texts(files@.take(i as int)))[j] == file_hit(files@[j]@));
            } else {
                assert(out@[j]@ == hv);
            }
        }
        assert(hit_views(out@) =~= file_hits_of(text::texts(files@.take(i + 1))));
        i = i + 1;
    }
    assert(files@.take(files@.len() as int) =~= files@);
    out
}

/// A hit with its rank, as an integer that orders hits as their scores do.
pub struct RankedHit {
    pub hit: SearchHit,
    pub rank_key: i128,
}

/// The rank keys of ranked hits, as integers.
pub open spec fn rank_keys(ranked: Seq<RankedHit>) -> Seq<int> {
    ranked.map_values(|r: RankedHit| r.rank_key as int)
}

/// Integer keys, as mathematical integers.
pub open spec fn key_ints(keys: Seq<i128>) -> Seq<int> {
    keys.map_values(|x: i128| x as int)
}

/// The smaller of two counts.
pub open spec fn at_most(n: int, limit: int) -> int {
    if n <= limit {
        n
    } else {
        limit
    }
}

/// The best `limit` hits: by descending rank, hits of equal rank in their given order.
pub fn rank_hits(ranked: &Vec<RankedHit>, limit: usize) -> (r: Vec<SearchHit>)
    ensures
        exists|ord: Seq<int>|
            #![trigger order::is_stable_desc_order(rank_keys(ranked@), ord)]
            {
                &&& order::is_stable_desc_order(rank_keys(ranked@), ord)
                &&& r@.len() == at_most(ranked@.len() as int, limit as int)
                &&& forall|i: int| 0 <= i < r@.len() ==> #[trigger] r@[i] == ranked@[ord[i]].hit
            },
{
    let mut keys: Vec<i128> = Vec::new();
    let mut k: usize = 0;
    while k < ranked.len()
        invariant
            k <= ranked@.len(),
            keys@.len() == k,
            key_ints(keys@) == rank_keys(ranked@.take(k as int)),
        decreases ranked@.len() - k,
    {
        let ghost prev = keys@;
        keys.push(ranked[k].rank_key);
        assert forall|j: int| 0 <= j < k + 1 implies #[trigger] key_ints(keys@)[j]
            == rank_keys(ranked@.take(k + 1))[j] by {
            assert(key_ints(keys@)[j] == keys@[j] as int);
            assert(rank_keys(ranked@.take(k + 1))[j] == ranked@[j].rank_key as int);
            if j < k {
                assert(keys@[j] == prev[j]);
                assert(key_ints(prev)[j] == prev[j] as int);
                assert(key_ints(prev)[j] == rank_keys(ranked@.take(k as int))[j]);
                assert(rank_keys(ranked@.take(k as int))[j] == ranked@[j].rank_key as int);
            }
        }
        assert(key_ints(keys@) =~= rank_keys(ranked@.take(k + 1)));
        k = k + 1;
    }
    assert(ranked@.take(ranked@.len() as int) =~= ranked@);
    let ord = stable_desc_order(&keys);
    let ghost ordv = ord@.map_values(|i: usize| i as int);
    let n = if ranked.len() <= limit {
        ranked.len()
    } else {
        limit
    };
    let mut out: Vec<SearchHit> = Vec::new();
    let mut i: usize = 0;
    while i < n
        invariant
            n == at_most(ranked@.len() as int, limit as int),
            i <= n,
            ord@.len() == ranked@.len(),
            ordv == ord@.map_values(|i: usize| i as int),
            order::is_stable_desc_order(rank_keys(ranked@), ordv),
            out@.len() == i,
            forall|j: int| 0 <= j < i ==> #[trigger] out@[j] == ranked@[ordv[j]].hit,
        decreases n - i,
    {
        assert(0 <= ordv[i as int] < ranked@.len());
        let idx = ord[i];
        out.push(ranked[idx].hit.duplicate());
        i = i + 1;
    }
    out
}

/// One numbered entry of an answer.
pub open spec fn answer_entry(n: nat, h: SearchHitView) -> Seq<char> {
    text::decimal_text(n) + ". ["@ + h.source + "] "@ + h.doc_id + "\n   "@ + h.snippet + "\n\n"@
}

/// The numbered entries of an answer, starting at 1.
pub open spec fn answer_entries(hits: Seq<SearchHitView>) -> Seq<char>
    decreases hits.len(),
{
    if hits.len() == 0 {
        Seq::empty()
    } else {
        answer_entries(hits.drop_last()) + answer_entry(hits.len(), hits.last())
    }
}

/// The printed answer to a question.
pub open spec fn answer_text(query: Seq<char>, hits: Seq<SearchHitView>) -> Seq<char> {
    if hits.len() == 0 {
        "No results found for: \""@ + query + "\""@
    } else {
        "ANSWER: \""@ + query + "\"\n\n"@ + answer_entries(hits)
    }
}

/// Prints the answer to a question from its hits.
pub fn format_answer(query: &str, hits: &Vec<SearchHit>) -> (r: String)
    ensures
        r@ == answer_text(query@, hit_views(hits@)),
{
    if hits.len() == 0 {
        let mut out = "No results found for: \"".to_owned();
        append_str(&mut out, query);
        append_str(&mut out, "\"");
        return out;
    }
    let mut out = "ANSWER: \"".to_owned();
    append_str(&mut out, query);
    append_str(&mut out, "\"\n\n");
    let ghost head = out@;
    let mut i: usize = 0;
    while i < hits.len()
        invariant
            i <= hits@.len(),
            head == "ANSWER: \""@ + query@ + "\"\n\n"@,
            out@ == head + answer_entries(hit_views(hits@.take(i as int))),
        decreases hits@.len() - i,
    {
        let h = &hits[i];
        let ghost before = out@;
        push_decimal(&mut out, i + 1);
        append_str(&mut out, ". [");
        append_str(&mut out, h.source.as_str());
        append_str(&mut out, "] ");
        append_str(&mut out, h.doc_id.as_str());
        append_str(&mut out, "\n   ");
        append_str(&mut out, h.snippet.as_str());
        append_str(&mut out, "\n\n");
        assert(hit_views(hits@.take(i + 1)).drop_last() =~= hit_views(hits@.take(i as int)));
        assert(out@ =~= before + answer_entry((i + 1) as nat, hits@[i as int]@));
        i = i + 1;
    }
    assert(hits@.take(hits@.len() as int) =~= hits@);
    out
}


/// A ranked hit as values: its text and its rank.
pub open spec fn ranked_value(r: RankedHit) -> (SearchHitView, int) {
    (r.hit@, r.rank_key as int)
}

/// Ranked hits as values.
pub open spec fn ranked_values(rs: Seq<RankedHit>) -> Seq<(SearchHitView, int)> {
    rs.map_values(|r: RankedHit| ranked_value(r))
}

/// Hits, each with the same rank.
pub open spec fn with_rank(hs: Seq<SearchHitView>, rank: int) -> Seq<(SearchHitView, int)> {
    hs.map_values(|h: SearchHitView| (h, rank))
}

/// The ranks of ranked values.
pub open spec fn ranks_of(cs: Seq<(SearchHitView, int)>) -> Seq<int> {
    cs.map_values(|c: (SearchHitView, int)| c.1)
}

/// Every candidate answer to a question: the full-text hits with their ranks, then the
/// related files, then the decisions that mention the question, with the ranks given
/// to files and to decisions.
pub open spec fn candidates(
    fts: Seq<RankedHit>,
    graph: KnowledgeGraph,
    ds: Seq<Decision>,
    query: Seq<char>,
    file_rank: int,
    decision_rank: int,
) -> Seq<(SearchHitView, int)> {
    ranked_values(fts) + with_rank(
        file_hits_of(knowledge::related_paths(graph.nodes@, text::lowercase_text(query))),
        file_rank,
    ) + with_rank(decision_hits_of(ds, text::lowercase_text(query)), decision_rank)
}

/// Appends hits, each with the same rank.
fn push_ranked(all: &mut Vec<RankedHit>, hits: &Vec<SearchHit>, rank: i128)
    ensures
        ranked_values(final(all)@) == ranked_values(old(all)@) + with_rank(hit_views(hits@), rank as int),
{
    let ghost start = ranked_values(all@);
    let mut i: usize = 0;
    while i < hits.len()
        invariant
            i <= hits@.len(),
            ranked_values(all@) == start + with_rank(hit_views(hits@.take(i as int)), rank as int),
        decreases hits@.len() - i,
    {
        let ghost prev = all@;
        all.push(RankedHit { hit: hits[i].duplicate(), rank_key: rank });
        assert(ranked_values(all@) =~= ranked_values(prev).push((hits@[i as int]@, rank as int)));
        assert(with_rank(hit_views(hits@.take(i + 1)), rank as int) =~= with_rank(
            hit_views(hits@.take(i as int)),
            rank as int,
        ).push((hits@[i as int]@, rank as int)));
        i = i + 1;
    }
    assert(hits@.take(hits@.len() as int) =~= hits@);
}

/// Answers a question: the full-text hits found for it, the files of the knowledge graph
/// related to it and the decisions that mention it, the best `limit` of them by
/// descending rank, hits of equal rank in that order.
pub fn ask(
    fts: Vec<RankedHit>,
    graph: &KnowledgeGraph,
    decisions: &Vec<Decision>,
    query: &str,
    file_rank: i128,
    decision_rank: i128,
    limit: usize,
) -> (r: Vec<SearchHit>)
    ensures
        ({
            let cs = candidates(fts@, *graph, decisions@, query@, file_rank as int, decision_rank as int);
            exists|ord: Seq<int>|
                #![trigger order::is_stable_desc_order(ranks_of(cs), ord)]
                {
                    &&& order::is_stable_desc_order(ranks_of(cs), ord)
                    &&& r@.len() == at_most(cs.len() as int, limit as int)
                    &&& forall|i: int| 0 <= i < r@.len() ==> #[trigger] r@[i]@ == cs[ord[i]].0
                }
        }),
{
    let ghost cs = candidates(fts@, *graph, decisions@, query@, file_rank as int, decision_rank as int);
    let mut all = fts;
    let files = find_related_files(graph, query);
    let fh = file_hits(&files);
    push_ranked(&mut all, &fh, file_rank);
    let dh = decision_hits(decisions, query);
    push_ranked(&mut all, &dh, decision_rank);
    assert(ranked_values(all@) =~= cs);
    assert(rank_keys(all@) =~= ranks_of(cs)) by {
        assert forall|k: int| 0 <= k < all@.len() implies #[trigger] rank_keys(all@)[k] == ranks_of(cs)[k] by {
            assert(ranked_values(all@)[k] == cs[k]);
        }
    }
    let r = rank_hits(&all, limit);
    proof {
        let ord = choose|ord: Seq<int>|
            #![trigger order::is_stable_desc_order(rank_keys(all@), ord)]
            {
                &&& order::is_stable_desc_order(rank_keys(all@), ord)
                &&& r@.len() == at_most(all@.len() as int, limit as int)
                &&& forall|i: int| 0 <= i < r@.len() ==> #[trigger] r@[i] == all@[ord[i]].hit
            };
        assert forall|i: int| 0 <= i < r@.len() implies #[trigger] r@[i]@ == cs[ord[i]].0 by {
            assert(0 <= ord[i] < all@.len());
            assert(ranked_values(all@)[ord[i]] == cs[ord[i]]);
        }
        assert(order::is_stable_desc_order(ranks_of(cs), ord));
    }
    r
}

} // verus!
