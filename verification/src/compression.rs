//! Token estimation and compression of continuation contexts.

use crate::models::{ContinuationContext, ImportantFile};
use crate::text::{self, append_str, join_strings, push_decimal};
use vstd::prelude::*;

verus! {

/// The estimated token count of a text: a quarter of its UTF-8 length, at least 1.
pub open spec fn estimated_tokens(s: Seq<char>) -> nat {
    let n = (vstd::utf8::encode_utf8(s).len() as usize) as nat / 4;
    if n >= 1 {
        n
    } else {
        1
    }
}

/// Estimates the token count of a text (a quarter of its byte length, at least 1).
pub fn estimate_tokens(text: &str) -> (r: usize)
    ensures
        r as nat == estimated_tokens(text@),
{
    let n = text.len() / 4;
    if n >= 1 {
        n
    } else {
        1
    }
}


/// Limits under which a context is compressed: how many items of each list to
/// keep, and at how many bytes to cut the overview and the architecture summary.
#[derive(Clone, Copy, Debug)]
pub struct CompressionBudget {
    pub keep_completed: usize,
    pub keep_decisions: usize,
    pub keep_risks: usize,
    pub keep_files: usize,
    pub overview_max_bytes: usize,
    pub summary_max_bytes: usize,
}

/// Compresses continuation contexts for smaller context windows.
pub struct CompressionEngine;

/// The UTF-8 bytes of a text.
pub open spec fn utf8_bytes(s: Seq<char>) -> Seq<u8> {
    vstd::utf8::encode_utf8(s)
}

/// Cutting `s` to `max` bytes falls on a character boundary (or needs no cut).
pub open spec fn cut_fits(s: Seq<char>, max: nat) -> bool {
    utf8_bytes(s).len() <= max || vstd::utf8::is_char_boundary(
        utf8_bytes(s),
        if max == 0 { 0 } else { max - 1 },
    )
}

/// `s` cut to `max` bytes: unchanged when it fits, else its first `max - 1`
/// bytes followed by `…`.
pub open spec fn byte_truncated(s: Seq<char>, max: nat) -> Seq<char> {
    if utf8_bytes(s).len() <= max {
        s
    } else {
        vstd::utf8::decode_utf8(utf8_bytes(s).subrange(0, if max == 0 { 0 } else { max - 1 })) + seq!['…']
    }
}

/// Cuts a text to at most `max` bytes, marking a cut with `…`.
pub fn truncate_text(text: &str, max: usize) -> (r: String)
    requires
        cut_fits(text@, max as nat),
    ensures
        r@ == byte_truncated(text@, max as nat),
{
    let bytes = text.as_bytes();
    if bytes.len() <= max {
        return text.to_owned();
    }
    let mid = if max == 0 { 0 } else { max - 1 };
    let (head, _) = text.split_at(mid);
    proof {
        vstd::utf8::encode_utf8_decode_utf8(head@);
    }
    let mut out = head.to_owned();
    text::push_char(&mut out, '…');
    out
}

/// `items` cut to their first `keep`.
pub open spec fn kept<T>(items: Seq<T>, keep: nat) -> Seq<T> {
    items.take(if keep < items.len() { keep as int } else { items.len() as int })
}

fn keep_strings(items: &Vec<String>, keep: usize) -> (r: Vec<String>)
    ensures
        r@ == kept(items@, keep as nat),
{
    let n = if keep < items.len() { keep } else { items.len() };
    let mut out: Vec<String> = Vec::new();
    let mut i: usize = 0;
    while i < n
        invariant
            n <= items@.len(),
            n as int == (if keep < items@.len() { keep as int } else { items@.len() as int }),
            i <= n,
            out@ == items@.take(i as int),
        decreases n - i,
    {
        out.push(items[i].clone());
        assert(out@ =~= items@.take(i + 1));
        i = i + 1;
    }
    out
}

fn keep_files(items: &Vec<ImportantFile>, keep: usize) -> (r: Vec<ImportantFile>)
    ensures
        r@ == kept(items@, keep as nat),
{
    let n = if keep < items.len() { keep } else { items.len() };
    let mut out: Vec<ImportantFile> = Vec::new();
    let mut i: usize = 0;
    while i < n
        invariant
            n <= items@.len(),
            n as int == (if keep < items@.len() { keep as int } else { items@.len() as int }),
            i <= n,
            out@ == items@.take(i as int),
        decreases n - i,
    {
        out.push(items[i].duplicate());
        assert(out@ =~= items@.take(i + 1));
        i = i + 1;
    }
    out
}

/// An important file as a compressed-prompt entry.
pub open spec fn key_file_line(f: ImportantFile) -> Seq<char> {
    f.path@ + " ("@ + f.reason@ + ")"@
}

/// The compressed-prompt entries of important files.
pub open spec fn key_file_lines(fs: Seq<ImportantFile>) -> Seq<Seq<char>> {
    fs.map_values(|f: ImportantFile| key_file_line(f))
}

fn key_file_strings(fs: &Vec<ImportantFile>) -> (r: Vec<String>)
    ensures
        text::texts(r@) == key_file_lines(fs@),
{
    let mut out: Vec<String> = Vec::new();
    let mut i: usize = 0;
    while i < fs.len()
        invariant
            i <= fs@.len(),
            out@.len() == i,
            forall|k: int| 0 <= k < i ==> #[trigger] out@[k]@ == key_file_line(fs@[k]),
        decreases fs@.len() - i,
    {
        let mut line = fs[i].path.clone();
        append_str(&mut line, " (");
        append_str(&mut line, fs[i].reason.as_str());
        append_str(&mut line, ")");
        out.push(line);
        i = i + 1;
    }
    assert(text::texts(out@) =~= key_file_lines(fs@));
    out
}

/// The compressed continuation prompt of a context.
pub open spec fn compressed_prompt(ctx: ContinuationContext) -> Seq<char> {
    "# ATHREIX NEXUS — COMPRESSED CONTINUATION CONTEXT\n\n## PROJECT\n"@
        + ctx.project_overview@
        + "\n\n## CURRENT TASK\n"@
        + ctx.current_task@
        + "\n\n## COMPLETED ("@
        + text::decimal_text(ctx.completed_work@.len())
        + ")\n"@
        + text::join_text(text::texts(ctx.completed_work@), "; "@)
        + "\n\n## DECISIONS ("@
        + text::decimal_text(ctx.important_decisions@.len())
        + ")\n"@
        + text::join_text(text::texts(ctx.important_decisions@), "; "@)
        + "\n\n## ARCHITECTURE\n"@
        + ctx.architecture_summary@
        + "\n\n## KEY FILES\n"@
        + text::join_text(key_file_lines(ctx.important_files@), ", "@)
        + "\n\n## RISKS\n"@
        + text::join_text(text::texts(ctx.risks@), "; "@)
        + "\n\n## NEXT ACTION\n"@
        + ctx.next_recommended_action@
        + "\n\n---\nContinue development. Respect recorded decisions. Do not re-ask resolved questions.\n"@
}

/// A piece that occurs in a text occurs, shifted, in any text the first one is
/// the middle of.
proof fn lemma_occurs_within(pre: Seq<char>, a: Seq<char>, post: Seq<char>, x: Seq<char>, i: int)
    requires
        text::occurs_at(a, x, i),
    ensures
        text::occurs_at(pre + a + post, x, pre.len() + i),
{
    assert((pre + a + post).subrange(pre.len() + i, pre.len() + i + x.len()) =~= a.subrange(i, i + x.len()));
}

/// Each item of a list occurs in the list joined by any separator.
proof fn lemma_item_in_join(items: Seq<Seq<char>>, sep: Seq<char>, k: int)
    requires
        0 <= k < items.len(),
    ensures
        text::seq_contains_text(text::join_text(items, sep), items[k]),
    decreases items.len(),
{
    if items.len() == 1 {
        assert(text::occurs_at(items[0], items[0], 0)) by {
            assert(items[0].subrange(0, items[0].len() as int) =~= items[0]);
        }
    } else if k == items.len() - 1 {
        let j = text::join_text(items.drop_last(), sep);
        assert(items[k].subrange(0, items[k].len() as int) =~= items[k]);
        lemma_occurs_within(j + sep, items[k], Seq::empty(), items[k], 0);
        assert(j + sep + items[k] + Seq::empty() =~= text::join_text(items, sep));
        assert(text::occurs_at(text::join_text(items, sep), items[k], (j + sep).len() as int));
    } else {
        lemma_item_in_join(items.drop_last(), sep, k);
        assert(items.drop_last()[k] == items[k]);
        let j = text::join_text(items.drop_last(), sep);
        let w = choose|w: int| #[trigger] text::occurs_at(j, items[k], w);
        lemma_occurs_within(Seq::empty(), j, sep + items.last(), items[k], w);
        assert(Seq::<char>::empty() + j + (sep + items.last()) =~= text::join_text(items, sep));
    }
}

/// The compressed prompt lists, under their headers, exactly the context's completed
/// work and decisions (each with its count, joined by `; `), its key files and its
/// risks, between the project, the current task and the next action.
pub proof fn law_compressed_prompt_sections(ctx: ContinuationContext)
    ensures
        text::seq_contains_text(
            compressed_prompt(ctx),
            "\n\n## COMPLETED ("@ + text::decimal_text(ctx.completed_work@.len()) + ")\n"@ + text::join_text(
                text::texts(ctx.completed_work@),
                "; "@,
            ) + "\n\n## DECISIONS ("@,
        ),
        text::seq_contains_text(
            compressed_prompt(ctx),
            "\n\n## DECISIONS ("@ + text::decimal_text(ctx.important_decisions@.len()) + ")\n"@ + text::join_text(
                text::texts(ctx.important_decisions@),
                "; "@,
            ) + "\n\n## ARCHITECTURE\n"@,
        ),
        text::seq_contains_text(
            compressed_prompt(ctx),
            "\n\n## RISKS\n"@ + text::join_text(text::texts(ctx.risks@), "; "@) + "\n\n## NEXT ACTION\n"@
                + ctx.next_recommended_action@,
        ),
        text::seq_contains_text(
            compressed_prompt(ctx),
            "## PROJECT\n"@ + ctx.project_overview@ + "\n\n## CURRENT TASK\n"@ + ctx.current_task@ + "\n\n## COMPLETED ("@,
        ),
{
    let p = compressed_prompt(ctx);
    let h0 = "# ATHREIX NEXUS — COMPRESSED CONTINUATION CONTEXT\n\n"@;
    let dc = text::decimal_text(ctx.completed_work@.len());
    let jc = text::join_text(text::texts(ctx.completed_work@), "; "@);
    let dd = text::decimal_text(ctx.important_decisions@.len());
    let jd = text::join_text(text::texts(ctx.important_decisions@), "; "@);
    let jf = text::join_text(key_file_lines(ctx.important_files@), ", "@);
    let jr = text::join_text(text::texts(ctx.risks@), "; "@);
    let tail = "\n\n---\nContinue development. Respect recorded decisions. Do not re-ask resolved questions.\n"@;
    let s_project = "## PROJECT\n"@ + ctx.project_overview@ + "\n\n## CURRENT TASK\n"@ + ctx.current_task@ + "\n\n## COMPLETED ("@;
    let s_completed = "\n\n## COMPLETED ("@ + dc + ")\n"@ + jc + "\n\n## DECISIONS ("@;
    let s_decisions = "\n\n## DECISIONS ("@ + dd + ")\n"@ + jd + "\n\n## ARCHITECTURE\n"@;
    let s_risks = "\n\n## RISKS\n"@ + jr + "\n\n## NEXT ACTION\n"@ + ctx.next_recommended_action@;
    let arch = ctx.architecture_summary@ + "\n\n## KEY FILES\n"@ + jf;
    reveal_strlit("# ATHREIX NEXUS — COMPRESSED CONTINUATION CONTEXT\n\n## PROJECT\n");
    reveal_strlit("# ATHREIX NEXUS — COMPRESSED CONTINUATION CONTEXT\n\n");
    reveal_strlit("## PROJECT\n");
    reveal_strlit("\n\n## COMPLETED (");
    reveal_strlit("\n\n## DECISIONS (");
    reveal_strlit("\n\n## ARCHITECTURE\n");
    reveal_strlit("\n\n## RISKS\n");
    reveal_strlit("\n\n## NEXT ACTION\n");
    reveal_strlit("\n\n## CURRENT TASK\n");
    reveal_strlit(")\n");
    reveal_strlit("\n\n## KEY FILES\n");
    assert("# ATHREIX NEXUS — COMPRESSED CONTINUATION CONTEXT\n\n## PROJECT\n"@ =~= h0 + "## PROJECT\n"@);
    assert(text::occurs_at(p, s_project, h0.len() as int)) by {
        assert(p.subrange(h0.len() as int, (h0.len() + s_project.len()) as int) =~= s_project);
    }
    let o1 = (h0 + "## PROJECT\n"@ + ctx.project_overview@ + "\n\n## CURRENT TASK\n"@ + ctx.current_task@).len();
    assert(text::occurs_at(p, s_completed, o1 as int)) by {
        assert(p.subrange(o1 as int, (o1 + s_completed.len()) as int) =~= s_completed);
    }
    let o2 = o1 + ("\n\n## COMPLETED ("@ + dc + ")\n"@ + jc).len();
    assert(text::occurs_at(p, s_decisions, o2 as int)) by {
        assert(p.subrange(o2 as int, (o2 + s_decisions.len()) as int) =~= s_decisions);
    }
    let o3 = o2 + ("\n\n## DECISIONS ("@ + dd + ")\n"@ + jd + "\n\n## ARCHITECTURE\n"@ + arch).len();
    assert(text::occurs_at(p, s_risks, o3 as int)) by {
        assert(p.subrange(o3 as int, (o3 + s_risks.len()) as int) =~= s_risks);
    }
}

/// Every decision kept by a compression is written in its compressed prompt.
pub proof fn law_kept_decisions_in_prompt(
    ctx: ContinuationContext,
    max_tokens: nat,
    budget: CompressionBudget,
    r: ContinuationContext,
    k: int,
)
    requires
        is_compression(ctx, max_tokens, budget, r),
        estimated_tokens(ctx.ai_continuation_prompt@) > max_tokens,
        0 <= k < r.important_decisions@.len(),
    ensures
        r.important_decisions@[k] == ctx.important_decisions@[k],
        text::seq_contains_text(r.ai_continuation_prompt@, r.important_decisions@[k]@),
{
    law_compressed_prompt_sections(r);
    let dd = text::decimal_text(r.important_decisions@.len());
    let jd = text::join_text(text::texts(r.important_decisions@), "; "@);
    let sec = "\n\n## DECISIONS ("@ + dd + ")\n"@ + jd + "\n\n## ARCHITECTURE\n"@;
    lemma_item_in_join(text::texts(r.important_decisions@), "; "@, k);
    let w = choose|w: int| #[trigger] text::occurs_at(jd, r.important_decisions@[k]@, w);
    lemma_occurs_within("\n\n## DECISIONS ("@ + dd + ")\n"@, jd, "\n\n## ARCHITECTURE\n"@, r.important_decisions@[k]@, w);
    let v = choose|v: int| #[trigger] text::occurs_at(compressed_prompt(r), sec, v);
    let off = ("\n\n## DECISIONS ("@ + dd + ")\n"@).len() + w;
    assert(compressed_prompt(r).subrange(v + off, v + off + r.important_decisions@[k]@.len()) =~= sec.subrange(
        off,
        off + r.important_decisions@[k]@.len(),
    ));
    assert(text::occurs_at(compressed_prompt(r), r.important_decisions@[k]@, v + off));
}

/// Builds the compressed continuation prompt of a context.
pub fn build_compressed_prompt(ctx: &ContinuationContext) -> (r: String)
    ensures
        r@ == compressed_prompt(*ctx),
{
    let mut out = "# ATHREIX NEXUS — COMPRESSED CONTINUATION CONTEXT\n\n## PROJECT\n".to_owned();
    append_str(&mut out, ctx.project_overview.as_str());
    append_str(&mut out, "\n\n## CURRENT TASK\n");
    append_str(&mut out, ctx.current_task.as_str());
    append_str(&mut out, "\n\n## COMPLETED (");
    push_decimal(&mut out, ctx.completed_work.len());
    append_str(&mut out, ")\n");
    let h1 = join_strings(&ctx.completed_work, "; ");
    append_str(&mut out, h1.as_str());
    append_str(&mut out, "\n\n## DECISIONS (");
    push_decimal(&mut out, ctx.important_decisions.len());
    append_str(&mut out, ")\n");
    let h2 = join_strings(&ctx.important_decisions, "; ");
    append_str(&mut out, h2.as_str());
    append_str(&mut out, "\n\n## ARCHITECTURE\n");
    append_str(&mut out, ctx.architecture_summary.as_str());
    append_str(&mut out, "\n\n## KEY FILES\n");
    let h3 = join_strings(&key_file_strings(&ctx.important_files), ", ");
    append_str(&mut out, h3.as_str());
    append_str(&mut out, "\n\n## RISKS\n");
    let h4 = join_strings(&ctx.risks, "; ");
    append_str(&mut out, h4.as_str());
    append_str(&mut out, "\n\n## NEXT ACTION\n");
    append_str(&mut out, ctx.next_recommended_action.as_str());
    append_str(&mut out, "\n\n---\nContinue development. Respect recorded decisions. Do not re-ask resolved questions.\n");
    out
}

/// How many of `n` items a list keeps under a budget of `raw`: at least one, at most all.
pub open spec fn clamped_keep(raw: nat, n: nat) -> nat {
    if raw == 0 {
        if n == 0 { 0 } else { 1 }
    } else if raw < n {
        raw
    } else {
        n
    }
}

/// The number of items a list of `n` keeps under a budget of `raw`: never fewer
/// than one (when there is one), never more than `n`.
pub fn keep_count(raw: usize, n: usize) -> (r: usize)
    ensures
        r == clamped_keep(raw as nat, n as nat),
{
    let k = if raw == 0 { 1 } else { raw };
    if k < n { k } else { n }
}

/// `r` is `ctx` compressed under `max_tokens` and `budget`.
pub open spec fn is_compression(ctx: ContinuationContext, max_tokens: nat, budget: CompressionBudget, r: ContinuationContext) -> bool {
    let est = estimated_tokens(ctx.ai_continuation_prompt@);
    &&& r.compressed
    &&& r.generated_at == ctx.generated_at
    &&& r.current_task == ctx.current_task
    &&& r.next_recommended_action == ctx.next_recommended_action
    &&& if est <= max_tokens {
        &&& r.project_overview == ctx.project_overview
        &&& r.completed_work@ == ctx.completed_work@
        &&& r.important_decisions@ == ctx.important_decisions@
        &&& r.important_files@ == ctx.important_files@
        &&& r.architecture_summary == ctx.architecture_summary
        &&& r.risks@ == ctx.risks@
        &&& r.ai_continuation_prompt == ctx.ai_continuation_prompt
        &&& r.token_estimate == est
    } else {
        &&& r.completed_work@ == kept(ctx.completed_work@, clamped_keep(budget.keep_completed as nat, ctx.completed_work@.len()))
        &&& r.important_decisions@ == kept(ctx.important_decisions@, clamped_keep(budget.keep_decisions as nat, ctx.important_decisions@.len()))
        &&& r.risks@ == kept(ctx.risks@, clamped_keep(budget.keep_risks as nat, ctx.risks@.len()))
        &&& r.important_files@ == kept(ctx.important_files@, budget.keep_files as nat)
        &&& r.architecture_summary@ == byte_truncated(ctx.architecture_summary@, budget.summary_max_bytes as nat)
        &&& r.project_overview@ == byte_truncated(ctx.project_overview@, budget.overview_max_bytes as nat)
        &&& r.ai_continuation_prompt@ == compressed_prompt(r)
        &&& r.token_estimate == estimated_tokens(r.ai_continuation_prompt@)
    }
}

impl CompressionEngine {
    /// Marks a context compressed. When its prompt is estimated over
    /// `max_tokens`, its lists and texts are cut as `budget` says (the completed
    /// work, decisions and risks keep at least one item each) and the prompt
    /// is rebuilt in compressed form; the token estimate is always refreshed.
    pub fn compress_with_budget(ctx: &ContinuationContext, max_tokens: usize, budget: &CompressionBudget) -> (r: ContinuationContext)
        requires
            estimated_tokens(ctx.ai_continuation_prompt@) > max_tokens ==> cut_fits(ctx.architecture_summary@, budget.summary_max_bytes as nat)
                && cut_fits(ctx.project_overview@, budget.overview_max_bytes as nat),
        ensures
            is_compression(*ctx, max_tokens as nat, *budget, r),
    {
        let est = estimate_tokens(ctx.ai_continuation_prompt.as_str());
        if est <= max_tokens {
            return ContinuationContext {
                generated_at: ctx.generated_at,
                project_overview: ctx.project_overview.clone(),
                completed_work: text::dup_strings(&ctx.completed_work),
                current_task: ctx.current_task.clone(),
                important_decisions: text::dup_strings(&ctx.important_decisions),
                important_files: {
                    let fs = keep_files(&ctx.important_files, ctx.important_files.len());
                    assert(ctx.important_files@.take(ctx.important_files@.len() as int) =~= ctx.important_files@);
                    fs
                },
                architecture_summary: ctx.architecture_summary.clone(),
                risks: text::dup_strings(&ctx.risks),
                next_recommended_action: ctx.next_recommended_action.clone(),
                ai_continuation_prompt: ctx.ai_continuation_prompt.clone(),
                compressed: true,
                token_estimate: est,
            };
        }
        let mut r = ContinuationContext {
            generated_at: ctx.generated_at,
            project_overview: truncate_text(ctx.project_overview.as_str(), budget.overview_max_bytes),
            completed_work: keep_strings(&ctx.completed_work, keep_count(budget.keep_completed, ctx.completed_work.len())),
            current_task: ctx.current_task.clone(),
            important_decisions: keep_strings(&ctx.important_decisions, keep_count(budget.keep_decisions, ctx.important_decisions.len())),
            important_files: keep_files(&ctx.important_files, budget.keep_files),
            architecture_summary: truncate_text(ctx.architecture_summary.as_str(), budget.summary_max_bytes),
            risks: keep_strings(&ctx.risks, keep_count(budget.keep_risks, ctx.risks.len())),
            next_recommended_action: ctx.next_recommended_action.clone(),
            ai_continuation_prompt: String::new(),
            compressed: true,
            token_estimate: 0,
        };
        let prompt = build_compressed_prompt(&r);
        r.ai_continuation_prompt = prompt;
        r.token_estimate = estimate_tokens(r.ai_continuation_prompt.as_str());
        r
    }
}

/// The token estimate of any text is at least one.
pub proof fn law_estimate_at_least_one(s: Seq<char>)
    ensures
        estimated_tokens(s) >= 1,
{
}

/// Compression only shortens: every list of the compressed context is a prefix of the
/// uncompressed context's, the completed work, decisions and risks each keep at
/// least one item when they had one, and the current task and next action are kept.
pub proof fn law_compression_keeps_prefixes(
    ctx: ContinuationContext,
    max_tokens: nat,
    budget: CompressionBudget,
    r: ContinuationContext,
)
    requires
        is_compression(ctx, max_tokens, budget, r),
    ensures
        r.compressed,
        r.current_task == ctx.current_task,
        r.next_recommended_action == ctx.next_recommended_action,
        r.completed_work@.len() <= ctx.completed_work@.len(),
        r.completed_work@ == ctx.completed_work@.take(r.completed_work@.len() as int),
        r.important_decisions@.len() <= ctx.important_decisions@.len(),
        r.important_decisions@ == ctx.important_decisions@.take(r.important_decisions@.len() as int),
        r.risks@.len() <= ctx.risks@.len(),
        r.risks@ == ctx.risks@.take(r.risks@.len() as int),
        r.important_files@.len() <= ctx.important_files@.len(),
        r.important_files@ == ctx.important_files@.take(r.important_files@.len() as int),
        ctx.completed_work@.len() > 0 ==> r.completed_work@.len() > 0,
        ctx.important_decisions@.len() > 0 ==> r.important_decisions@.len() > 0,
        ctx.risks@.len() > 0 ==> r.risks@.len() > 0,
{
    if estimated_tokens(ctx.ai_continuation_prompt@) <= max_tokens {
        assert(ctx.completed_work@.take(ctx.completed_work@.len() as int) =~= ctx.completed_work@);
        assert(ctx.important_decisions@.take(ctx.important_decisions@.len() as int) =~= ctx.important_decisions@);
        assert(ctx.risks@.take(ctx.risks@.len() as int) =~= ctx.risks@);
        assert(ctx.important_files@.take(ctx.important_files@.len() as int) =~= ctx.important_files@);
    }
}

} // verus!
