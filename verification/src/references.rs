//! Choosing the pieces of manual pages that go along with a request, and
//! what to do when the request turns out too large.

use crate::explain::cut_to;
use crate::explain::extract_options_section;
use crate::explain::options_of;
use crate::explain::truncate_to_limit;
use crate::literal::digits_of;
use crate::literal::render_u32;
use crate::text::owned;
use vstd::prelude::*;
use vstd::string::StringSliceAdditionalSpecFns;

verus! {

/// A piece of a manual page, with its size in bytes.
#[derive(Debug, PartialEq, Eq)]
pub struct ManReference {
    pub command: String,
    pub content: String,
    pub char_count: usize,
}

/// The mathematical value of a [`ManReference`].
pub ghost struct RefSpec {
    pub command: Seq<char>,
    pub content: Seq<char>,
    pub char_count: nat,
}

impl View for ManReference {
    type V = RefSpec;

    open spec fn view(&self) -> RefSpec {
        RefSpec {
            command: self.command@,
            content: self.content@,
            char_count: self.char_count as nat,
        }
    }
}

/// The views of a list of references.
pub open spec fn ref_views(refs: Seq<ManReference>) -> Seq<RefSpec> {
    refs.map_values(|r: ManReference| r@)
}

/// What is kept of a manual page: its options, or its beginning where it
/// has no section of options, cut to the limit.
pub open spec fn page_content(raw: Seq<char>, max: int) -> Seq<char> {
    cut_to(
        match options_of(raw) {
            Some(s) => s,
            None => cut_to(raw, max),
        },
        max,
    )
}

/// The text that is sent along for a command with the manual page `raw`: a
/// title and what is kept of the page; nothing where nothing is kept.
pub open spec fn page_text(command: Seq<char>, raw: Seq<char>, max: int) -> Option<Seq<char>> {
    if page_content(raw, max).len() == 0 {
        None
    } else {
        Some("# "@ + command + "(1)\n\n"@ + page_content(raw, max))
    }
}

/// Makes the text that is sent along for a command; see [`page_text`].
pub fn man_page_text(command: &str, raw: &str, max_chars: usize) -> (r: Option<String>)
    ensures
        crate::layers::opt_view(r) == page_text(command@, raw@, max_chars as int),
{
    let content = match extract_options_section(raw) {
        Some(s) => s,
        None => truncate_to_limit(raw, max_chars),
    };
    let capped = truncate_to_limit(content.as_str(), max_chars);
    if capped.as_str().is_empty() {
        None
    } else {
        let mut r = owned("# ");
        r.push_str(command);
        r.push_str("(1)\n\n");
        r.push_str(capped.as_str());
        Some(r)
    }
}

/// The list `sorted` with `x` put in behind every reference that is no
/// larger than `x`.
pub open spec fn insert_by_size(sorted: Seq<RefSpec>, x: RefSpec) -> Seq<RefSpec>
    decreases sorted.len(),
{
    if sorted.len() == 0 {
        seq![x]
    } else if sorted.last().char_count <= x.char_count {
        sorted.push(x)
    } else {
        insert_by_size(sorted.drop_last(), x).push(sorted.last())
    }
}

/// The references in the order of their sizes, the smallest first;
/// references of the same size keep their order.
pub open spec fn sorted_by_size(refs: Seq<RefSpec>) -> Seq<RefSpec>
    decreases refs.len(),
{
    if refs.len() == 0 {
        Seq::empty()
    } else {
        insert_by_size(sorted_by_size(refs.drop_last()), refs.last())
    }
}

/// Whether the references stand in the order of their sizes.
pub open spec fn in_size_order(refs: Seq<RefSpec>) -> bool {
    forall|i: int, j: int| 0 <= i < j < refs.len() ==> refs[i].char_count <= refs[j].char_count
}

/// Putting a reference in at the place where the larger ones begin is
/// putting it in by size.
pub proof fn lemma_insert_at(sorted: Seq<RefSpec>, x: RefSpec, pos: int)
    requires
        0 <= pos <= sorted.len(),
        forall|j: int| pos <= j < sorted.len() ==> sorted[j].char_count > x.char_count,
        pos == 0 || sorted[pos - 1].char_count <= x.char_count,
    ensures
        insert_by_size(sorted, x) == sorted.insert(pos, x),
    decreases sorted.len(),
{
    if sorted.len() == 0 {
        assert(sorted.insert(pos, x) =~= seq![x]);
    } else if pos == sorted.len() {
        assert(sorted.insert(pos, x) =~= sorted.push(x));
    } else {
        let head = sorted.drop_last();
        assert forall|j: int| pos <= j < head.len() implies head[j].char_count > x.char_count by {
            assert(head[j] == sorted[j]);
        }
        if pos > 0 {
            assert(head[pos - 1] == sorted[pos - 1]);
        }
        lemma_insert_at(head, x, pos);
        assert(sorted.insert(pos, x) =~= head.insert(pos, x).push(sorted.last()));
    }
}

/// Putting a reference in by size keeps the order of sizes and adds just
/// that reference.
pub proof fn lemma_insert_keeps_order(sorted: Seq<RefSpec>, x: RefSpec)
    requires
        in_size_order(sorted),
    ensures
        in_size_order(insert_by_size(sorted, x)),
        insert_by_size(sorted, x).to_multiset() == sorted.to_multiset().insert(x),
    decreases sorted.len(),
{
    broadcast use vstd::seq_lib::group_to_multiset_ensures;

    if sorted.len() == 0 {
        assert(seq![x] =~= Seq::<RefSpec>::empty().push(x));
    } else if sorted.last().char_count <= x.char_count {
        let r = sorted.push(x);
        assert forall|i: int, j: int| 0 <= i < j < r.len() implies r[i].char_count
            <= r[j].char_count by {
            if j == sorted.len() {
                if i < sorted.len() - 1 {
                    assert(sorted[i].char_count <= sorted[sorted.len() - 1].char_count);
                }
            }
        }
    } else {
        let head = sorted.drop_last();
        assert(in_size_order(head));
        lemma_insert_keeps_order(head, x);
        let inner = insert_by_size(head, x);
        let r = inner.push(sorted.last());
        assert(sorted =~= head.push(sorted.last()));
        assert forall|i: int, j: int| 0 <= i < j < r.len() implies r[i].char_count
            <= r[j].char_count by {
            if j == inner.len() {
                assert(inner.to_multiset().count(inner[i]) > 0);
                if inner[i] != x {
                    assert(head.to_multiset().count(inner[i]) > 0);
                    let k = choose|k: int| 0 <= k < head.len() && head[k] == inner[i];
                    assert(sorted[k].char_count <= sorted[sorted.len() - 1].char_count);
                }
            }
        }
        assert(r.to_multiset() =~= sorted.to_multiset().insert(x));
    }
}

/// Sorting by size gives the same references in the order of their sizes.
pub proof fn law_sorting_orders_and_keeps(refs: Seq<RefSpec>)
    ensures
        in_size_order(sorted_by_size(refs)),
        sorted_by_size(refs).to_multiset() == refs.to_multiset(),
    decreases refs.len(),
{
    broadcast use vstd::seq_lib::group_to_multiset_ensures;

    if refs.len() > 0 {
        law_sorting_orders_and_keeps(refs.drop_last());
        lemma_insert_keeps_order(sorted_by_size(refs.drop_last()), refs.last());
        assert(refs =~= refs.drop_last().push(refs.last()));
    }
}

/// The size of what is kept of the references `refs` under the limit `max`.
pub open spec fn kept_size(refs: Seq<RefSpec>, max: nat) -> nat
    decreases refs.len(),
{
    if refs.len() == 0 {
        0
    } else {
        let before = kept_size(refs.drop_last(), max);
        if before + refs.last().char_count <= max {
            before + refs.last().char_count
        } else {
            before
        }
    }
}

/// What is kept of the references `refs` under the limit `max`: going
/// through them in order, every reference that still fits.
pub open spec fn kept(refs: Seq<RefSpec>, max: nat) -> Seq<RefSpec>
    decreases refs.len(),
{
    if refs.len() == 0 {
        Seq::empty()
    } else {
        let head = kept(refs.drop_last(), max);
        if kept_size(refs.drop_last(), max) + refs.last().char_count <= max {
            head.push(refs.last())
        } else {
            head
        }
    }
}

/// What is kept never exceeds the limit.
pub proof fn law_kept_within_limit(refs: Seq<RefSpec>, max: nat)
    ensures
        kept_size(refs, max) <= max,
    decreases refs.len(),
{
    if refs.len() > 0 {
        law_kept_within_limit(refs.drop_last(), max);
    }
}

/// The references that go along with a request: sorted by size, and of
/// those every one that still fits under the limit.
pub open spec fn selected(refs: Seq<RefSpec>, max: nat) -> Seq<RefSpec> {
    kept(sorted_by_size(refs), max)
}

fn copy_reference(r: &ManReference) -> (c: ManReference)
    ensures
        c@ == r@,
{
    ManReference { command: r.command.clone(), content: r.content.clone(), char_count: r.char_count }
}

/// Sorts references by size; see [`sorted_by_size`].
pub fn sort_references(refs: &Vec<ManReference>) -> (r: Vec<ManReference>)
    ensures
        ref_views(r@) == sorted_by_size(ref_views(refs@)),
{
    let ghost all = ref_views(refs@);
    let mut out: Vec<ManReference> = Vec::new();
    let mut i: usize = 0;
    proof {
        assert(all.take(0) =~= Seq::<RefSpec>::empty());
        assert(ref_views(out@) =~= Seq::<RefSpec>::empty());
    }
    while i < refs.len()
        invariant
            i <= refs.len(),
            all == ref_views(refs@),
            out@.len() == i,
            ref_views(out@) == sorted_by_size(all.take(i as int)),
        decreases refs.len() - i,
    {
        proof {
            let next = all.take(i as int + 1);
            assert(next.drop_last() =~= all.take(i as int));
            assert(next.last() == refs@[i as int]@);
        }
        let x = copy_reference(&refs[i]);
        let mut pos: usize = out.len();
        while pos > 0 && out[pos - 1].char_count > x.char_count
            invariant
                pos <= out.len(),
                forall|j: int| pos <= j < out@.len() ==> ref_views(out@)[j].char_count > x@.char_count,
            decreases pos,
        {
            pos = pos - 1;
        }
        let ghost before = ref_views(out@);
        proof {
            lemma_insert_at(before, x@, pos as int);
        }
        out.insert(pos, x);
        proof {
            assert(ref_views(out@) =~= before.insert(pos as int, x@));
        }
        i = i + 1;
    }
    proof {
        assert(all.take(refs@.len() as int) =~= all);
    }
    out
}

/// Chooses the references that go along with a request; see [`selected`].
pub fn select_references(refs: &Vec<ManReference>, max_total_chars: u32) -> (r: Vec<ManReference>)
    ensures
        ref_views(r@) == selected(ref_views(refs@), max_total_chars as nat),
{
    let sorted = sort_references(refs);
    let ghost all = ref_views(sorted@);
    let max: usize = max_total_chars as usize;
    let mut out: Vec<ManReference> = Vec::new();
    let mut total: usize = 0;
    let mut i: usize = 0;
    proof {
        assert(all.take(0) =~= Seq::<RefSpec>::empty());
        assert(ref_views(out@) =~= Seq::<RefSpec>::empty());
    }
    while i < sorted.len()
        invariant
            i <= sorted.len(),
            all == ref_views(sorted@),
            max == max_total_chars,
            total == kept_size(all.take(i as int), max as nat),
            total <= max,
            ref_views(out@) == kept(all.take(i as int), max as nat),
        decreases sorted.len() - i,
    {
        proof {
            let next = all.take(i as int + 1);
            assert(next.drop_last() =~= all.take(i as int));
            assert(next.last() == sorted@[i as int]@);
        }
        let count = sorted[i].char_count;
        if count <= max - total {
            total = total + count;
            let ghost before = ref_views(out@);
            let c = copy_reference(&sorted[i]);
            out.push(c);
            proof {
                assert(ref_views(out@) =~= before.push(c@));
            }
        }
        i = i + 1;
    }
    proof {
        assert(all.take(sorted@.len() as int) =~= all);
    }
    out
}

/// The references for the manual pages `pages`, each a command and its
/// page: the text that is sent along, with its size in bytes. Every page is
/// cut to `max_per_page`; a page of which nothing is kept gives no
/// reference.
pub open spec fn references_of(pages: Seq<(String, String)>, max_per_page: int) -> Seq<RefSpec>
    decreases pages.len(),
{
    if pages.len() == 0 {
        Seq::empty()
    } else {
        let head = references_of(pages.drop_last(), max_per_page);
        let (command, raw) = pages.last();
        match page_text(command@, raw@, max_per_page) {
            Some(text) => head.push(
                RefSpec { command: command@, content: text, char_count: byte_len(text) },
            ),
            None => head,
        }
    }
}

/// The number of bytes that a text takes, as a string reports it.
pub open spec fn byte_len(text: Seq<char>) -> nat {
    (vstd::utf8::encode_utf8(text).len() as usize) as nat
}

/// Makes the references for the manual pages `pages` and chooses those that
/// go along with a request of at most `max_total_chars`: every page may
/// take half of that, and the smallest references are kept first.
pub fn gather_man_references(pages: &Vec<(String, String)>, max_total_chars: u32) -> (r: Vec<
    ManReference,
>)
    ensures
        ref_views(r@) == selected(
            references_of(pages@, (max_total_chars as int) / 2),
            max_total_chars as nat,
        ),
{
    let max_per_page: usize = (max_total_chars as usize) / 2;
    let mut refs: Vec<ManReference> = Vec::new();
    let mut i: usize = 0;
    proof {
        assert(pages@.take(0) =~= Seq::<(String, String)>::empty());
        assert(ref_views(refs@) =~= Seq::<RefSpec>::empty());
    }
    while i < pages.len()
        invariant
            i <= pages.len(),
            max_per_page == (max_total_chars as int) / 2,
            ref_views(refs@) == references_of(pages@.take(i as int), max_per_page as int),
        decreases pages.len() - i,
    {
        proof {
            let next = pages@.take(i as int + 1);
            assert(next.drop_last() =~= pages@.take(i as int));
            assert(next.last() == pages@[i as int]);
        }
        match man_page_text(pages[i].0.as_str(), pages[i].1.as_str(), max_per_page) {
            Some(content) => {
                let ghost before = ref_views(refs@);
                let char_count = content.as_str().len();
                let reference = ManReference { command: pages[i].0.clone(), content, char_count };
                refs.push(reference);
                proof {
                    assert(ref_views(refs@) =~= before.push(reference@));
                }
            },
            None => {},
        }
        i = i + 1;
    }
    proof {
        assert(pages@.take(pages@.len() as int) =~= pages@);
    }
    select_references(&refs, max_total_chars)
}

/// What to do with the answer to a request for an explanation.
#[derive(Debug, PartialEq, Eq)]
pub enum ExplainStep {
    /// Read the answer.
    Parse,
    /// Drop the smallest reference and send the request again.
    DropAndRetry,
    /// Give up with a message.
    Fail(String),
}

/// A text, or `fallback` where the text is empty.
pub open spec fn or_words(text: Seq<char>, fallback: Seq<char>) -> Seq<char> {
    if text.len() == 0 {
        fallback
    } else {
        text
    }
}

/// The message for a request that stays too large.
pub open spec fn too_large(body: Seq<char>) -> Seq<char> {
    "Request too large (HTTP 413): "@ + or_words(body, "context length exceeded"@)
}

/// The message for an answer with a status that is an error.
pub open spec fn status_failure(status: u16, body: Seq<char>) -> Seq<char> {
    "HTTP "@ + digits_of(status as nat) + " error: "@ + or_words(body, "Unknown error"@)
}

/// The mathematical value of an [`ExplainStep`].
pub ghost enum StepSpec {
    Parse,
    DropAndRetry,
    Fail(Seq<char>),
}

impl View for ExplainStep {
    type V = StepSpec;

    open spec fn view(&self) -> StepSpec {
        match self {
            ExplainStep::Parse => StepSpec::Parse,
            ExplainStep::DropAndRetry => StepSpec::DropAndRetry,
            ExplainStep::Fail(m) => StepSpec::Fail(m@),
        }
    }
}

/// What to do with the answer to a request for an explanation. A request
/// that was too large is sent again without its smallest reference as long
/// as it has one; any other status outside the two hundreds ends the
/// request; otherwise the answer is read.
pub open spec fn response_step(status: u16, body: Seq<char>, references_left: nat) -> StepSpec {
    if status == 413 {
        if references_left == 0 {
            StepSpec::Fail(too_large(body))
        } else {
            StepSpec::DropAndRetry
        }
    } else if status < 200 || status >= 300 {
        StepSpec::Fail(status_failure(status, body))
    } else {
        StepSpec::Parse
    }
}

/// Decides what to do with the answer to a request for an explanation; see
/// [`response_step`].
pub fn after_response(status: u16, body: &str, references_left: usize) -> (r: ExplainStep)
    ensures
        r@ == response_step(status, body@, references_left as nat),
{
    if status == 413 {
        if references_left == 0 {
            let mut m = owned("Request too large (HTTP 413): ");
            if body.is_empty() {
                m.push_str("context length exceeded");
            } else {
                m.push_str(body);
            }
            ExplainStep::Fail(m)
        } else {
            ExplainStep::DropAndRetry
        }
    } else if status < 200 || status >= 300 {
        let mut m = owned("HTTP ");
        let digits = render_u32(status as u32);
        m.push_str(digits.as_str());
        m.push_str(" error: ");
        if body.is_empty() {
            m.push_str("Unknown error");
        } else {
            m.push_str(body);
        }
        ExplainStep::Fail(m)
    } else {
        ExplainStep::Parse
    }
}

} // verus!
