//! Explaining a command: the instructions for the model, the shape of its
//! answer, and the pieces of manual pages that are sent along.

use crate::hints::opt_str;
use crate::text::begins_with;
use crate::text::chars_of;
use crate::text::join;
use crate::text::joined;
use crate::text::lines;
use crate::text::lines_of;
use crate::text::owned;
use crate::text::slices;
use crate::text::starts_with;
use crate::text::text_of_range;
use crate::text::trim;
use crate::text::trimmed;
use crate::text::views;
use crate::tree::entries_view;
use crate::tree::items_view;
use crate::tree::lemma_list_view;
use crate::tree::lemma_table_view;
use crate::tree::Node;
use crate::tree::Tree;
use vstd::prelude::*;

verus! {

pub const PROMPT_0: &'static str = "You are a shell command explainer. The user will provide a shell command, and you will explain it by breaking it down into its components.\n\n";

pub const PROMPT_1: &'static str = "For each segment, you MUST:\n1. First identify the exact segment from the command\n2. Look up the segment in the provided documentation and quote it VERBATIM in \"citation\"\n3. Rate your citation confidence (1.0 = exact quote from docs, 0.0 = no docs or guessing)\n4. Then write the explanation (prefix + segment + suffix forms a natural sentence)\n\n";

pub const PROMPT_2: &'static str = "Output format: JSON with \"synopsis\" and \"explanations\" array.\n\nEach explanation node has these fields:\n- \"segment\": The exact token from the command (will be highlighted)\n";

pub const PROMPT_3: &'static str = "- \"citation\": Verbatim quote from provided documentation, or null if unavailable\n- \"citation_confidence\": 0.0-1.0 confidence in citation accuracy\n";

pub const PROMPT_4: &'static str = "- \"prefix\": Optional text before segment (start of sentence)\n- \"suffix\": Text after segment (completes the sentence)\n- \"children\": Nested explanations for sub-components (combined flags or control flow)\n\nThe rendered output is: \"{prefix} {segment} {suffix}\" - this MUST be a natural sentence.\n\nIMPORTANT: \"segment\" must be EXACT characters from the command, no escaping changes.\n";

pub const PROMPT_5: &'static str = "\"citation\" must be VERBATIM from the documentation, i.e., copy-paste, don't paraphrase.\nBase your explanation on the citation, not prior knowledge.\n";

pub const PROMPT_6: &'static str = "\nExample:\n";

pub const PROMPT_7_CITED: &'static str = "{\n  \"segment\": \"-x\",\n  \"citation\": \"-x, --example  Description of what this option does.\",\n  \"citation_confidence\": 1.0,\n  \"prefix\": null,\n  \"suffix\": \"does something specific.\",\n  \"children\": []\n}\n\n";

pub const PROMPT_7_PLAIN: &'static str = "{\n  \"segment\": \"-x\",\n  \"prefix\": null,\n  \"suffix\": \"does something specific.\",\n  \"children\": []\n}\n\n";

pub const PROMPT_8: &'static str = "Rules:\n1. \"segment\" MUST be an exact substring from the command\n2. \"{prefix} {segment} {suffix}\" must read as a complete sentence\n3. Use \"children\" to break down combined flags (e.g., \"-abc\" into \"-a\", \"-b\", \"-c\") or complex control flow (e.g., loops, conditionals, pipelines)\n4. Keep explanations concise\n";

pub const PROMPT_9: &'static str = "5. USE the provided documentation - cite verbatim and base explanation on it\n";
/// The request to answer in a given language.
pub open spec fn locale_hint(locale: Option<Seq<char>>) -> Seq<char> {
    match locale {
        Some(loc) => "Respond in the user's preferred locale/language: "@ + loc + "\n\n"@,
        None => Seq::empty(),
    }
}

/// The instructions for the model. With citations, the model is told to
/// quote the documentation that is sent along; with a locale, to answer in
/// that language.
pub open spec fn system_prompt(with_citations: bool, locale: Option<Seq<char>>) -> Seq<char> {
    PROMPT_0@
        + locale_hint(locale)
        + (if with_citations {
        PROMPT_1@
    } else {
        Seq::empty()
    })
        + PROMPT_2@
        + (if with_citations {
        PROMPT_3@
    } else {
        Seq::empty()
    })
        + PROMPT_4@
        + (if with_citations {
        PROMPT_5@
    } else {
        Seq::empty()
    })
        + PROMPT_6@
        + (if with_citations {
        PROMPT_7_CITED@
    } else {
        PROMPT_7_PLAIN@
    })
        + PROMPT_8@
        + (if with_citations {
        PROMPT_9@
    } else {
        Seq::empty()
    })
}

/// Writes the instructions for the model; see [`system_prompt`].
pub fn build_system_prompt(with_citations: bool, locale: Option<&str>) -> (prompt: String)
    ensures
        prompt@ == system_prompt(with_citations, opt_str(locale)),
{
    let mut prompt = String::new();
    proof {
        assert(prompt@ =~= Seq::<char>::empty());
    }
    prompt.push_str(PROMPT_0);
    match locale {
        Some(loc) => {
            prompt.push_str("Respond in the user's preferred locale/language: ");
            prompt.push_str(loc);
            prompt.push_str("\n\n");
        },
        None => {},
    }
    if with_citations {
        prompt.push_str(PROMPT_1);
    }
    prompt.push_str(PROMPT_2);
    if with_citations {
        prompt.push_str(PROMPT_3);
    }
    prompt.push_str(PROMPT_4);
    if with_citations {
        prompt.push_str(PROMPT_5);
    }
    prompt.push_str(PROMPT_6);
    if with_citations {
        prompt.push_str(PROMPT_7_CITED);
    } else {
        prompt.push_str(PROMPT_7_PLAIN);
    }
    prompt.push_str(PROMPT_8);
    if with_citations {
        prompt.push_str(PROMPT_9);
    }
    proof {
        assert(prompt@ =~= system_prompt(with_citations, opt_str(locale)));
    }
    prompt
}

/// The position of the last line feed in a text, or -1 where it has none.
pub open spec fn last_line_feed(s: Seq<char>) -> int
    decreases s.len(),
{
    if s.len() == 0 {
        -1
    } else if s.last() == '\n' {
        s.len() - 1
    } else {
        last_line_feed(s.drop_last())
    }
}

/// The mark that a text was cut.
pub open spec fn cut_mark() -> Seq<char> {
    "...\n[truncated]"@
}

/// A text cut to at most `max` characters at the end of a line, with a mark
/// that it was cut. A text that is short enough stays as it is; a text
/// without a line feed among its first `max` characters is cut at `max`.
pub open spec fn cut_to(text: Seq<char>, max: int) -> Seq<char> {
    if text.len() <= max {
        text
    } else {
        let head = text.take(max);
        if last_line_feed(head) >= 0 {
            text.take(last_line_feed(head)) + cut_mark()
        } else {
            head + cut_mark()
        }
    }
}

/// Cuts a text to a limit of characters; see [`cut_to`].
pub fn truncate_to_limit(text: &str, max_chars: usize) -> (r: String)
    ensures
        r@ == cut_to(text@, max_chars as int),
{
    let chars = chars_of(text);
    if chars.len() <= max_chars {
        return owned(text);
    }
    let mut end: usize = max_chars;
    let ghost head = chars@.take(max_chars as int);
    proof {
        assert(head.take(end as int) =~= head);
    }
    while end > 0 && chars[end - 1] != '\n'
        invariant
            end <= max_chars < chars.len(),
            head == chars@.take(max_chars as int),
            last_line_feed(head.take(end as int)) == last_line_feed(head),
        decreases end,
    {
        proof {
            assert(head.take(end as int).drop_last() =~= head.take(end as int - 1));
            assert(head.take(end as int).last() == chars@[end as int - 1]);
        }
        end = end - 1;
    }
    let cut: usize = if end > 0 {
        proof {
            assert(head.take(end as int).last() == chars@[end as int - 1]);
        }
        end - 1
    } else {
        proof {
            assert(head.take(0).len() == 0);
        }
        max_chars
    };
    let mut r = text_of_range(&chars, 0, cut);
    r.push_str("...\n[truncated]");
    proof {
        assert(chars@.subrange(0, cut as int) =~= text@.take(cut as int));
    }
    r
}

/// Whether a character is an upper-case letter of the ASCII alphabet.
pub open spec fn is_upper(c: char) -> bool {
    'A' <= c && c <= 'Z'
}

/// Whether a line of a manual page is a heading: it does not begin with a
/// blank or a tab, and its first visible character is an upper-case letter.
pub open spec fn is_heading(line: Seq<char>) -> bool {
    heads_section(line, trimmed(line))
}

/// Whether a line with the trimmed form `t` is a heading: the line does not
/// begin with a blank or a tab, and `t` begins with an upper-case letter.
pub open spec fn heads_section(line: Seq<char>, t: Seq<char>) -> bool {
    !(line.len() > 0 && (line[0] == ' ' || line[0] == '\t')) && t.len() > 0 && is_upper(t[0])
}

/// How far the search for a section has come.
pub ghost struct SectionScan {
    /// The lines of the section that were found so far.
    pub found: Seq<Seq<char>>,
    /// Whether the last line was inside the section.
    pub inside: bool,
    /// Whether the section has ended.
    pub ended: bool,
}

/// The search after one more line. The section begins with the heading that
/// begins with `name` and ends before the next heading that does not.
pub open spec fn scan_line(scan: SectionScan, line: Seq<char>, name: Seq<char>) -> SectionScan {
    if scan.ended {
        scan
    } else if is_heading(line) {
        if begins_with(trimmed(line), name) {
            SectionScan { found: scan.found.push(line), inside: true, ended: false }
        } else if scan.inside {
            SectionScan { ended: true, ..scan }
        } else {
            scan
        }
    } else if scan.inside {
        SectionScan { found: scan.found.push(line), ..scan }
    } else {
        scan
    }
}

/// The search after the lines `lines`.
pub open spec fn scan_section(lines: Seq<Seq<char>>, name: Seq<char>) -> SectionScan
    decreases lines.len(),
{
    if lines.len() == 0 {
        SectionScan { found: Seq::empty(), inside: false, ended: false }
    } else {
        scan_line(scan_section(lines.drop_last(), name), lines.last(), name)
    }
}

/// The section called `name` of a manual page: its lines, from its heading
/// to the line before the next other heading, with line feeds between them.
pub open spec fn section_of(page: Seq<char>, name: Seq<char>) -> Option<Seq<char>> {
    let found = scan_section(lines_of(page), name).found;
    if found.len() > 0 {
        Some(joined(found, "\n"@))
    } else {
        None
    }
}

fn upper(c: char) -> (r: bool)
    ensures
        r == is_upper(c),
{
    c >= 'A' && c <= 'Z'
}

/// Whether a line with the given trimmed form is a heading; see
/// [`heads_section`].
pub fn is_heading_line(line: &str, trimmed_line: &str) -> (r: bool)
    ensures
        r == heads_section(line@, trimmed_line@),
{
    let chars = chars_of(line);
    let indented = chars.len() > 0 && (chars[0] == ' ' || chars[0] == '\t');
    let tc = chars_of(trimmed_line);
    !indented && tc.len() > 0 && upper(tc[0])
}

fn heading(line: &str) -> (r: (bool, String))
    ensures
        r.0 == is_heading(line@),
        r.1@ == trimmed(line@),
{
    let t = trim(line);
    let is = is_heading_line(line, t.as_str());
    (is, t)
}

/// Finds the section called `section_name` in a manual page; see
/// [`section_of`].
pub fn extract_section(man_page: &str, section_name: &str) -> (r: Option<String>)
    ensures
        crate::layers::opt_view(r) == section_of(man_page@, section_name@),
{
    let all = lines(man_page);
    let ghost wanted = views(all@);
    let mut result: Vec<&str> = Vec::new();
    let mut in_section = false;
    let mut ended = false;
    let mut i: usize = 0;
    proof {
        assert(wanted.take(0) =~= Seq::<Seq<char>>::empty());
        assert(slices(result@) =~= Seq::<Seq<char>>::empty());
    }
    while i < all.len()
        invariant
            i <= all.len(),
            wanted == views(all@),
            scan_section(wanted.take(i as int), section_name@) == (SectionScan {
                found: slices(result@),
                inside: in_section,
                ended,
            }),
        decreases all.len() - i,
    {
        proof {
            let next = wanted.take(i as int + 1);
            assert(next.drop_last() =~= wanted.take(i as int));
            assert(next.last() == all@[i as int]@);
        }
        let line = all[i].as_str();
        if !ended {
            let (is_header, t) = heading(line);
            if is_header {
                if starts_with(t.as_str(), section_name) {
                    in_section = true;
                    let ghost before = slices(result@);
                    result.push(line);
                    proof {
                        assert(slices(result@) =~= before.push(line@));
                    }
                } else if in_section {
                    ended = true;
                }
            } else if in_section {
                let ghost before = slices(result@);
                result.push(line);
                proof {
                    assert(slices(result@) =~= before.push(line@));
                }
            }
        }
        i = i + 1;
    }
    proof {
        assert(wanted.take(all@.len() as int) =~= wanted);
    }
    if result.len() > 0 {
        Some(join(&result, "\n"))
    } else {
        None
    }
}

/// The part of a manual page that is sent along: its options, or its
/// description where it has no section of options.
pub open spec fn options_of(page: Seq<char>) -> Option<Seq<char>> {
    match section_of(page, "OPTIONS"@) {
        Some(s) => Some(s),
        None => section_of(page, "DESCRIPTION"@),
    }
}

/// Finds the options in a manual page; see [`options_of`].
pub fn extract_options_section(man_page: &str) -> (r: Option<String>)
    ensures
        crate::layers::opt_view(r) == options_of(man_page@),
{
    match extract_section(man_page, "OPTIONS") {
        Some(s) => Some(s),
        None => extract_section(man_page, "DESCRIPTION"),
    }
}

/// A table with the given entries.
pub fn table_of(entries: Vec<(String, Node)>) -> (r: Node)
    ensures
        r@ == Tree::Table(entries_view(entries@)),
{
    proof {
        lemma_table_view(entries);
    }
    Node::Table(entries)
}

/// A list with the given items.
pub fn list_of(items: Vec<Node>) -> (r: Node)
    ensures
        r@ == Tree::List(items_view(items@)),
{
    proof {
        lemma_list_view(items);
    }
    Node::List(items)
}

/// The schema of a property that is a text.
pub open spec fn text_property(description: Seq<char>) -> Tree {
    Tree::Table(seq![("type"@, Tree::Text("string"@)), ("description"@, Tree::Text(description))])
}

/// The schema of a property that is a text or absent.
pub open spec fn optional_text_property(description: Seq<char>) -> Tree {
    Tree::Table(
        seq![
            ("type"@, Tree::List(seq![Tree::Text("string"@), Tree::Text("null"@)])),
            ("description"@, Tree::Text(description)),
        ],
    )
}

/// The schema of the confidence in a citation: a number from zero to one.
pub open spec fn confidence_property() -> Tree {
    Tree::Table(
        seq![
            ("type"@, Tree::Text("number"@)),
            ("minimum"@, Tree::Number("0.0"@)),
            ("maximum"@, Tree::Number("1.0"@)),
            (
                "description"@,
                Tree::Text(
                    "Confidence score (0.0 to 1.0) for the citation accuracy. 1 = exact quote from docs, 0 = no docs available or pure guess."@,
                ),
            ),
        ],
    )
}

/// The schema of a list of explanations.
pub open spec fn explanations_items() -> Tree {
    Tree::Table(seq![("$ref"@, Tree::Text("#/$defs/explanation"@))])
}

/// The schema of the nested explanations.
pub open spec fn children_property() -> Tree {
    Tree::Table(
        seq![
            ("type"@, Tree::Text("array"@)),
            ("items"@, explanations_items()),
            ("description"@, Tree::Text("Nested explanations for sub-components"@)),
        ],
    )
}

/// The properties of an explanation; the citation and its confidence are
/// there only with citations.
pub open spec fn explanation_properties(with_citations: bool) -> Tree {
    let segment = Tree::empty().put(
        "segment"@,
        text_property("The exact token from the command (direct quote, will be highlighted)"@),
    );
    let cited = if with_citations {
        segment.put(
            "citation"@,
            optional_text_property(
                "A verbatim quote from the provided documentation that describes this segment. Leave null if no documentation was provided or the segment is not documented."@,
            ),
        ).put("citation_confidence"@, confidence_property())
    } else {
        segment
    };
    cited.put(
        "prefix"@,
        optional_text_property(
            "Optional text before the segment that forms the start of a sentence"@,
        ),
    ).put(
        "suffix"@,
        optional_text_property("Text after the segment that completes the sentence"@),
    ).put("children"@, children_property())
}

/// The properties that an explanation must have.
pub open spec fn explanation_required(with_citations: bool) -> Tree {
    let always = seq![
        Tree::Text("segment"@),
        Tree::Text("prefix"@),
        Tree::Text("suffix"@),
        Tree::Text("children"@),
    ];
    if with_citations {
        Tree::List(always.push(Tree::Text("citation"@)).push(Tree::Text("citation_confidence"@)))
    } else {
        Tree::List(always)
    }
}

/// The schema of the answer of the model: a synopsis and a list of
/// explanations, which nest.
pub open spec fn explain_schema(with_citations: bool) -> Tree {
    Tree::Table(
        seq![
            ("type"@, Tree::Text("object"@)),
            (
                "properties"@,
                Tree::Table(
                    seq![
                        (
                            "synopsis"@,
                            text_property(
                                "A one-line description of what the overall command does"@,
                            ),
                        ),
                        (
                            "explanations"@,
                            Tree::Table(
                                seq![
                                    ("type"@, Tree::Text("array"@)),
                                    ("items"@, explanations_items()),
                                ],
                            ),
                        ),
                    ],
                ),
            ),
            ("required"@, Tree::List(seq![Tree::Text("synopsis"@), Tree::Text("explanations"@)])),
            ("additionalProperties"@, Tree::Bool(false)),
            (
                "$defs"@,
                Tree::Table(
                    seq![
                        (
                            "explanation"@,
                            Tree::Table(
                                seq![
                                    ("type"@, Tree::Text("object"@)),
                                    ("properties"@, explanation_properties(with_citations)),
                                    ("required"@, explanation_required(with_citations)),
                                    ("additionalProperties"@, Tree::Bool(false)),
                                ],
                            ),
                        ),
                    ],
                ),
            ),
        ],
    )
}

fn text_property_node(description: &str) -> (r: Node)
    ensures
        r@ == text_property(description@),
{
    let mut e: Vec<(String, Node)> = Vec::new();
    e.push((owned("type"), Node::text("string")));
    e.push((owned("description"), Node::text(description)));
    proof {
        assert(entries_view(e@) =~= text_property(description@)->Table_0);
    }
    table_of(e)
}

fn optional_text_property_node(description: &str) -> (r: Node)
    ensures
        r@ == optional_text_property(description@),
{
    let mut kinds: Vec<Node> = Vec::new();
    kinds.push(Node::text("string"));
    kinds.push(Node::text("null"));
    proof {
        assert(items_view(kinds@) =~= seq![Tree::Text("string"@), Tree::Text("null"@)]);
    }
    let mut e: Vec<(String, Node)> = Vec::new();
    e.push((owned("type"), list_of(kinds)));
    e.push((owned("description"), Node::text(description)));
    proof {
        assert(entries_view(e@) =~= optional_text_property(description@)->Table_0);
    }
    table_of(e)
}

fn confidence_property_node() -> (r: Node)
    ensures
        r@ == confidence_property(),
{
    let mut e: Vec<(String, Node)> = Vec::new();
    e.push((owned("type"), Node::text("number")));
    e.push((owned("minimum"), Node::number("0.0")));
    e.push((owned("maximum"), Node::number("1.0")));
    e.push(
        (
            owned("description"),
            Node::text(
                "Confidence score (0.0 to 1.0) for the citation accuracy. 1 = exact quote from docs, 0 = no docs available or pure guess.",
            ),
        ),
    );
    proof {
        assert(entries_view(e@) =~= confidence_property()->Table_0);
    }
    table_of(e)
}

fn explanations_items_node() -> (r: Node)
    ensures
        r@ == explanations_items(),
{
    let mut e: Vec<(String, Node)> = Vec::new();
    e.push((owned("$ref"), Node::text("#/$defs/explanation")));
    proof {
        assert(entries_view(e@) =~= explanations_items()->Table_0);
    }
    table_of(e)
}

fn children_property_node() -> (r: Node)
    ensures
        r@ == children_property(),
{
    let mut e: Vec<(String, Node)> = Vec::new();
    e.push((owned("type"), Node::text("array")));
    e.push((owned("items"), explanations_items_node()));
    e.push((owned("description"), Node::text("Nested explanations for sub-components")));
    proof {
        assert(entries_view(e@) =~= children_property()->Table_0);
    }
    table_of(e)
}

fn explanation_properties_node(with_citations: bool) -> (r: Node)
    ensures
        r@ == explanation_properties(with_citations),
{
    let mut properties = Node::empty_table();
    properties.insert(
        owned("segment"),
        text_property_node(
            "The exact token from the command (direct quote, will be highlighted)",
        ),
    );
    if with_citations {
        properties.insert(
            owned("citation"),
            optional_text_property_node(
                "A verbatim quote from the provided documentation that describes this segment. Leave null if no documentation was provided or the segment is not documented.",
            ),
        );
        properties.insert(owned("citation_confidence"), confidence_property_node());
    }
    properties.insert(
        owned("prefix"),
        optional_text_property_node(
            "Optional text before the segment that forms the start of a sentence",
        ),
    );
    properties.insert(
        owned("suffix"),
        optional_text_property_node("Text after the segment that completes the sentence"),
    );
    properties.insert(owned("children"), children_property_node());
    properties
}

fn explanation_required_node(with_citations: bool) -> (r: Node)
    ensures
        r@ == explanation_required(with_citations),
{
    let mut required: Vec<Node> = Vec::new();
    required.push(Node::text("segment"));
    required.push(Node::text("prefix"));
    required.push(Node::text("suffix"));
    required.push(Node::text("children"));
    if with_citations {
        required.push(Node::text("citation"));
        required.push(Node::text("citation_confidence"));
    }
    proof {
        assert(items_view(required@) =~= explanation_required(with_citations)->List_0);
    }
    list_of(required)
}

fn explanation_node(with_citations: bool) -> (r: Node)
    ensures
        r@ == Tree::Table(
            seq![
                ("type"@, Tree::Text("object"@)),
                ("properties"@, explanation_properties(with_citations)),
                ("required"@, explanation_required(with_citations)),
                ("additionalProperties"@, Tree::Bool(false)),
            ],
        ),
{
    let mut e: Vec<(String, Node)> = Vec::new();
    e.push((owned("type"), Node::text("object")));
    e.push((owned("properties"), explanation_properties_node(with_citations)));
    e.push((owned("required"), explanation_required_node(with_citations)));
    e.push((owned("additionalProperties"), Node::Bool(false)));
    proof {
        assert(entries_view(e@) =~= seq![
            ("type"@, Tree::Text("object"@)),
            ("properties"@, explanation_properties(with_citations)),
            ("required"@, explanation_required(with_citations)),
            ("additionalProperties"@, Tree::Bool(false)),
        ]);
    }
    table_of(e)
}

fn top_properties_node() -> (r: Node)
    ensures
        r@ == Tree::Table(
            seq![
                (
                    "synopsis"@,
                    text_property("A one-line description of what the overall command does"@),
                ),
                (
                    "explanations"@,
                    Tree::Table(
                        seq![("type"@, Tree::Text("array"@)), ("items"@, explanations_items())],
                    ),
                ),
            ],
        ),
{
    let mut list: Vec<(String, Node)> = Vec::new();
    list.push((owned("type"), Node::text("array")));
    list.push((owned("items"), explanations_items_node()));
    proof {
        assert(entries_view(list@) =~= seq![
            ("type"@, Tree::Text("array"@)),
            ("items"@, explanations_items()),
        ]);
    }
    let explanations = table_of(list);
    let mut e: Vec<(String, Node)> = Vec::new();
    e.push(
        (
            owned("synopsis"),
            text_property_node("A one-line description of what the overall command does"),
        ),
    );
    e.push((owned("explanations"), explanations));
    proof {
        assert(entries_view(e@) =~= seq![
            (
                "synopsis"@,
                text_property("A one-line description of what the overall command does"@),
            ),
            ("explanations"@, explanations@),
        ]);
    }
    table_of(e)
}

/// Builds the schema of the answer of the model; see [`explain_schema`].
pub fn build_explain_schema(with_citations: bool) -> (r: Node)
    ensures
        r@ == explain_schema(with_citations),
{
    let mut required: Vec<Node> = Vec::new();
    required.push(Node::text("synopsis"));
    required.push(Node::text("explanations"));
    proof {
        assert(items_view(required@) =~= seq![
            Tree::Text("synopsis"@),
            Tree::Text("explanations"@),
        ]);
    }
    let mut defs: Vec<(String, Node)> = Vec::new();
    defs.push((owned("explanation"), explanation_node(with_citations)));
    proof {
        assert(entries_view(defs@) =~= seq![("explanation"@, defs@[0].1@)]);
    }
    let mut e: Vec<(String, Node)> = Vec::new();
    e.push((owned("type"), Node::text("object")));
    e.push((owned("properties"), top_properties_node()));
    e.push((owned("required"), list_of(required)));
    e.push((owned("additionalProperties"), Node::Bool(false)));
    e.push((owned("$defs"), table_of(defs)));
    proof {
        assert(entries_view(e@) =~= explain_schema(with_citations)->Table_0);
    }
    table_of(e)
}

/// The command to explain that a text gives: the text without the white
/// space at its two ends, or, where nothing is left, what to tell the user.
pub open spec fn command_in_text(text: Seq<char>) -> Result<Seq<char>, Seq<char>> {
    if trimmed(text).len() == 0 {
        Err("Command to explain is empty"@)
    } else {
        Ok(trimmed(text))
    }
}

/// Takes the command to explain from a text; see [`command_in_text`].
pub fn command_to_explain(text: &str) -> (r: Result<String, String>)
    ensures
        match r {
            Ok(command) => command_in_text(text@) == Ok::<Seq<char>, Seq<char>>(command@),
            Err(e) => command_in_text(text@) == Err::<Seq<char>, Seq<char>>(e@),
        },
{
    let t = trim(text);
    let chars = chars_of(t.as_str());
    if chars.len() == 0 {
        Err(owned("Command to explain is empty"))
    } else {
        Ok(t)
    }
}

} // verus!
