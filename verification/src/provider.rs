//! OpenResponses request options: reasoning, hosted web search and `include`
//! paths, with the parsers for their textual forms and the normalisation
//! rules applied before a request is built.

use vstd::prelude::*;

use crate::text::{
    lemma_split_on_nonempty, split_on,
    chars_of, is_blank, is_blank_str, lemma_blank_iff_all_ws, lemma_trim_shape, owned, slice_eq_str,
    spec_trim, trim_bounds, trim_range, trim_to_string,
};

verus! {

#[derive(Clone, Copy, Debug, PartialEq, Eq, Structural)]
pub enum ReasoningEffort {
    NoEffort,
    Minimal,
    Low,
    Medium,
    High,
    Xhigh,
}

#[derive(Clone, Copy, Debug, PartialEq, Eq, Structural)]
pub enum ReasoningSummary {
    Concise,
    Detailed,
    Auto,
}

#[derive(Clone, Copy, Debug, PartialEq, Eq, Structural)]
pub enum SearchContextSize {
    Low,
    Medium,
    High,
}

#[derive(Clone, Copy, Debug, PartialEq, Eq, Structural)]
pub enum OpenResponsesInclude {
    FileSearchCallResults,
    WebSearchCallResults,
    WebSearchCallActionSources,
    MessageInputImageImageUrl,
    ComputerCallOutputOutputImageUrl,
    CodeInterpreterCallOutputs,
    ReasoningEncryptedContent,
    MessageOutputTextLogprobs,
}

/// The wire name of a reasoning effort (its snake_case serialisation).
pub open spec fn effort_name(e: ReasoningEffort) -> Seq<char> {
    match e {
        ReasoningEffort::NoEffort => "none"@,
        ReasoningEffort::Minimal => "minimal"@,
        ReasoningEffort::Low => "low"@,
        ReasoningEffort::Medium => "medium"@,
        ReasoningEffort::High => "high"@,
        ReasoningEffort::Xhigh => "xhigh"@,
    }
}

/// The wire name of a reasoning summary mode.
pub open spec fn summary_name(s: ReasoningSummary) -> Seq<char> {
    match s {
        ReasoningSummary::Concise => "concise"@,
        ReasoningSummary::Detailed => "detailed"@,
        ReasoningSummary::Auto => "auto"@,
    }
}

/// The wire name of a search context size.
pub open spec fn context_size_name(s: SearchContextSize) -> Seq<char> {
    match s {
        SearchContextSize::Low => "low"@,
        SearchContextSize::Medium => "medium"@,
        SearchContextSize::High => "high"@,
    }
}

/// The canonical OpenResponses path of an `include` value.
pub open spec fn include_name(i: OpenResponsesInclude) -> Seq<char> {
    match i {
        OpenResponsesInclude::FileSearchCallResults => "file_search_call.results"@,
        OpenResponsesInclude::WebSearchCallResults => "web_search_call.results"@,
        OpenResponsesInclude::WebSearchCallActionSources => "web_search_call.action.sources"@,
        OpenResponsesInclude::MessageInputImageImageUrl => "message.input_image.image_url"@,
        OpenResponsesInclude::ComputerCallOutputOutputImageUrl => "computer_call_output.output.image_url"@,
        OpenResponsesInclude::CodeInterpreterCallOutputs => "code_interpreter_call.outputs"@,
        OpenResponsesInclude::ReasoningEncryptedContent => "reasoning.encrypted_content"@,
        OpenResponsesInclude::MessageOutputTextLogprobs => "message.output_text.logprobs"@,
    }
}

/// The effort named by `value` once trimmed, if any.
pub open spec fn spec_parse_effort(value: Seq<char>) -> Option<ReasoningEffort> {
    let t = spec_trim(value);
    if t == "none"@ {
        Some(ReasoningEffort::NoEffort)
    } else if t == "minimal"@ {
        Some(ReasoningEffort::Minimal)
    } else if t == "low"@ {
        Some(ReasoningEffort::Low)
    } else if t == "medium"@ {
        Some(ReasoningEffort::Medium)
    } else if t == "high"@ {
        Some(ReasoningEffort::High)
    } else if t == "xhigh"@ {
        Some(ReasoningEffort::Xhigh)
    } else {
        None
    }
}

/// The summary mode named by `value` once trimmed, if any.
pub open spec fn spec_parse_summary(value: Seq<char>) -> Option<ReasoningSummary> {
    let t = spec_trim(value);
    if t == "concise"@ {
        Some(ReasoningSummary::Concise)
    } else if t == "detailed"@ {
        Some(ReasoningSummary::Detailed)
    } else if t == "auto"@ {
        Some(ReasoningSummary::Auto)
    } else {
        None
    }
}

/// The context size named by `value` once trimmed, if any.
pub open spec fn spec_parse_context_size(value: Seq<char>) -> Option<SearchContextSize> {
    let t = spec_trim(value);
    if t == "low"@ {
        Some(SearchContextSize::Low)
    } else if t == "medium"@ {
        Some(SearchContextSize::Medium)
    } else if t == "high"@ {
        Some(SearchContextSize::High)
    } else {
        None
    }
}

/// The include path named by `value` once trimmed, if any.
pub open spec fn spec_parse_include(value: Seq<char>) -> Option<OpenResponsesInclude> {
    let t = spec_trim(value);
    if t == "file_search_call.results"@ {
        Some(OpenResponsesInclude::FileSearchCallResults)
    } else if t == "web_search_call.results"@ {
        Some(OpenResponsesInclude::WebSearchCallResults)
    } else if t == "web_search_call.action.sources"@ {
        Some(OpenResponsesInclude::WebSearchCallActionSources)
    } else if t == "message.input_image.image_url"@ {
        Some(OpenResponsesInclude::MessageInputImageImageUrl)
    } else if t == "computer_call_output.output.image_url"@ {
        Some(OpenResponsesInclude::ComputerCallOutputOutputImageUrl)
    } else if t == "code_interpreter_call.outputs"@ {
        Some(OpenResponsesInclude::CodeInterpreterCallOutputs)
    } else if t == "reasoning.encrypted_content"@ {
        Some(OpenResponsesInclude::ReasoningEncryptedContent)
    } else if t == "message.output_text.logprobs"@ {
        Some(OpenResponsesInclude::MessageOutputTextLogprobs)
    } else {
        None
    }
}

impl OpenResponsesInclude {
    pub fn as_str(self) -> (r: &'static str)
        ensures
            r@ == include_name(self),
    {
        match self {
            OpenResponsesInclude::FileSearchCallResults => "file_search_call.results",
            OpenResponsesInclude::WebSearchCallResults => "web_search_call.results",
            OpenResponsesInclude::WebSearchCallActionSources => "web_search_call.action.sources",
            OpenResponsesInclude::MessageInputImageImageUrl => "message.input_image.image_url",
            OpenResponsesInclude::ComputerCallOutputOutputImageUrl => "computer_call_output.output.image_url",
            OpenResponsesInclude::CodeInterpreterCallOutputs => "code_interpreter_call.outputs",
            OpenResponsesInclude::ReasoningEncryptedContent => "reasoning.encrypted_content",
            OpenResponsesInclude::MessageOutputTextLogprobs => "message.output_text.logprobs",
        }
    }
}

pub fn parse_reasoning_effort(value: &str) -> (r: Result<ReasoningEffort, String>)
    ensures
        match spec_parse_effort(value@) {
            Some(e) => r == Ok::<ReasoningEffort, String>(e),
            None => r matches Err(msg) && msg@
                == "unsupported value (expected none|minimal|low|medium|high|xhigh)"@,
        },
{
    let chars = chars_of(value);
    let (a, b) = trim_bounds(&chars);
    if slice_eq_str(&chars, a, b, "none") {
        Ok(ReasoningEffort::NoEffort)
    } else if slice_eq_str(&chars, a, b, "minimal") {
        Ok(ReasoningEffort::Minimal)
    } else if slice_eq_str(&chars, a, b, "low") {
        Ok(ReasoningEffort::Low)
    } else if slice_eq_str(&chars, a, b, "medium") {
        Ok(ReasoningEffort::Medium)
    } else if slice_eq_str(&chars, a, b, "high") {
        Ok(ReasoningEffort::High)
    } else if slice_eq_str(&chars, a, b, "xhigh") {
        Ok(ReasoningEffort::Xhigh)
    } else {
        Err(owned("unsupported value (expected none|minimal|low|medium|high|xhigh)"))
    }
}

pub fn parse_reasoning_summary(value: &str) -> (r: Result<ReasoningSummary, String>)
    ensures
        match spec_parse_summary(value@) {
            Some(s) => r == Ok::<ReasoningSummary, String>(s),
            None => r matches Err(msg) && msg@ == "unsupported value (expected concise|detailed|auto)"@,
        },
{
    let chars = chars_of(value);
    let (a, b) = trim_bounds(&chars);
    if slice_eq_str(&chars, a, b, "concise") {
        Ok(ReasoningSummary::Concise)
    } else if slice_eq_str(&chars, a, b, "detailed") {
        Ok(ReasoningSummary::Detailed)
    } else if slice_eq_str(&chars, a, b, "auto") {
        Ok(ReasoningSummary::Auto)
    } else {
        Err(owned("unsupported value (expected concise|detailed|auto)"))
    }
}

pub fn parse_search_context_size(value: &str) -> (r: Result<SearchContextSize, String>)
    ensures
        match spec_parse_context_size(value@) {
            Some(s) => r == Ok::<SearchContextSize, String>(s),
            None => r matches Err(msg) && msg@ == "unsupported value (expected low|medium|high)"@,
        },
{
    let chars = chars_of(value);
    let (a, b) = trim_bounds(&chars);
    if slice_eq_str(&chars, a, b, "low") {
        Ok(SearchContextSize::Low)
    } else if slice_eq_str(&chars, a, b, "medium") {
        Ok(SearchContextSize::Medium)
    } else if slice_eq_str(&chars, a, b, "high") {
        Ok(SearchContextSize::High)
    } else {
        Err(owned("unsupported value (expected low|medium|high)"))
    }
}

/// Parses `chars[a..b]`, which is already trimmed, as an include path.
fn parse_include_trimmed(chars: &Vec<char>, a: usize, b: usize) -> (r: Option<OpenResponsesInclude>)
    requires
        a <= b <= chars@.len(),
    ensures
        ({
            let t = chars@.subrange(a as int, b as int);
            r == (if t == "file_search_call.results"@ {
                Some(OpenResponsesInclude::FileSearchCallResults)
            } else if t == "web_search_call.results"@ {
                Some(OpenResponsesInclude::WebSearchCallResults)
            } else if t == "web_search_call.action.sources"@ {
                Some(OpenResponsesInclude::WebSearchCallActionSources)
            } else if t == "message.input_image.image_url"@ {
                Some(OpenResponsesInclude::MessageInputImageImageUrl)
            } else if t == "computer_call_output.output.image_url"@ {
                Some(OpenResponsesInclude::ComputerCallOutputOutputImageUrl)
            } else if t == "code_interpreter_call.outputs"@ {
                Some(OpenResponsesInclude::CodeInterpreterCallOutputs)
            } else if t == "reasoning.encrypted_content"@ {
                Some(OpenResponsesInclude::ReasoningEncryptedContent)
            } else if t == "message.output_text.logprobs"@ {
                Some(OpenResponsesInclude::MessageOutputTextLogprobs)
            } else {
                None
            })
        }),
{
    if slice_eq_str(chars, a, b, "file_search_call.results") {
        Some(OpenResponsesInclude::FileSearchCallResults)
    } else if slice_eq_str(chars, a, b, "web_search_call.results") {
        Some(OpenResponsesInclude::WebSearchCallResults)
    } else if slice_eq_str(chars, a, b, "web_search_call.action.sources") {
        Some(OpenResponsesInclude::WebSearchCallActionSources)
    } else if slice_eq_str(chars, a, b, "message.input_image.image_url") {
        Some(OpenResponsesInclude::MessageInputImageImageUrl)
    } else if slice_eq_str(chars, a, b, "computer_call_output.output.image_url") {
        Some(OpenResponsesInclude::ComputerCallOutputOutputImageUrl)
    } else if slice_eq_str(chars, a, b, "code_interpreter_call.outputs") {
        Some(OpenResponsesInclude::CodeInterpreterCallOutputs)
    } else if slice_eq_str(chars, a, b, "reasoning.encrypted_content") {
        Some(OpenResponsesInclude::ReasoningEncryptedContent)
    } else if slice_eq_str(chars, a, b, "message.output_text.logprobs") {
        Some(OpenResponsesInclude::MessageOutputTextLogprobs)
    } else {
        None
    }
}

pub fn parse_openresponses_include(value: &str) -> (r: Result<OpenResponsesInclude, String>)
    ensures
        match spec_parse_include(value@) {
            Some(i) => r == Ok::<OpenResponsesInclude, String>(i),
            None => r matches Err(msg) && msg@
                == "unsupported value (expected a canonical OpenResponses include path)"@,
        },
{
    let chars = chars_of(value);
    let (a, b) = trim_bounds(&chars);
    match parse_include_trimmed(&chars, a, b) {
        Some(i) => Ok(i),
        None => Err(owned("unsupported value (expected a canonical OpenResponses include path)")),
    }
}

/// Folds comma-separated include pieces left to right: blank pieces are
/// skipped, a repeated value is kept only where it first occurs, and any
/// unknown piece makes the whole list invalid.
pub open spec fn fold_includes(pieces: Seq<Seq<char>>) -> Option<Seq<OpenResponsesInclude>>
    decreases pieces.len(),
{
    if pieces.len() == 0 {
        Some(Seq::<OpenResponsesInclude>::empty())
    } else {
        match fold_includes(pieces.drop_last()) {
            None => None,
            Some(out) => {
                if spec_trim(pieces.last()).len() == 0 {
                    Some(out)
                } else {
                    match spec_parse_include(pieces.last()) {
                        None => None,
                        Some(i) => if out.contains(i) {
                            Some(out)
                        } else {
                            Some(out.push(i))
                        },
                    }
                }
            },
        }
    }
}

/// The include list named by a comma-separated value.
pub open spec fn spec_parse_include_list(value: Seq<char>) -> Option<Seq<OpenResponsesInclude>> {
    fold_includes(split_on(value, ','))
}

/// A folded include list never holds the same value twice.
pub proof fn lemma_fold_includes_distinct(pieces: Seq<Seq<char>>)
    ensures
        fold_includes(pieces) matches Some(out) ==> forall|i: int, j: int|
            0 <= i < j < out.len() ==> out[i] != out[j],
    decreases pieces.len(),
{
    if pieces.len() > 0 {
        lemma_fold_includes_distinct(pieces.drop_last());
        if let Some(out) = fold_includes(pieces.drop_last()) {
            if spec_trim(pieces.last()).len() != 0 {
                if let Some(x) = spec_parse_include(pieces.last()) {
                    if !out.contains(x) {
                        let o2 = out.push(x);
                        assert forall|i: int, j: int| 0 <= i < j < o2.len() implies o2[i] != o2[j] by {
                            if j == out.len() {
                                assert(o2[i] == out[i]);
                            }
                        }
                    }
                }
            }
        }
    }
}

/// A piece of an include list that names something: not blank.
pub open spec fn include_piece_named(piece: Seq<char>) -> bool {
    spec_trim(piece).len() != 0
}

/// Folding include pieces fails exactly when a piece that is not blank
/// names no include value; when it succeeds, the result holds the value of
/// every such piece and nothing else.
proof fn lemma_fold_includes_members(pieces: Seq<Seq<char>>)
    ensures
        fold_includes(pieces) is None <==> exists|i: int|
            0 <= i < pieces.len() && include_piece_named(#[trigger] pieces[i]) && spec_parse_include(pieces[i]) is None,
        fold_includes(pieces) matches Some(out) ==> {
            &&& forall|i: int|
                0 <= i < pieces.len() && include_piece_named(#[trigger] pieces[i]) ==> out.contains(
                    spec_parse_include(pieces[i])->0,
                )
            &&& forall|x: OpenResponsesInclude|
                #![trigger out.contains(x)]
                out.contains(x) ==> exists|i: int|
                    0 <= i < pieces.len() && include_piece_named(#[trigger] pieces[i]) && spec_parse_include(pieces[i])
                        == Some(x)
        },
    decreases pieces.len(),
{
    if pieces.len() > 0 {
        let prev = pieces.drop_last();
        let last = pieces.len() - 1;
        lemma_fold_includes_members(prev);
        assert forall|i: int| 0 <= i < prev.len() implies prev[i] == pieces[i] by {}
        match fold_includes(prev) {
            None => {
                let w = choose|i: int|
                    0 <= i < prev.len() && include_piece_named(#[trigger] prev[i]) && spec_parse_include(prev[i]) is None;
                assert(pieces[w] == prev[w]);
            },
            Some(out) => {
                if include_piece_named(pieces[last]) && spec_parse_include(pieces[last]) is None {
                    assert(fold_includes(pieces) is None);
                } else {
                    assert forall|i: int|
                        0 <= i < pieces.len() && include_piece_named(#[trigger] pieces[i]) implies spec_parse_include(
                        pieces[i],
                    ) is Some by {
                        if i < last {
                            assert(pieces[i] == prev[i]);
                            if spec_parse_include(prev[i]) is None {
                                assert(fold_includes(prev) is None);
                            }
                        }
                    }
                    let o2 = fold_includes(pieces)->0;
                    assert forall|i: int|
                        0 <= i < pieces.len() && include_piece_named(#[trigger] pieces[i]) implies o2.contains(
                        spec_parse_include(pieces[i])->0,
                    ) by {
                        if i < last {
                            assert(pieces[i] == prev[i]);
                            assert(out.contains(spec_parse_include(prev[i])->0));
                            let k = choose|k: int| 0 <= k < out.len() && out[k] == spec_parse_include(prev[i])->0;
                            if !(o2 =~= out) {
                                assert(o2[k] == out[k]);
                            }
                        } else {
                            let x = spec_parse_include(pieces[last])->0;
                            if out.contains(x) {
                            } else {
                                assert(o2[out.len() as int] == x);
                            }
                        }
                    }
                    assert forall|x: OpenResponsesInclude| o2.contains(x) implies exists|i: int|
                        0 <= i < pieces.len() && include_piece_named(#[trigger] pieces[i]) && spec_parse_include(
                            pieces[i],
                        ) == Some(x) by {
                        let k = choose|k: int| 0 <= k < o2.len() && o2[k] == x;
                        if k < out.len() {
                            assert(o2[k] == out[k]);
                            assert(out.contains(x));
                            let i = choose|i: int|
                                0 <= i < prev.len() && include_piece_named(#[trigger] prev[i]) && spec_parse_include(
                                    prev[i],
                                ) == Some(x);
                            assert(pieces[i] == prev[i]);
                        } else {
                            assert(include_piece_named(pieces[last]));
                        }
                    }
                }
            },
        }
    }
}

/// An include list fails to parse exactly when one of its comma-separated
/// pieces is not blank and names no include value. A list that parses
/// holds, once each, the value of every piece that is not blank, and
/// nothing else; a list of blank pieces only, or an empty value, parses to
/// no values.
pub proof fn lemma_include_list_members(value: Seq<char>)
    ensures
        ({
            let pieces = split_on(value, ',');
            &&& spec_parse_include_list(value) is None <==> exists|i: int|
                0 <= i < pieces.len() && include_piece_named(#[trigger] pieces[i]) && spec_parse_include(pieces[i])
                    is None
            &&& spec_parse_include_list(value) matches Some(out) ==> {
                &&& forall|i: int|
                    0 <= i < pieces.len() && include_piece_named(#[trigger] pieces[i]) ==> out.contains(
                        spec_parse_include(pieces[i])->0,
                    )
                &&& forall|x: OpenResponsesInclude|
                    #![trigger out.contains(x)]
                    out.contains(x) ==> exists|i: int|
                        0 <= i < pieces.len() && include_piece_named(#[trigger] pieces[i]) && spec_parse_include(
                            pieces[i],
                        ) == Some(x)
                &&& forall|i: int, j: int| 0 <= i < j < out.len() ==> out[i] != out[j]
                &&& (forall|i: int| 0 <= i < pieces.len() ==> !include_piece_named(#[trigger] pieces[i])) ==> out.len()
                    == 0
            }
        }),
{
    let pieces = split_on(value, ',');
    lemma_fold_includes_members(pieces);
    lemma_fold_includes_distinct(pieces);
    if let Some(out) = spec_parse_include_list(value) {
        if (forall|i: int| 0 <= i < pieces.len() ==> !include_piece_named(#[trigger] pieces[i])) && out.len() > 0 {
            assert(out.contains(out[0]));
        }
    }
}

fn vec_contains_include(v: &Vec<OpenResponsesInclude>, x: OpenResponsesInclude) -> (r: bool)
    ensures
        r == v@.contains(x),
{
    let mut i: usize = 0;
    while i < v.len()
        invariant
            i <= v@.len(),
            forall|k: int| 0 <= k < i ==> v@[k] != x,
        decreases v@.len() - i,
    {
        if v[i] == x {
            return true;
        }
        i = i + 1;
    }
    false
}

/// Adds the include value named by `chars[from..to]` to `out`, unless it is
/// blank or already there; `false` when the piece names no include value.
fn add_include_piece(chars: &Vec<char>, from: usize, to: usize, out: &mut Vec<OpenResponsesInclude>) -> (ok: bool)
    requires
        from <= to <= chars@.len(),
    ensures
        ({
            let piece = chars@.subrange(from as int, to as int);
            if spec_trim(piece).len() == 0 {
                ok && final(out)@ == old(out)@
            } else {
                match spec_parse_include(piece) {
                    None => !ok,
                    Some(x) => ok && final(out)@ == (if old(out)@.contains(x) {
                        old(out)@
                    } else {
                        old(out)@.push(x)
                    }),
                }
            }
        }),
{
    let (a, b) = trim_range(chars, from, to);
    if a == b {
        return true;
    }
    match parse_include_trimmed(chars, a, b) {
        None => false,
        Some(value_kind) => {
            if !vec_contains_include(out, value_kind) {
                out.push(value_kind);
            }
            true
        },
    }
}

pub fn parse_openresponses_include_list(value: &str) -> (r: Result<Vec<OpenResponsesInclude>, String>)
    ensures
        match spec_parse_include_list(value@) {
            Some(list) => r matches Ok(v) && v@ == list,
            None => r matches Err(msg) && msg@
                == "unsupported value (expected a canonical OpenResponses include path)"@,
        },
        r matches Ok(v) ==> forall|i: int, j: int| 0 <= i < j < v@.len() ==> v@[i] != v@[j],
{
    let chars = chars_of(value);
    let n = chars.len();
    let mut out: Vec<OpenResponsesInclude> = Vec::new();
    let mut start: usize = 0;
    let mut i: usize = 0;
    let ghost mut done: Seq<Seq<char>> = Seq::empty();
    assert(chars@.subrange(0, 0) =~= Seq::<char>::empty());
    while i < n
        invariant
            chars@ == value@,
            n == chars@.len(),
            start <= i <= n,
            split_on(chars@.subrange(0, i as int), ',') == done.push(
                chars@.subrange(start as int, i as int),
            ),
            fold_includes(done) == Some(out@),
        decreases n - i,
    {
        let ghost s1 = chars@.subrange(0, i + 1);
        assert(s1.drop_last() =~= chars@.subrange(0, i as int));
        if chars[i] == ',' {
            let ghost piece = chars@.subrange(start as int, i as int);
            let ghost pieces = done.push(piece);
            assert(pieces.drop_last() =~= done);
            if !add_include_piece(&chars, start, i, &mut out) {
                proof {
                    lemma_fold_prefix_none(chars@, i as int, done, piece);
                }
                return Err(owned("unsupported value (expected a canonical OpenResponses include path)"));
            }
            proof {
                assert(s1.last() == ',');
                assert(split_on(s1, ',') == pieces.push(Seq::<char>::empty()));
                assert(chars@.subrange(i + 1, i + 1) =~= Seq::<char>::empty());
                done = pieces;
            }
            start = i + 1;
        } else {
            proof {
                assert(s1.last() == chars@[i as int]);
                let seg0 = chars@.subrange(start as int, i as int);
                let seg1 = chars@.subrange(start as int, i + 1);
                assert(seg1 =~= seg0.push(chars@[i as int]));
                let rest = done.push(seg0);
                assert(rest.update(rest.len() - 1, rest.last().push(s1.last())) =~= done.push(seg1));
            }
        }
        i = i + 1;
    }
    let ghost piece = chars@.subrange(start as int, n as int);
    let ghost pieces = done.push(piece);
    assert(pieces.drop_last() =~= done);
    assert(chars@.subrange(0, n as int) =~= chars@);
    if !add_include_piece(&chars, start, n, &mut out) {
        return Err(owned("unsupported value (expected a canonical OpenResponses include path)"));
    }
    proof {
        lemma_fold_includes_distinct(split_on(chars@, ','));
    }
    Ok(out)
}

/// Once a prefix of the pieces is invalid, every longer list of pieces is.
proof fn lemma_fold_none_extends(pieces: Seq<Seq<char>>, more: Seq<Seq<char>>)
    requires
        fold_includes(pieces) is None,
    ensures
        fold_includes(pieces + more) is None,
    decreases more.len(),
{
    if more.len() == 0 {
        assert(pieces + more =~= pieces);
    } else {
        lemma_fold_none_extends(pieces, more.drop_last());
        assert((pieces + more).drop_last() =~= pieces + more.drop_last());
    }
}

/// The pieces of a prefix that ends just before a separator are a prefix of
/// the pieces of the whole text.
proof fn lemma_split_prefix(s: Seq<char>, i: int) -> (more: Seq<Seq<char>>)
    requires
        0 <= i <= s.len(),
    ensures
        split_on(s, ',') == split_on(s.subrange(0, i), ',').drop_last() + more,
        more.len() >= 1,
    decreases s.len() - i,
{
    lemma_split_on_nonempty(s.subrange(0, i), ',');
    let p = split_on(s.subrange(0, i), ',');
    if i == s.len() {
        assert(s.subrange(0, i) =~= s);
        let more = seq![p.last()];
        assert(p.drop_last() + more =~= p);
        more
    } else {
        let more = lemma_split_prefix(s, i + 1);
        let q = split_on(s.subrange(0, i + 1), ',');
        let s1 = s.subrange(0, i + 1);
        assert(s1.drop_last() =~= s.subrange(0, i));
        if s[i] == ',' {
            assert(q == p.push(Seq::<char>::empty()));
            assert(q.drop_last() =~= p);
            let m2 = seq![p.last()] + more;
            assert(p.drop_last() + m2 =~= p + more);
            m2
        } else {
            assert(q == p.update(p.len() - 1, p.last().push(s[i])));
            assert(q.drop_last() =~= p.drop_last());
            more
        }
    }
}

proof fn lemma_fold_prefix_none(s: Seq<char>, i: int, done: Seq<Seq<char>>, piece: Seq<char>)
    requires
        0 <= i < s.len(),
        s[i] == ',',
        split_on(s.subrange(0, i), ',') == done.push(piece),
        fold_includes(done.push(piece)) is None,
    ensures
        fold_includes(split_on(s, ',')) is None,
{
    let more = lemma_split_prefix(s, i + 1);
    let s1 = s.subrange(0, i + 1);
    assert(s1.drop_last() =~= s.subrange(0, i));
    let q = split_on(s1, ',');
    assert(q == done.push(piece).push(Seq::<char>::empty()));
    assert(q.drop_last() =~= done.push(piece));
    lemma_fold_none_extends(done.push(piece), more);
}

/// The characters of an optional text.
pub open spec fn opt_chars(o: Option<String>) -> Option<Seq<char>> {
    match o {
        Some(s) => Some(s@),
        None => None,
    }
}

/// A location field after normalisation: trimmed, and dropped when blank.
pub open spec fn norm_field(o: Option<Seq<char>>) -> Option<Seq<char>> {
    match o {
        Some(v) => if is_blank(v) {
            None
        } else {
            Some(spec_trim(v))
        },
        None => None,
    }
}

/// Whether a location field carries no information (absent or blank).
pub open spec fn field_blank(o: Option<Seq<char>>) -> bool {
    match o {
        Some(v) => is_blank(v),
        None => true,
    }
}

#[derive(Clone, Debug, Default, PartialEq, Eq)]
pub struct OpenResponsesApproximateLocation {
    pub country: Option<String>,
    pub region: Option<String>,
    pub city: Option<String>,
    pub timezone: Option<String>,
}

/// The location as text values.
pub ghost struct LocationView {
    pub country: Option<Seq<char>>,
    pub region: Option<Seq<char>>,
    pub city: Option<Seq<char>>,
    pub timezone: Option<Seq<char>>,
}

impl View for OpenResponsesApproximateLocation {
    type V = LocationView;

    open spec fn view(&self) -> LocationView {
        LocationView {
            country: opt_chars(self.country),
            region: opt_chars(self.region),
            city: opt_chars(self.city),
            timezone: opt_chars(self.timezone),
        }
    }
}

/// A location is empty when no field carries a non-blank value.
pub open spec fn location_is_empty(l: LocationView) -> bool {
    field_blank(l.country) && field_blank(l.region) && field_blank(l.city) && field_blank(l.timezone)
}

/// Trims every field, drops blank ones, and drops the whole location when
/// nothing is left.
pub open spec fn normalize_location(l: LocationView) -> Option<LocationView> {
    let n = LocationView {
        country: norm_field(l.country),
        region: norm_field(l.region),
        city: norm_field(l.city),
        timezone: norm_field(l.timezone),
    };
    if location_is_empty(l) {
        None
    } else {
        Some(n)
    }
}

/// The view of an optional location.
pub open spec fn opt_location_view(o: Option<OpenResponsesApproximateLocation>) -> Option<LocationView> {
    match o {
        Some(l) => Some(l@),
        None => None,
    }
}

fn field_is_blank(o: &Option<String>) -> (r: bool)
    ensures
        r == field_blank(opt_chars(*o)),
{
    match o {
        Some(v) => is_blank_str(v.as_str()),
        None => true,
    }
}

fn normalize_field(o: Option<String>) -> (r: Option<String>)
    ensures
        opt_chars(r) == norm_field(opt_chars(o)),
{
    match o {
        Some(v) => {
            if is_blank_str(v.as_str()) {
                None
            } else {
                Some(trim_to_string(v.as_str()))
            }
        },
        None => None,
    }
}

impl OpenResponsesApproximateLocation {
    pub fn is_empty(&self) -> (r: bool)
        ensures
            r == location_is_empty(self@),
    {
        field_is_blank(&self.country) && field_is_blank(&self.region) && field_is_blank(&self.city)
            && field_is_blank(&self.timezone)
    }

    pub fn normalized(self) -> (r: Option<Self>)
        ensures
            opt_location_view(r) == normalize_location(self@),
    {
        let empty = self.is_empty();
        let out = OpenResponsesApproximateLocation {
            country: normalize_field(self.country),
            region: normalize_field(self.region),
            city: normalize_field(self.city),
            timezone: normalize_field(self.timezone),
        };
        if empty {
            None
        } else {
            Some(out)
        }
    }

    /// A field-by-field copy.
    pub fn copied(&self) -> (r: Self)
        ensures
            r == *self,
    {
        OpenResponsesApproximateLocation {
            country: clone_opt_string(&self.country),
            region: clone_opt_string(&self.region),
            city: clone_opt_string(&self.city),
            timezone: clone_opt_string(&self.timezone),
        }
    }
}

fn clone_opt_string(o: &Option<String>) -> (r: Option<String>)
    ensures
        r == *o,
{
    match o {
        Some(v) => Some(v.clone()),
        None => None,
    }
}

proof fn lemma_norm_field_fixed(o: Option<Seq<char>>)
    ensures
        norm_field(norm_field(o)) == norm_field(o),
        norm_field(o) matches Some(v) ==> !is_blank(v) && spec_trim(v) == v,
        field_blank(o) <==> norm_field(o) is None,
{
    if let Some(v) = o {
        if !is_blank(v) {
            lemma_trim_shape(v);
            lemma_blank_iff_all_ws(v);
            lemma_blank_iff_all_ws(spec_trim(v));
            assert(!is_ws_at(spec_trim(v), 0));
        }
    }
}

spec fn is_ws_at(s: Seq<char>, i: int) -> bool {
    crate::text::is_ws(s[i])
}

/// Normalising a location twice gives the same result as normalising it once,
/// and a normalised location is never empty and holds only trimmed, non-blank fields.
pub proof fn lemma_normalize_location_idempotent(l: LocationView)
    ensures
        normalize_location(l) matches Some(n) ==> {
            &&& normalize_location(n) == Some(n)
            &&& !location_is_empty(n)
            &&& n.country matches Some(v) ==> !is_blank(v) && spec_trim(v) == v
            &&& n.region matches Some(v) ==> !is_blank(v) && spec_trim(v) == v
            &&& n.city matches Some(v) ==> !is_blank(v) && spec_trim(v) == v
            &&& n.timezone matches Some(v) ==> !is_blank(v) && spec_trim(v) == v
        },
{
    lemma_norm_field_fixed(l.country);
    lemma_norm_field_fixed(l.region);
    lemma_norm_field_fixed(l.city);
    lemma_norm_field_fixed(l.timezone);
    if let Some(n) = normalize_location(l) {
        lemma_norm_field_fixed(n.country);
        lemma_norm_field_fixed(n.region);
        lemma_norm_field_fixed(n.city);
        lemma_norm_field_fixed(n.timezone);
    }
}

pub fn default_enabled_true() -> (r: bool)
    ensures
        r,
{
    true
}

#[derive(Clone, Debug, PartialEq, Eq)]
pub struct OpenResponsesWebSearchConfig {
    pub enabled: bool,
    pub search_context_size: Option<SearchContextSize>,
    pub external_web_access: Option<bool>,
    pub user_location: Option<OpenResponsesApproximateLocation>,
}

pub ghost struct WebSearchView {
    pub enabled: bool,
    pub search_context_size: Option<SearchContextSize>,
    pub external_web_access: Option<bool>,
    pub user_location: Option<LocationView>,
}

impl View for OpenResponsesWebSearchConfig {
    type V = WebSearchView;

    open spec fn view(&self) -> WebSearchView {
        WebSearchView {
            enabled: self.enabled,
            search_context_size: self.search_context_size,
            external_web_access: self.external_web_access,
            user_location: opt_location_view(self.user_location),
        }
    }
}

/// The default web search settings: enabled, with nothing else set.
pub open spec fn default_web_search() -> WebSearchView {
    WebSearchView {
        enabled: true,
        search_context_size: None,
        external_web_access: None,
        user_location: None,
    }
}

/// Normalises the location, then keeps the settings only when web search is
/// enabled or some setting is present.
pub open spec fn normalize_web_search(w: WebSearchView) -> Option<WebSearchView> {
    let loc = match w.user_location {
        Some(l) => normalize_location(l),
        None => None,
    };
    let n = WebSearchView { user_location: loc, ..w };
    if w.enabled || w.search_context_size is Some || w.external_web_access is Some || loc is Some {
        Some(n)
    } else {
        None
    }
}

pub open spec fn opt_web_search_view(o: Option<OpenResponsesWebSearchConfig>) -> Option<WebSearchView> {
    match o {
        Some(w) => Some(w@),
        None => None,
    }
}

impl Default for OpenResponsesWebSearchConfig {
    fn default() -> (r: Self)
        ensures
            r@ == default_web_search(),
    {
        OpenResponsesWebSearchConfig {
            enabled: true,
            search_context_size: None,
            external_web_access: None,
            user_location: None,
        }
    }
}

impl OpenResponsesWebSearchConfig {
    pub fn disabled() -> (r: Self)
        ensures
            r@ == (WebSearchView { enabled: false, ..default_web_search() }),
    {
        OpenResponsesWebSearchConfig {
            enabled: false,
            search_context_size: None,
            external_web_access: None,
            user_location: None,
        }
    }

    pub fn normalized(self) -> (r: Option<Self>)
        ensures
            opt_web_search_view(r) == normalize_web_search(self@),
    {
        let user_location = match self.user_location {
            Some(l) => l.normalized(),
            None => None,
        };
        if self.enabled || self.search_context_size.is_some() || self.external_web_access.is_some()
            || user_location.is_some() {
            Some(OpenResponsesWebSearchConfig { user_location, ..self })
        } else {
            None
        }
    }

    pub fn is_enabled(&self) -> (r: bool)
        ensures
            r == self.enabled,
    {
        self.enabled
    }
}

/// Normalising web search settings twice gives the same result as once.
pub proof fn lemma_normalize_web_search_idempotent(w: WebSearchView)
    ensures
        normalize_web_search(w) matches Some(n) ==> normalize_web_search(n) == Some(n),
{
    if let Some(l) = w.user_location {
        lemma_normalize_location_idempotent(l);
    }
    if let Some(n) = normalize_web_search(w) {
        if let Some(l) = n.user_location {
            lemma_normalize_location_idempotent(l);
        }
    }
}

#[derive(Clone, Debug, Default, PartialEq, Eq)]
pub struct OpenResponsesWebSearchOverride {
    pub enabled: Option<bool>,
    pub search_context_size: Option<SearchContextSize>,
    pub external_web_access: Option<bool>,
    pub user_location: Option<OpenResponsesApproximateLocation>,
}

pub ghost struct WebSearchOverrideView {
    pub enabled: Option<bool>,
    pub search_context_size: Option<SearchContextSize>,
    pub external_web_access: Option<bool>,
    pub user_location: Option<LocationView>,
}

impl View for OpenResponsesWebSearchOverride {
    type V = WebSearchOverrideView;

    open spec fn view(&self) -> WebSearchOverrideView {
        WebSearchOverrideView {
            enabled: self.enabled,
            search_context_size: self.search_context_size,
            external_web_access: self.external_web_access,
            user_location: opt_location_view(self.user_location),
        }
    }
}

pub open spec fn override_is_empty(o: WebSearchOverrideView) -> bool {
    o.enabled is None && o.search_context_size is None && o.external_web_access is None
        && o.user_location is None
}

/// Each setting present in the override replaces the target's; a location
/// replaces the target's by its normalised form.
pub open spec fn apply_override(o: WebSearchOverrideView, t: WebSearchView) -> WebSearchView {
    WebSearchView {
        enabled: match o.enabled {
            Some(e) => e,
            None => t.enabled,
        },
        search_context_size: match o.search_context_size {
            Some(s) => Some(s),
            None => t.search_context_size,
        },
        external_web_access: match o.external_web_access {
            Some(e) => Some(e),
            None => t.external_web_access,
        },
        user_location: match o.user_location {
            Some(l) => normalize_location(l),
            None => t.user_location,
        },
    }
}

/// The settings an override stands for on its own.
pub open spec fn override_into_config(o: WebSearchOverrideView) -> Option<WebSearchView> {
    if override_is_empty(o) {
        None
    } else {
        normalize_web_search(apply_override(o, default_web_search()))
    }
}

impl OpenResponsesWebSearchOverride {
    pub fn is_empty(&self) -> (r: bool)
        ensures
            r == override_is_empty(self@),
    {
        self.enabled.is_none() && self.search_context_size.is_none()
            && self.external_web_access.is_none() && self.user_location.is_none()
    }

    pub fn apply_to(&self, target: &mut OpenResponsesWebSearchConfig)
        ensures
            final(target)@ == apply_override(self@, old(target)@),
    {
        if let Some(enabled) = self.enabled {
            target.enabled = enabled;
        }
        if let Some(search_context_size) = self.search_context_size {
            target.search_context_size = Some(search_context_size);
        }
        if let Some(external_web_access) = self.external_web_access {
            target.external_web_access = Some(external_web_access);
        }
        match &self.user_location {
            Some(user_location) => {
                target.user_location = user_location.copied().normalized();
            },
            None => {},
        }
    }

    pub fn into_config(self) -> (r: Option<OpenResponsesWebSearchConfig>)
        ensures
            opt_web_search_view(r) == override_into_config(self@),
    {
        if self.is_empty() {
            return None;
        }
        let mut cfg = OpenResponsesWebSearchConfig::default();
        self.apply_to(&mut cfg);
        cfg.normalized()
    }
}

/// An empty override changes nothing it is applied to, and stands for no settings.
pub proof fn lemma_empty_override_is_identity(o: WebSearchOverrideView, t: WebSearchView)
    requires
        override_is_empty(o),
    ensures
        apply_override(o, t) == t,
        override_into_config(o) is None,
{
}

#[derive(Clone, Copy, Debug, Default, PartialEq, Eq, Structural)]
pub struct OpenResponsesReasoningConfig {
    pub effort: Option<ReasoningEffort>,
    pub summary: Option<ReasoningSummary>,
}

impl OpenResponsesReasoningConfig {
    pub open spec fn spec_is_empty(&self) -> bool {
        self.effort is None && self.summary is None
    }

    pub fn is_empty(&self) -> (r: bool)
        ensures
            r == self.spec_is_empty(),
    {
        self.effort.is_none() && self.summary.is_none()
    }

    pub fn normalized(self) -> (r: Option<Self>)
        ensures
            r == (if self.spec_is_empty() {
                None
            } else {
                Some(self)
            }),
    {
        if self.is_empty() {
            None
        } else {
            Some(self)
        }
    }
}

/// Parsing the canonical path of an include value (as `as_str` writes it)
/// gives that value back.
pub proof fn lemma_include_name_round_trip(i: OpenResponsesInclude)
    ensures
        spec_parse_include(include_name(i)) == Some(i),
{
    reveal_strlit("file_search_call.results");
    reveal_strlit("web_search_call.results");
    reveal_strlit("web_search_call.action.sources");
    reveal_strlit("message.input_image.image_url");
    reveal_strlit("computer_call_output.output.image_url");
    reveal_strlit("code_interpreter_call.outputs");
    reveal_strlit("reasoning.encrypted_content");
    reveal_strlit("message.output_text.logprobs");
    lemma_trim_of_unpadded(include_name(i));
}

/// Parsing the wire name of a reasoning effort gives that effort back.
pub proof fn lemma_effort_name_round_trip(e: ReasoningEffort)
    ensures
        spec_parse_effort(effort_name(e)) == Some(e),
{
    reveal_strlit("none");
    reveal_strlit("minimal");
    reveal_strlit("low");
    reveal_strlit("medium");
    reveal_strlit("high");
    reveal_strlit("xhigh");
    lemma_trim_of_unpadded(effort_name(e));
}

/// Parsing the wire name of a summary mode gives that mode back.
pub proof fn lemma_summary_name_round_trip(s: ReasoningSummary)
    ensures
        spec_parse_summary(summary_name(s)) == Some(s),
{
    reveal_strlit("concise");
    reveal_strlit("detailed");
    reveal_strlit("auto");
    lemma_trim_of_unpadded(summary_name(s));
}

/// Parsing the wire name of a context size gives that size back.
pub proof fn lemma_context_size_name_round_trip(s: SearchContextSize)
    ensures
        spec_parse_context_size(context_size_name(s)) == Some(s),
{
    reveal_strlit("low");
    reveal_strlit("medium");
    reveal_strlit("high");
    lemma_trim_of_unpadded(context_size_name(s));
}

/// A non-empty text without whitespace at either end is its own trim.
proof fn lemma_trim_of_unpadded(s: Seq<char>)
    requires
        s.len() > 0,
        !crate::text::is_ws(s[0]),
        !crate::text::is_ws(s[s.len() - 1]),
    ensures
        spec_trim(s) == s,
{
    assert(crate::text::skip_ws(s, 0) == 0);
    assert(crate::text::back_ws(s, s.len() as int, 0) == s.len());
    assert(s.subrange(0, s.len() as int) =~= s);
}

/// Whitespace around a text whose ends are not whitespace is what trimming
/// removes.
proof fn lemma_trim_padded(p: Seq<char>, n: Seq<char>, q: Seq<char>)
    requires
        n.len() > 0,
        !crate::text::is_ws(n[0]),
        !crate::text::is_ws(n[n.len() - 1]),
        forall|i: int| 0 <= i < p.len() ==> crate::text::is_ws(#[trigger] p[i]),
        forall|i: int| 0 <= i < q.len() ==> crate::text::is_ws(#[trigger] q[i]),
    ensures
        spec_trim(p + n + q) == n,
{
    let x = p + n + q;
    crate::text::lemma_skip_ws_bounds(x, 0);
    let a = crate::text::skip_ws(x, 0);
    if a < p.len() {
        assert(x[a] == p[a]);
    }
    if a > p.len() {
        assert(crate::text::is_ws(x[p.len() as int]));
        assert(x[p.len() as int] == n[0]);
    }
    assert(a == p.len());
    crate::text::lemma_back_ws_bounds(x, x.len() as int, a);
    let b = crate::text::back_ws(x, x.len() as int, a);
    let e = p.len() + n.len();
    if b < e {
        assert(crate::text::is_ws(x[e - 1]));
        assert(x[e - 1] == n[n.len() - 1]);
    }
    if b > e {
        assert(x[b - 1] == q[b - 1 - e]);
    }
    assert(b == e);
    assert(x.subrange(a, b) =~= n);
}

/// A reasoning summary mode's name is read back with any whitespace around it.
pub proof fn lemma_summary_name_padded(s: ReasoningSummary, p: Seq<char>, q: Seq<char>)
    requires
        forall|i: int| 0 <= i < p.len() ==> crate::text::is_ws(#[trigger] p[i]),
        forall|i: int| 0 <= i < q.len() ==> crate::text::is_ws(#[trigger] q[i]),
    ensures
        spec_parse_summary(p + summary_name(s) + q) == Some(s),
{
    reveal_strlit("concise");
    reveal_strlit("detailed");
    reveal_strlit("auto");
    lemma_trim_padded(p, summary_name(s), q);
    lemma_summary_name_round_trip(s);
}

/// An include value's path is read back with any whitespace around it.
pub proof fn lemma_include_name_padded(v: OpenResponsesInclude, p: Seq<char>, q: Seq<char>)
    requires
        forall|i: int| 0 <= i < p.len() ==> crate::text::is_ws(#[trigger] p[i]),
        forall|i: int| 0 <= i < q.len() ==> crate::text::is_ws(#[trigger] q[i]),
    ensures
        spec_parse_include(p + include_name(v) + q) == Some(v),
{
    reveal_strlit("file_search_call.results");
    reveal_strlit("web_search_call.results");
    reveal_strlit("web_search_call.action.sources");
    reveal_strlit("message.input_image.image_url");
    reveal_strlit("computer_call_output.output.image_url");
    reveal_strlit("code_interpreter_call.outputs");
    reveal_strlit("reasoning.encrypted_content");
    reveal_strlit("message.output_text.logprobs");
    lemma_trim_padded(p, include_name(v), q);
    lemma_include_name_round_trip(v);
}

} // verus!
