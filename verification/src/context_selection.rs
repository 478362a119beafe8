//! How a continuity run chooses the context it sends to the model: plain
//! recent messages, one compaction summary before them, or a hierarchy of
//! summaries; why that choice was made; and the text of a summary message.

use vstd::prelude::*;

use crate::json::{items_view, lemma_items_view, Json, JsonNumber, JsonView, NumberView, ObjectBuilder};
use crate::text::{concat2, owned, str_eq};

verus! {

/// The identifier of the context compiler, as reported in its decisions.
pub open spec fn compiler_id() -> Seq<char> {
    "rip.context_compiler.v1"@
}

/// The context compiler's identifier.
pub fn context_compiler_id() -> (r: &'static str)
    ensures
        r@ == compiler_id(),
{
    "rip.context_compiler.v1"
}

/// A compaction checkpoint of the continuity, as the compiler sees it.
#[derive(Debug)]
pub struct CheckpointForCompile {
    pub checkpoint_id: String,
    pub summary_kind: String,
    pub summary_artifact_id: String,
    pub to_seq: u64,
}

pub ghost struct CheckpointView {
    pub checkpoint_id: Seq<char>,
    pub summary_kind: Seq<char>,
    pub summary_artifact_id: Seq<char>,
    pub to_seq: u64,
}

impl View for CheckpointForCompile {
    type V = CheckpointView;

    open spec fn view(&self) -> CheckpointView {
        CheckpointView {
            checkpoint_id: self.checkpoint_id@,
            summary_kind: self.summary_kind@,
            summary_artifact_id: self.summary_artifact_id@,
            to_seq: self.to_seq,
        }
    }
}

impl CheckpointForCompile {
    /// A copy of the checkpoint.
    pub fn duplicate(&self) -> (r: CheckpointForCompile)
        ensures
            r@ == self@,
    {
        CheckpointForCompile {
            checkpoint_id: self.checkpoint_id.clone(),
            summary_kind: self.summary_kind.clone(),
            summary_artifact_id: self.summary_artifact_id.clone(),
            to_seq: self.to_seq,
        }
    }
}

pub open spec fn checkpoints_view(s: Seq<CheckpointForCompile>) -> Seq<CheckpointView> {
    s.map_values(|c: CheckpointForCompile| c@)
}

/// The ways the compiler can build a run's context.
#[derive(Clone, Copy, Debug, PartialEq, Eq, Structural)]
pub enum ContextStrategy {
    /// The most recent messages only.
    RecentMessages,
    /// The latest compaction summary, then the messages after it.
    SummariesRecentMessages,
    /// A hierarchy of compaction summaries, then the messages after them.
    HierarchicalSummariesRecentMessages,
}

pub open spec fn strategy_name(s: ContextStrategy) -> Seq<char> {
    match s {
        ContextStrategy::RecentMessages => "recent_messages_v1"@,
        ContextStrategy::SummariesRecentMessages => "summaries_recent_messages_v1"@,
        ContextStrategy::HierarchicalSummariesRecentMessages => "hierarchical_summaries_recent_messages_v1"@,
    }
}

impl ContextStrategy {
    pub fn as_str(&self) -> (r: &'static str)
        ensures
            r@ == strategy_name(*self),
    {
        match self {
            ContextStrategy::RecentMessages => "recent_messages_v1",
            ContextStrategy::SummariesRecentMessages => "summaries_recent_messages_v1",
            ContextStrategy::HierarchicalSummariesRecentMessages => "hierarchical_summaries_recent_messages_v1",
        }
    }
}

/// The strategy for a run: no checkpoint in the hierarchy means recent
/// messages only, one means a single summary, two or more a hierarchy.
pub open spec fn spec_strategy(hierarchy: Seq<CheckpointView>) -> ContextStrategy {
    if hierarchy.len() == 0 {
        ContextStrategy::RecentMessages
    } else if hierarchy.len() >= 2 {
        ContextStrategy::HierarchicalSummariesRecentMessages
    } else {
        ContextStrategy::SummariesRecentMessages
    }
}

/// Why the strategy was chosen. Without a hierarchy the latest checkpoint
/// of any kind, if there is one, tells whether it was of an unsupported kind.
pub open spec fn selection_cause(
    hierarchy: Seq<CheckpointView>,
    latest: Option<CheckpointView>,
    supported_kind: Seq<char>,
) -> Seq<char> {
    if hierarchy.len() == 0 {
        match latest {
            Some(c) => if c.summary_kind != supported_kind {
                "unsupported_compaction_summary_kind"@
            } else {
                "no_supported_compaction_checkpoint"@
            },
            None => "no_compaction_checkpoint"@,
        }
    } else if hierarchy.len() >= 2 {
        "compaction_checkpoint_hierarchy"@
    } else {
        "compaction_checkpoint"@
    }
}

pub open spec fn to_seqs_view(hierarchy: Seq<CheckpointView>) -> Seq<JsonView> {
    hierarchy.map_values(|c: CheckpointView| JsonView::Number(NumberView::PosInt(c.to_seq)))
}

/// The reason object: the selected strategy and the cause, and for a
/// hierarchy its number of levels and the sequence numbers its summaries
/// reach.
pub open spec fn selection_reason(
    hierarchy: Seq<CheckpointView>,
    latest: Option<CheckpointView>,
    supported_kind: Seq<char>,
) -> JsonView {
    let base = seq![
        ("selected"@, JsonView::Str(strategy_name(spec_strategy(hierarchy)))),
        ("cause"@, JsonView::Str(selection_cause(hierarchy, latest, supported_kind))),
    ];
    if hierarchy.len() >= 2 {
        JsonView::Object(
            base + seq![
                ("levels"@, JsonView::Number(NumberView::PosInt(hierarchy.len() as u64))),
                ("to_seqs"@, JsonView::Array(to_seqs_view(hierarchy))),
            ],
        )
    } else {
        JsonView::Object(base)
    }
}

/// An input the compiler set aside, and why.
#[derive(Debug)]
pub struct SelectionReset {
    pub input: String,
    pub action: String,
    pub reason: String,
    pub reference: Option<Json>,
}

pub ghost struct ResetView {
    pub input: Seq<char>,
    pub action: Seq<char>,
    pub reason: Seq<char>,
    pub reference: Option<JsonView>,
}

impl View for SelectionReset {
    type V = ResetView;

    open spec fn view(&self) -> ResetView {
        ResetView {
            input: self.input@,
            action: self.action@,
            reason: self.reason@,
            reference: match self.reference {
                Some(j) => Some(j@),
                None => None,
            },
        }
    }
}

pub open spec fn resets_view(s: Seq<SelectionReset>) -> Seq<ResetView> {
    s.map_values(|r: SelectionReset| r@)
}

/// The resets of a selection: a latest checkpoint of an unsupported kind is
/// reported as ignored when there is no hierarchy; nothing else is.
pub open spec fn selection_resets(
    hierarchy: Seq<CheckpointView>,
    latest: Option<CheckpointView>,
    supported_kind: Seq<char>,
) -> Seq<ResetView> {
    if hierarchy.len() == 0 && latest is Some && latest->0.summary_kind != supported_kind {
        seq![
            ResetView {
                input: "compaction_checkpoint"@,
                action: "ignored"@,
                reason: "unsupported_summary_kind"@,
                reference: Some(
                    JsonView::Object(seq![("summary_kind"@, JsonView::Str(latest->0.summary_kind))]),
                ),
            },
        ]
    } else {
        Seq::empty()
    }
}

/// What the compiler decided for a run.
#[derive(Debug)]
pub struct ContextSelection {
    pub strategy: ContextStrategy,
    pub reason: Json,
    pub resets: Vec<SelectionReset>,
    /// The checkpoints the context is built on, oldest first.
    pub compaction_checkpoints: Vec<CheckpointForCompile>,
    /// The last of them.
    pub compaction_checkpoint: Option<CheckpointForCompile>,
}

/// Chooses how to build a run's context from the continuity's hierarchy of
/// compaction checkpoints (oldest first), the latest checkpoint of any kind,
/// and the summary kind the compiler supports.
pub fn select_context_strategy(
    hierarchy: &Vec<CheckpointForCompile>,
    latest: Option<&CheckpointForCompile>,
    supported_kind: &str,
) -> (r: ContextSelection)
    ensures
        ({
            let h = checkpoints_view(hierarchy@);
            let l = match latest {
                Some(c) => Some(c@),
                None => None,
            };
            &&& r.strategy == spec_strategy(h)
            &&& r.reason@ == selection_reason(h, l, supported_kind@)
            &&& resets_view(r.resets@) == selection_resets(h, l, supported_kind@)
            &&& checkpoints_view(r.compaction_checkpoints@) == h
            &&& (match r.compaction_checkpoint {
                Some(c) => h.len() > 0 && c@ == h.last(),
                None => h.len() == 0,
            })
        }),
{
    let ghost h = checkpoints_view(hierarchy@);
    let ghost l = match latest {
        Some(c) => Some(c@),
        None => None::<CheckpointView>,
    };
    let n = hierarchy.len();
    let strategy = if n == 0 {
        ContextStrategy::RecentMessages
    } else if n >= 2 {
        ContextStrategy::HierarchicalSummariesRecentMessages
    } else {
        ContextStrategy::SummariesRecentMessages
    };
    let mut resets: Vec<SelectionReset> = Vec::new();
    let cause: &str = if n == 0 {
        match latest {
            Some(c) => {
                if !str_eq(c.summary_kind.as_str(), supported_kind) {
                    let mut reference = ObjectBuilder::new();
                    reference.insert("summary_kind", Json::Str(c.summary_kind.clone()));
                    let ghost rms = reference.spec_members();
                    let reference = reference.build();
                    assert(rms =~= seq![("summary_kind"@, JsonView::Str(c.summary_kind@))]);
                    resets.push(
                        SelectionReset {
                            input: owned("compaction_checkpoint"),
                            action: owned("ignored"),
                            reason: owned("unsupported_summary_kind"),
                            reference: Some(reference),
                        },
                    );
                    "unsupported_compaction_summary_kind"
                } else {
                    "no_supported_compaction_checkpoint"
                }
            },
            None => "no_compaction_checkpoint",
        }
    } else if n >= 2 {
        "compaction_checkpoint_hierarchy"
    } else {
        "compaction_checkpoint"
    };
    assert(resets_view(resets@) =~= selection_resets(h, l, supported_kind@));
    let mut reason = ObjectBuilder::new();
    reason.insert("selected", Json::string(strategy.as_str()));
    reason.insert("cause", Json::string(cause));
    let mut copies: Vec<CheckpointForCompile> = Vec::new();
    let mut to_seqs: Vec<Json> = Vec::new();
    let mut i: usize = 0;
    while i < n
        invariant
            n == hierarchy.len(),
            h == checkpoints_view(hierarchy@),
            i <= n,
            copies@.len() == i,
            to_seqs@.len() == i,
            forall|k: int| 0 <= k < i ==> #[trigger] copies@[k]@ == hierarchy@[k]@,
            forall|k: int| 0 <= k < i ==> #[trigger] to_seqs@[k]@ == JsonView::Number(NumberView::PosInt(hierarchy@[k].to_seq)),
        decreases n - i,
    {
        copies.push(hierarchy[i].duplicate());
        to_seqs.push(Json::Number(JsonNumber::PosInt(hierarchy[i].to_seq)));
        i = i + 1;
    }
    proof {
        lemma_items_view(to_seqs@);
        assert forall|k: int| 0 <= k < n implies #[trigger] items_view(to_seqs@)[k] == to_seqs_view(h)[k] by {
            assert(h[k] == hierarchy@[k]@);
            assert(to_seqs@[k]@ == JsonView::Number(NumberView::PosInt(hierarchy@[k].to_seq)));
        }
        assert(items_view(to_seqs@) =~= to_seqs_view(h));
        assert(checkpoints_view(copies@) =~= h);
    }
    if n >= 2 {
        reason.insert("levels", Json::Number(JsonNumber::PosInt(n as u64)));
        reason.insert("to_seqs", Json::Array(to_seqs));
    }
    let ghost ms = reason.spec_members();
    let reason = reason.build();
    assert(strategy == spec_strategy(h));
    assert(cause@ == selection_cause(h, l, supported_kind@));
    assert(ms =~= selection_reason(h, l, supported_kind@)->Object_0);
    let last = if n == 0 {
        None
    } else {
        Some(hierarchy[n - 1].duplicate())
    };
    ContextSelection {
        strategy,
        reason,
        resets,
        compaction_checkpoints: copies,
        compaction_checkpoint: last,
    }
}

/// The text of the system message that stands for a compaction summary: a
/// heading line, the note on a line of its own if there is one, then the
/// summary.
pub open spec fn summary_message_text(note: Option<Seq<char>>, summary: Seq<char>) -> Seq<char> {
    "Compaction summary (earlier context)\n"@ + match note {
        Some(n) => n + "\n"@,
        None => Seq::empty(),
    } + summary
}

pub fn summary_message_content(note: Option<&str>, summary: &str) -> (r: String)
    ensures
        r@ == summary_message_text(
            match note {
                Some(n) => Some(n@),
                None => None,
            },
            summary@,
        ),
{
    let mut content = owned("Compaction summary (earlier context)\n");
    match note {
        Some(n) => {
            content = concat2(content.as_str(), n);
            content = concat2(content.as_str(), "\n");
        },
        None => {},
    }
    concat2(content.as_str(), summary)
}

} // verus!
