//! Which handlers the two passes over the input run, and in which order.
//!
//! The first pass filters ways and relations and collects the ids of the
//! nodes to keep; the second pass filters, enriches and writes.

use vstd::prelude::*;

verus! {

/// One handler of a processing chain.
#[derive(Debug, Clone, Copy, PartialEq, Eq, Structural)]
pub enum ChainStep {
    /// Counts the elements read (`ElementCounter` with `InputCount`).
    CountInput,
    /// Counts the elements accepted (`ElementCounter` with `AcceptedCount`).
    CountAccepted,
    /// Counts the elements written (`ElementCounter` with `OutputCount`).
    CountOutput,
    /// Prints the selected elements as read.
    PrintInput,
    /// Prints the selected elements before elevation enrichment (trace logging only).
    PrintBeforeElevation,
    /// Prints the selected elements after elevation enrichment (trace logging only).
    PrintAfterElevation,
    /// Prints the selected elements as written.
    PrintOutput,
    /// Removes all nodes (`AllElementsFilter` on nodes).
    RemoveAllNodes,
    /// Keeps the ways and relations relevant for routing (`ComplexElementsFilter::ors_default`).
    RoutingFilter,
    /// Marks the nodes referenced by accepted ways and relations (`ReferencedNodeIdCollector`).
    CollectReferencedNodes,
    /// Marks the nodes of bridges, tunnels and the like (`SkipElevationNodeCollector`).
    CollectNoElevationNodes,
    /// Keeps the marked nodes only (`NodeIdFilter`).
    FilterNodesById,
    /// Removes editing metadata (`MetadataRemover`).
    RemoveMetadata,
    /// Adds elevation to nodes from the elevation files.
    EnrichElevation,
    /// Adds country codes from a country index that is loaded.
    LoadCountryIndex,
    /// Adds country codes from a country index built from a CSV file.
    BuildCountryIndex,
    /// Removes source, note, url, created_by, fixme and wikipedia tags (`TagFilterByKey`).
    RemoveUnwantedTags,
    /// Writes the output, splitting ways at elevation changes.
    WriteSplitting,
    /// Writes the output as it is.
    WriteSimple,
}

/// The options of a run that decide which handlers run.
pub struct ChainOptions {
    /// Remove the nodes no accepted way or relation references.
    pub with_node_filtering: bool,
    /// Remove editing metadata.
    pub remove_metadata: bool,
    /// Elevation files were given.
    pub enrich_elevation: bool,
    /// Split ways at elevation changes.
    pub elevation_way_splitting: bool,
    /// A country index directory was given.
    pub has_country_index: bool,
    /// A country CSV file was given.
    pub has_country_csv: bool,
    /// An output file was given.
    pub has_output: bool,
    /// Trace logging is enabled.
    pub trace: bool,
}

/// The keys of the tags that the second pass removes, as a regular expression.
pub const TAGS_TO_REMOVE: &'static str = "(.*:)?source(:.*)?|(.*:)?note(:.*)?|url|created_by|fixme|wikipedia";

/// Countries are added when a country CSV file or index was given.
pub open spec fn spec_should_enrich_country(o: ChainOptions) -> bool {
    o.has_country_csv || o.has_country_index
}

/// A given country index is loaded.
pub open spec fn spec_should_load_country_index(o: ChainOptions) -> bool {
    o.has_country_index
}

/// A country index is built from the CSV file when no index was given.
pub open spec fn spec_should_build_country_index(o: ChainOptions) -> bool {
    o.has_country_csv && !o.has_country_index
}

/// `s` when `b` holds, else nothing.
pub open spec fn steps_if(b: bool, s: Seq<ChainStep>) -> Seq<ChainStep> {
    if b { s } else { Seq::empty() }
}

/// The handlers of the first pass: count, drop nodes, filter for routing,
/// count, then collect the nodes to keep and those without elevation.
pub open spec fn filter_plan(o: ChainOptions) -> Seq<ChainStep> {
    seq![ChainStep::CountInput, ChainStep::RemoveAllNodes, ChainStep::RoutingFilter, ChainStep::CountAccepted]
        + steps_if(o.with_node_filtering, seq![ChainStep::CollectReferencedNodes])
        + steps_if(o.enrich_elevation, seq![ChainStep::CollectNoElevationNodes])
}

/// The first handlers of the second pass: count, print, filter for routing,
/// keep the collected nodes, remove metadata, count.
pub open spec fn head_steps(o: ChainOptions) -> Seq<ChainStep> {
    seq![ChainStep::CountInput, ChainStep::PrintInput, ChainStep::RoutingFilter]
        + steps_if(o.with_node_filtering, seq![ChainStep::FilterNodesById])
        + steps_if(o.remove_metadata, seq![ChainStep::RemoveMetadata])
        + seq![ChainStep::CountAccepted]
}

/// The elevation handlers of the second pass.
pub open spec fn elevation_steps(o: ChainOptions) -> Seq<ChainStep> {
    steps_if(o.enrich_elevation,
        steps_if(o.trace, seq![ChainStep::PrintBeforeElevation])
        + seq![ChainStep::EnrichElevation]
        + steps_if(o.trace, seq![ChainStep::PrintAfterElevation]))
}

/// The country handlers of the second pass.
pub open spec fn country_steps(o: ChainOptions) -> Seq<ChainStep> {
    steps_if(spec_should_enrich_country(o),
        steps_if(spec_should_load_country_index(o), seq![ChainStep::LoadCountryIndex])
        + steps_if(spec_should_build_country_index(o), seq![ChainStep::BuildCountryIndex]))
}

/// The last handlers of the second pass: remove unwanted tags, count, print, write.
pub open spec fn tail_steps(o: ChainOptions) -> Seq<ChainStep> {
    seq![ChainStep::RemoveUnwantedTags, ChainStep::CountOutput, ChainStep::PrintOutput]
        + steps_if(o.has_output,
            if o.elevation_way_splitting { seq![ChainStep::WriteSplitting] } else { seq![ChainStep::WriteSimple] })
}

/// The handlers of the second pass.
pub open spec fn processing_plan(o: ChainOptions) -> Seq<ChainStep> {
    head_steps(o) + elevation_steps(o) + country_steps(o) + tail_steps(o)
}

pub fn should_enrich_country(o: &ChainOptions) -> (b: bool)
    ensures
        b == spec_should_enrich_country(*o),
{
    o.has_country_csv || o.has_country_index
}

pub fn should_load_country_index(o: &ChainOptions) -> (b: bool)
    ensures
        b == spec_should_load_country_index(*o),
{
    o.has_country_index
}

pub fn should_build_country_index(o: &ChainOptions) -> (b: bool)
    ensures
        b == spec_should_build_country_index(*o),
{
    o.has_country_csv && !o.has_country_index
}

/// The handlers of the first pass, in order.
pub fn filter_chain_plan(o: &ChainOptions) -> (v: Vec<ChainStep>)
    ensures
        v@ == filter_plan(*o),
{
    let mut v: Vec<ChainStep> = Vec::new();
    v.push(ChainStep::CountInput);
    v.push(ChainStep::RemoveAllNodes);
    v.push(ChainStep::RoutingFilter);
    v.push(ChainStep::CountAccepted);
    if o.with_node_filtering {
        v.push(ChainStep::CollectReferencedNodes);
    }
    if o.enrich_elevation {
        v.push(ChainStep::CollectNoElevationNodes);
    }
    assert(v@ =~= filter_plan(*o));
    v
}

fn push_head_steps(v: &mut Vec<ChainStep>, o: &ChainOptions)
    ensures
        final(v)@ == old(v)@ + head_steps(*o),
{
    v.push(ChainStep::CountInput);
    v.push(ChainStep::PrintInput);
    v.push(ChainStep::RoutingFilter);
    if o.with_node_filtering {
        v.push(ChainStep::FilterNodesById);
    }
    if o.remove_metadata {
        v.push(ChainStep::RemoveMetadata);
    }
    v.push(ChainStep::CountAccepted);
    assert(final(v)@ =~= old(v)@ + head_steps(*o));
}

fn push_elevation_steps(v: &mut Vec<ChainStep>, o: &ChainOptions)
    ensures
        final(v)@ == old(v)@ + elevation_steps(*o),
{
    if o.enrich_elevation {
        if o.trace {
            v.push(ChainStep::PrintBeforeElevation);
        }
        v.push(ChainStep::EnrichElevation);
        if o.trace {
            v.push(ChainStep::PrintAfterElevation);
        }
    }
    assert(final(v)@ =~= old(v)@ + elevation_steps(*o));
}

fn push_country_steps(v: &mut Vec<ChainStep>, o: &ChainOptions)
    ensures
        final(v)@ == old(v)@ + country_steps(*o),
{
    if should_enrich_country(o) {
        if should_load_country_index(o) {
            v.push(ChainStep::LoadCountryIndex);
        }
        if should_build_country_index(o) {
            v.push(ChainStep::BuildCountryIndex);
        }
    }
    assert(final(v)@ =~= old(v)@ + country_steps(*o));
}

fn push_tail_steps(v: &mut Vec<ChainStep>, o: &ChainOptions)
    ensures
        final(v)@ == old(v)@ + tail_steps(*o),
{
    v.push(ChainStep::RemoveUnwantedTags);
    v.push(ChainStep::CountOutput);
    v.push(ChainStep::PrintOutput);
    if o.has_output {
        if o.elevation_way_splitting {
            v.push(ChainStep::WriteSplitting);
        } else {
            v.push(ChainStep::WriteSimple);
        }
    }
    assert(final(v)@ =~= old(v)@ + tail_steps(*o));
}

/// The handlers of the second pass, in order.
pub fn processing_chain_plan(o: &ChainOptions) -> (v: Vec<ChainStep>)
    ensures
        v@ == processing_plan(*o),
{
    let mut v: Vec<ChainStep> = Vec::new();
    push_head_steps(&mut v, o);
    push_elevation_steps(&mut v, o);
    push_country_steps(&mut v, o);
    push_tail_steps(&mut v, o);
    assert(v@ =~= processing_plan(*o));
    v
}

/// How detailed the summary is: nothing when quiet, else one level more
/// than the number of `-v` flags.
pub open spec fn spec_summary_level(verbosity: u8, quiet: bool) -> u8 {
    if quiet {
        0
    } else if verbosity == u8::MAX {
        u8::MAX
    } else {
        (verbosity + 1) as u8
    }
}

/// How detailed the summary is.
pub fn summary_level(verbosity: u8, quiet: bool) -> (l: u8)
    ensures
        l == spec_summary_level(verbosity, quiet),
{
    if quiet {
        0
    } else {
        verbosity.saturating_add(1)
    }
}

/// `steps_if(b, s)` holds `x` exactly when `b` holds and `s` holds `x`.
proof fn lemma_steps_if_contains(b: bool, s: Seq<ChainStep>, x: ChainStep)
    ensures
        steps_if(b, s).contains(x) == (b && s.contains(x)),
{
    if !b {
        assert(!Seq::<ChainStep>::empty().contains(x));
    }
}

/// A sequence of one step holds exactly that step.
proof fn lemma_one_contains(a: ChainStep, x: ChainStep)
    ensures
        seq![a].contains(x) == (a == x),
{
    if a == x {
        assert(seq![a][0] == x);
    }
}

/// The steps of the head of the second pass.
proof fn lemma_head_contains(o: ChainOptions, x: ChainStep)
    ensures
        head_steps(o).contains(x) == (x == ChainStep::CountInput || x == ChainStep::PrintInput
            || x == ChainStep::RoutingFilter || (o.with_node_filtering && x == ChainStep::FilterNodesById)
            || (o.remove_metadata && x == ChainStep::RemoveMetadata) || x == ChainStep::CountAccepted),
{
    broadcast use vstd::seq_lib::lemma_seq_concat_contains_all_elements;
    let a = seq![ChainStep::CountInput, ChainStep::PrintInput, ChainStep::RoutingFilter];
    assert(a.contains(x) == (x == ChainStep::CountInput || x == ChainStep::PrintInput || x == ChainStep::RoutingFilter)) by {
        if x == ChainStep::CountInput { assert(a[0] == x); }
        if x == ChainStep::PrintInput { assert(a[1] == x); }
        if x == ChainStep::RoutingFilter { assert(a[2] == x); }
    }
    lemma_steps_if_contains(o.with_node_filtering, seq![ChainStep::FilterNodesById], x);
    lemma_one_contains(ChainStep::FilterNodesById, x);
    lemma_steps_if_contains(o.remove_metadata, seq![ChainStep::RemoveMetadata], x);
    lemma_one_contains(ChainStep::RemoveMetadata, x);
    lemma_one_contains(ChainStep::CountAccepted, x);
}

/// The steps of the elevation part of the second pass.
proof fn lemma_elevation_contains(o: ChainOptions, x: ChainStep)
    ensures
        elevation_steps(o).contains(x) == (o.enrich_elevation && ((o.trace && x == ChainStep::PrintBeforeElevation)
            || x == ChainStep::EnrichElevation || (o.trace && x == ChainStep::PrintAfterElevation))),
{
    broadcast use vstd::seq_lib::lemma_seq_concat_contains_all_elements;
    lemma_steps_if_contains(o.trace, seq![ChainStep::PrintBeforeElevation], x);
    lemma_one_contains(ChainStep::PrintBeforeElevation, x);
    lemma_one_contains(ChainStep::EnrichElevation, x);
    lemma_steps_if_contains(o.trace, seq![ChainStep::PrintAfterElevation], x);
    lemma_one_contains(ChainStep::PrintAfterElevation, x);
    lemma_steps_if_contains(o.enrich_elevation,
        steps_if(o.trace, seq![ChainStep::PrintBeforeElevation]) + seq![ChainStep::EnrichElevation]
            + steps_if(o.trace, seq![ChainStep::PrintAfterElevation]), x);
}

/// The steps of the country part of the second pass.
proof fn lemma_country_contains(o: ChainOptions, x: ChainStep)
    ensures
        country_steps(o).contains(x) == ((o.has_country_index && x == ChainStep::LoadCountryIndex)
            || (o.has_country_csv && !o.has_country_index && x == ChainStep::BuildCountryIndex)),
{
    broadcast use vstd::seq_lib::lemma_seq_concat_contains_all_elements;
    lemma_steps_if_contains(spec_should_load_country_index(o), seq![ChainStep::LoadCountryIndex], x);
    lemma_one_contains(ChainStep::LoadCountryIndex, x);
    lemma_steps_if_contains(spec_should_build_country_index(o), seq![ChainStep::BuildCountryIndex], x);
    lemma_one_contains(ChainStep::BuildCountryIndex, x);
    lemma_steps_if_contains(spec_should_enrich_country(o),
        steps_if(spec_should_load_country_index(o), seq![ChainStep::LoadCountryIndex])
            + steps_if(spec_should_build_country_index(o), seq![ChainStep::BuildCountryIndex]), x);
}

/// The steps of the tail of the second pass.
proof fn lemma_tail_contains(o: ChainOptions, x: ChainStep)
    ensures
        tail_steps(o).contains(x) == (x == ChainStep::RemoveUnwantedTags || x == ChainStep::CountOutput
            || x == ChainStep::PrintOutput || (o.has_output && o.elevation_way_splitting && x == ChainStep::WriteSplitting)
            || (o.has_output && !o.elevation_way_splitting && x == ChainStep::WriteSimple)),
{
    broadcast use vstd::seq_lib::lemma_seq_concat_contains_all_elements;
    let a = seq![ChainStep::RemoveUnwantedTags, ChainStep::CountOutput, ChainStep::PrintOutput];
    assert(a.contains(x) == (x == ChainStep::RemoveUnwantedTags || x == ChainStep::CountOutput || x == ChainStep::PrintOutput)) by {
        if x == ChainStep::RemoveUnwantedTags { assert(a[0] == x); }
        if x == ChainStep::CountOutput { assert(a[1] == x); }
        if x == ChainStep::PrintOutput { assert(a[2] == x); }
    }
    let w = if o.elevation_way_splitting { seq![ChainStep::WriteSplitting] } else { seq![ChainStep::WriteSimple] };
    lemma_steps_if_contains(o.has_output, w, x);
    lemma_one_contains(ChainStep::WriteSplitting, x);
    lemma_one_contains(ChainStep::WriteSimple, x);
}

/// The steps of the second pass, part by part.
proof fn lemma_processing_contains(o: ChainOptions, x: ChainStep)
    ensures
        processing_plan(o).contains(x) == (head_steps(o).contains(x) || elevation_steps(o).contains(x)
            || country_steps(o).contains(x) || tail_steps(o).contains(x)),
{
    broadcast use vstd::seq_lib::lemma_seq_concat_contains_all_elements;
}

/// The steps of the first pass.
proof fn lemma_filter_contains(o: ChainOptions, x: ChainStep)
    ensures
        filter_plan(o).contains(x) == (x == ChainStep::CountInput || x == ChainStep::RemoveAllNodes
            || x == ChainStep::RoutingFilter || x == ChainStep::CountAccepted
            || (o.with_node_filtering && x == ChainStep::CollectReferencedNodes)
            || (o.enrich_elevation && x == ChainStep::CollectNoElevationNodes)),
{
    broadcast use vstd::seq_lib::lemma_seq_concat_contains_all_elements;
    let a = seq![ChainStep::CountInput, ChainStep::RemoveAllNodes, ChainStep::RoutingFilter, ChainStep::CountAccepted];
    assert(a.contains(x) == (x == ChainStep::CountInput || x == ChainStep::RemoveAllNodes
        || x == ChainStep::RoutingFilter || x == ChainStep::CountAccepted)) by {
        if x == ChainStep::CountInput { assert(a[0] == x); }
        if x == ChainStep::RemoveAllNodes { assert(a[1] == x); }
        if x == ChainStep::RoutingFilter { assert(a[2] == x); }
        if x == ChainStep::CountAccepted { assert(a[3] == x); }
    }
    lemma_steps_if_contains(o.with_node_filtering, seq![ChainStep::CollectReferencedNodes], x);
    lemma_one_contains(ChainStep::CollectReferencedNodes, x);
    lemma_steps_if_contains(o.enrich_elevation, seq![ChainStep::CollectNoElevationNodes], x);
    lemma_one_contains(ChainStep::CollectNoElevationNodes, x);
}

/// Each optional handler runs exactly when its option asks for it: node
/// filtering, metadata removal, elevation enrichment, and writing an output
/// file.
pub proof fn lemma_optional_steps(o: ChainOptions)
    ensures
        filter_plan(o).contains(ChainStep::CollectReferencedNodes) == o.with_node_filtering,
        processing_plan(o).contains(ChainStep::FilterNodesById) == o.with_node_filtering,
        processing_plan(o).contains(ChainStep::RemoveMetadata) == o.remove_metadata,
        filter_plan(o).contains(ChainStep::CollectNoElevationNodes) == o.enrich_elevation,
        processing_plan(o).contains(ChainStep::EnrichElevation) == o.enrich_elevation,
        (processing_plan(o).contains(ChainStep::WriteSimple) || processing_plan(o).contains(ChainStep::WriteSplitting))
            == o.has_output,
        processing_plan(o).contains(ChainStep::WriteSplitting) == (o.has_output && o.elevation_way_splitting),
{
    lemma_filter_contains(o, ChainStep::CollectReferencedNodes);
    lemma_filter_contains(o, ChainStep::CollectNoElevationNodes);
    lemma_processing_contains(o, ChainStep::FilterNodesById);
    lemma_processing_contains(o, ChainStep::RemoveMetadata);
    lemma_processing_contains(o, ChainStep::EnrichElevation);
    lemma_processing_contains(o, ChainStep::WriteSimple);
    lemma_processing_contains(o, ChainStep::WriteSplitting);
    lemma_head_contains(o, ChainStep::FilterNodesById);
    lemma_elevation_contains(o, ChainStep::FilterNodesById);
    lemma_country_contains(o, ChainStep::FilterNodesById);
    lemma_tail_contains(o, ChainStep::FilterNodesById);
    lemma_head_contains(o, ChainStep::RemoveMetadata);
    lemma_elevation_contains(o, ChainStep::RemoveMetadata);
    lemma_country_contains(o, ChainStep::RemoveMetadata);
    lemma_tail_contains(o, ChainStep::RemoveMetadata);
    lemma_head_contains(o, ChainStep::EnrichElevation);
    lemma_elevation_contains(o, ChainStep::EnrichElevation);
    lemma_country_contains(o, ChainStep::EnrichElevation);
    lemma_tail_contains(o, ChainStep::EnrichElevation);
    lemma_head_contains(o, ChainStep::WriteSimple);
    lemma_elevation_contains(o, ChainStep::WriteSimple);
    lemma_country_contains(o, ChainStep::WriteSimple);
    lemma_tail_contains(o, ChainStep::WriteSimple);
    lemma_head_contains(o, ChainStep::WriteSplitting);
    lemma_elevation_contains(o, ChainStep::WriteSplitting);
    lemma_country_contains(o, ChainStep::WriteSplitting);
    lemma_tail_contains(o, ChainStep::WriteSplitting);
}

/// The elements selected for printing are printed as read, right after they
/// are counted, and as written, right before the writer.
pub proof fn lemma_prints_at_both_ends(o: ChainOptions)
    ensures
        processing_plan(o)[0] == ChainStep::CountInput,
        processing_plan(o)[1] == ChainStep::PrintInput,
        processing_plan(o).last() == if o.has_output {
            if o.elevation_way_splitting { ChainStep::WriteSplitting } else { ChainStep::WriteSimple }
        } else {
            ChainStep::PrintOutput
        },
        o.has_output ==> processing_plan(o)[processing_plan(o).len() - 2] == ChainStep::PrintOutput,
{
    let p = processing_plan(o);
    let t = tail_steps(o);
    assert(p == head_steps(o) + elevation_steps(o) + country_steps(o) + t);
    assert(p.len() >= t.len());
    assert(forall|i: int| 0 <= i < t.len() ==> p[p.len() - t.len() + i] == t[i]);
    if o.has_output {
        assert(p.last() == t[t.len() - 1]);
        assert(p[p.len() - 2] == t[t.len() - 2]);
    } else {
        assert(p.last() == t[t.len() - 1]);
    }
}

/// Quiet runs print no summary, whatever the verbosity.
pub proof fn lemma_quiet_overrules_verbose(verbosity: u8)
    ensures
        spec_summary_level(verbosity, true) == 0,
        spec_summary_level(verbosity, false) > 0,
{
}

/// The steps that remove elements or data before the accepted elements are counted.
pub open spec fn narrows_before_acceptance(x: ChainStep) -> bool {
    x == ChainStep::RoutingFilter || x == ChainStep::FilterNodesById || x == ChainStep::RemoveMetadata
}

/// The steps that enrich, trim or write what was accepted.
pub open spec fn works_on_accepted(x: ChainStep) -> bool {
    x == ChainStep::EnrichElevation || x == ChainStep::LoadCountryIndex || x == ChainStep::BuildCountryIndex
        || x == ChainStep::RemoveUnwantedTags || x == ChainStep::CountOutput || x == ChainStep::WriteSimple
        || x == ChainStep::WriteSplitting
}

/// The head of the second pass ends with the accepted count, which occurs
/// nowhere before.
proof fn lemma_head_ends_with_accepted(o: ChainOptions)
    ensures
        head_steps(o).len() >= 4,
        head_steps(o)[head_steps(o).len() - 1] == ChainStep::CountAccepted,
        forall|k: int| 0 <= k < head_steps(o).len() - 1 ==> #[trigger] head_steps(o)[k] != ChainStep::CountAccepted,
{
    let h0 = seq![ChainStep::CountInput, ChainStep::PrintInput, ChainStep::RoutingFilter]
        + steps_if(o.with_node_filtering, seq![ChainStep::FilterNodesById])
        + steps_if(o.remove_metadata, seq![ChainStep::RemoveMetadata]);
    assert(head_steps(o) =~= h0.push(ChainStep::CountAccepted));
    assert forall|k: int| 0 <= k < head_steps(o).len() - 1 implies #[trigger] head_steps(o)[k]
        != ChainStep::CountAccepted by {
        assert(head_steps(o)[k] == h0[k]);
    }
}

/// The steps after the head of the second pass.
pub open spec fn after_head(o: ChainOptions) -> Seq<ChainStep> {
    elevation_steps(o) + country_steps(o) + tail_steps(o)
}

/// The second pass is its head followed by the rest, and the rest neither
/// counts accepted elements nor filters them.
proof fn lemma_plan_split(o: ChainOptions)
    ensures
        processing_plan(o) == head_steps(o) + after_head(o),
        !after_head(o).contains(ChainStep::CountAccepted),
        forall|x: ChainStep| narrows_before_acceptance(x) ==> !#[trigger] after_head(o).contains(x),
        forall|x: ChainStep| works_on_accepted(x) ==> !#[trigger] head_steps(o).contains(x),
{
    broadcast use vstd::seq_lib::lemma_seq_concat_contains_all_elements;
    assert(processing_plan(o) =~= head_steps(o) + after_head(o));
    lemma_elevation_contains(o, ChainStep::CountAccepted);
    lemma_country_contains(o, ChainStep::CountAccepted);
    lemma_tail_contains(o, ChainStep::CountAccepted);
    assert forall|x: ChainStep| narrows_before_acceptance(x) implies !#[trigger] after_head(o).contains(x) by {
        lemma_elevation_contains(o, x);
        lemma_country_contains(o, x);
        lemma_tail_contains(o, x);
    }
    assert forall|x: ChainStep| works_on_accepted(x) implies !#[trigger] head_steps(o).contains(x) by {
        lemma_head_contains(o, x);
    }
}

/// In the second pass the accepted elements are counted once, after every
/// step that filters them (the routing filter, node filtering, metadata
/// removal, whichever run), and before every step that enriches, trims or
/// writes them.
pub proof fn lemma_accepted_counted_after_filtering(o: ChainOptions)
    ensures
        processing_plan(o).contains(ChainStep::CountAccepted),
        forall|i: int, j: int| 0 <= i < processing_plan(o).len() && 0 <= j < processing_plan(o).len()
            && #[trigger] processing_plan(o)[j] == ChainStep::CountAccepted
            && #[trigger] processing_plan(o)[i] == ChainStep::CountAccepted ==> i == j,
        forall|i: int, j: int| 0 <= i < processing_plan(o).len() && 0 <= j < processing_plan(o).len()
            && #[trigger] processing_plan(o)[j] == ChainStep::CountAccepted
            && narrows_before_acceptance(#[trigger] processing_plan(o)[i]) ==> i < j,
        forall|i: int, j: int| 0 <= i < processing_plan(o).len() && 0 <= j < processing_plan(o).len()
            && #[trigger] processing_plan(o)[i] == ChainStep::CountAccepted
            && works_on_accepted(#[trigger] processing_plan(o)[j]) ==> i < j,
{
    let h = head_steps(o);
    let rest = after_head(o);
    let p = processing_plan(o);
    lemma_head_ends_with_accepted(o);
    lemma_plan_split(o);
    let last = h.len() - 1;
    assert(p[last] == ChainStep::CountAccepted);
    assert(p.contains(ChainStep::CountAccepted));
    assert forall|j: int| 0 <= j < p.len() && #[trigger] p[j] == ChainStep::CountAccepted implies j == last by {
        if j >= h.len() {
            assert(rest[j - h.len()] == p[j]);
            assert(rest.contains(ChainStep::CountAccepted));
        } else if j < last {
            assert(h[j] == p[j]);
        }
    }
    assert forall|i: int| 0 <= i < p.len() && narrows_before_acceptance(#[trigger] p[i]) implies i < last by {
        if i >= h.len() {
            assert(rest[i - h.len()] == p[i]);
            assert(rest.contains(p[i]));
        } else {
            assert(h[i] == p[i]);
        }
    }
    assert forall|j: int| 0 <= j < p.len() && works_on_accepted(#[trigger] p[j]) implies j > last by {
        if j < h.len() {
            assert(h[j] == p[j]);
            assert(h.contains(p[j]));
        }
    }
}

/// In the first pass the accepted elements are counted once, after nodes
/// are dropped and the routing filter ran, and before the nodes to keep and
/// those without elevation are collected.
pub proof fn lemma_filter_pass_counts_after_filtering(o: ChainOptions)
    ensures
        filter_plan(o)[0] == ChainStep::CountInput,
        filter_plan(o)[1] == ChainStep::RemoveAllNodes,
        filter_plan(o)[2] == ChainStep::RoutingFilter,
        filter_plan(o)[3] == ChainStep::CountAccepted,
        forall|j: int| 0 <= j < filter_plan(o).len() && #[trigger] filter_plan(o)[j] == ChainStep::CountAccepted ==> j == 3,
{
    let p = filter_plan(o);
    let b = seq![ChainStep::CountInput, ChainStep::RemoveAllNodes, ChainStep::RoutingFilter, ChainStep::CountAccepted];
    let r = steps_if(o.with_node_filtering, seq![ChainStep::CollectReferencedNodes])
        + steps_if(o.enrich_elevation, seq![ChainStep::CollectNoElevationNodes]);
    assert(p =~= b + r);
    assert forall|j: int| 0 <= j < p.len() && #[trigger] p[j] == ChainStep::CountAccepted implies j == 3 by {
        if j >= 4 {
            assert(r[j - 4] == ChainStep::CountAccepted);
            assert(r.contains(ChainStep::CountAccepted));
            broadcast use vstd::seq_lib::lemma_seq_concat_contains_all_elements;
            lemma_steps_if_contains(o.with_node_filtering, seq![ChainStep::CollectReferencedNodes], ChainStep::CountAccepted);
            lemma_one_contains(ChainStep::CollectReferencedNodes, ChainStep::CountAccepted);
            lemma_steps_if_contains(o.enrich_elevation, seq![ChainStep::CollectNoElevationNodes], ChainStep::CountAccepted);
            lemma_one_contains(ChainStep::CollectNoElevationNodes, ChainStep::CountAccepted);
        }
    }
}

} // verus!
