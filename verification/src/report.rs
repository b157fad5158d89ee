//! The text reports of a run: the statistics dump and the summary.
//!
//! Percentages are computed and formatted by the caller; everything else is
//! laid out here.

use vstd::prelude::*;
use crate::bits::{bit_contents, bits_len};
use crate::handler::HandlerData;
use crate::strmap::pairs_of;
use crate::text::{
    dec, signed_dec, plus_dec, pad_left, replace_char, u64_to_string, i64_to_string,
    i64_to_plus_string, pad_left_string, replace_char_string, push_char,
};

verus! {

/// Appends `t`, filled up on the left with spaces to `width` characters.
pub fn push_padded(s: &mut String, t: &str, width: usize)
    ensures
        final(s)@ == old(s)@ + pad_left(t@, width as nat, ' '),
{
    let p = pad_left_string(t, width, ' ');
    s.append(p.as_str());
}

/// The decimal representation of `n` with a leading '+'.
pub fn u64_to_plus_string(n: u64) -> (s: String)
    ensures
        s@ == plus_dec(n as int),
{
    let mut s = String::new();
    push_char(&mut s, '+');
    let d = u64_to_string(n);
    s.append(d.as_str());
    assert(s@ =~= plus_dec(n as int));
    s
}

/// Seconds in a day.
pub const SECONDS_PER_DAY: u64 = 86400;

/// A duration as days, hours, minutes, seconds and milliseconds:
/// `{days}d {hh}h {mm}m {ss}.{mmm}s`.
pub open spec fn duration_text(secs: u64, millis: nat) -> Seq<char> {
    let days = secs / 86400;
    let rest = secs % 86400;
    dec(days as nat) + "d "@ + pad_left(dec((rest / 3600) as nat), 2, '0') + "h "@
        + pad_left(dec(((rest % 3600) / 60) as nat), 2, '0') + "m "@
        + pad_left(dec((rest % 60) as nat), 2, '0') + "."@ + pad_left(dec(millis), 3, '0') + "s"@
}

/// The `other` results, each on a line of its own, indented.
pub open spec fn other_text(pairs: Seq<(Seq<char>, Seq<char>)>) -> Seq<char>
    decreases pairs.len(),
{
    if pairs.len() == 0 {
        Seq::empty()
    } else {
        other_text(pairs.drop_last()) + "\n    "@ + pairs.last().0 + " = "@ + pairs.last().1
    }
}

/// The statistics dump of `d`.
pub open spec fn multi_line_text(d: HandlerData) -> Seq<char> {
    statistics_lines_text(
        d.input_node_count, d.input_way_count, d.input_relation_count,
        d.accepted_node_count, d.accepted_way_count, d.accepted_relation_count,
        d.output_node_count, d.output_way_count, d.output_relation_count,
        bit_contents(d.accept_node_ids).len() as u64, bit_contents(d.no_elevation_node_ids).len() as u64,
        d.country_not_found_node_count, d.country_found_node_count, d.multiple_country_found_node_count,
        d.elevation_found_node_count, d.elevation_not_found_node_count, d.elevation_not_relevant_node_count,
        d.splitted_way_count, d.elevation_tiff_count_total, d.elevation_tiff_count_used,
        d.elevation_flush_count, d.elevation_total_buffered_nodes_max_reached_count,
        duration_text(d.total_processing_secs, (d.total_processing_subsec_nanos / 1_000_000) as nat),
        other_text(d.other.pairs()),
    )
}

/// The value recorded under `key`, or `none`.
pub open spec fn other_or_none(m: Map<Seq<char>, Seq<char>>, key: Seq<char>) -> Seq<char> {
    if m.contains_key(key) { m[key] } else { "none"@ }
}

/// The min/max id table of `d`, from the bounds a `MinMaxIdCollector` recorded.
pub open spec fn min_max_ids_text(d: HandlerData) -> Seq<char> {
    let m = d.other.view();
    min_max_ids_table_text(
        other_or_none(m, "min_neg_node_id"@), other_or_none(m, "max_neg_node_id"@),
        other_or_none(m, "min_pos_node_id"@), other_or_none(m, "max_pos_node_id"@),
        other_or_none(m, "min_neg_way_id"@), other_or_none(m, "max_neg_way_id"@),
        other_or_none(m, "min_pos_way_id"@), other_or_none(m, "max_pos_way_id"@),
        other_or_none(m, "min_neg_relation_id"@), other_or_none(m, "max_neg_relation_id"@),
        other_or_none(m, "min_pos_relation_id"@), other_or_none(m, "max_pos_relation_id"@),
    )
}

/// What the summary shows, and what it needs from outside the run.
pub struct SummaryOptions {
    /// 0 shows nothing; higher levels show more sections.
    pub summary_level: u8,
    /// Whether an input file was given.
    pub has_input: bool,
    /// Whether country enrichment was configured.
    pub enrich_country: bool,
    /// Whether elevation enrichment was configured.
    pub enrich_elevation: bool,
    /// Whether ways were split at elevation changes.
    pub way_splitting: bool,
    /// The absolute path of the input file.
    pub input_abs_path: String,
    /// The size of the input file in bytes.
    pub input_file_size: u64,
    /// The application's name and version.
    pub version: String,
}

/// The percentages the summary shows, already formatted.
pub struct SummaryPercentages {
    pub country_found: String,
    pub country_not_found: String,
    pub multiple_country_found: String,
    pub elevation_found: String,
    pub elevation_not_found: String,
    pub elevation_not_relevant: String,
    pub elevation_tiff_used: String,
    pub splitted_way: String,
    pub unsplitted_way: String,
}

/// `b - a` of two counts.
pub open spec fn count_diff(b: u64, a: u64) -> i64 {
    (b as int - a as int) as i64
}

/// The counts are small enough for their differences to be signed 64-bit numbers.
pub open spec fn counts_fit(d: HandlerData) -> bool {
    &&& d.input_node_count <= i64::MAX
    &&& d.input_way_count <= i64::MAX
    &&& d.input_relation_count <= i64::MAX
    &&& d.accepted_node_count <= i64::MAX
    &&& d.accepted_way_count <= i64::MAX
    &&& d.accepted_relation_count <= i64::MAX
    &&& d.output_node_count <= i64::MAX
    &&& d.output_way_count <= i64::MAX
    &&& d.output_relation_count <= i64::MAX
    &&& d.splitted_way_count <= d.output_way_count
    &&& d.country_found_node_count + d.country_not_found_node_count <= u64::MAX
    &&& d.elevation_found_node_count + d.elevation_not_found_node_count + d.elevation_not_relevant_node_count <= u64::MAX
}

/// The summary of a run: the sections that `o` selects, in order.
pub open spec fn summary_text(d: HandlerData, o: SummaryOptions, p: SummaryPercentages) -> Seq<char> {
    if !o.has_input {
        "No input file specified, pbf processing was skipped"@
    } else {
        let duration = duration_text(d.total_processing_secs, (d.total_processing_subsec_nanos / 1_000_000) as nat);
        let counts = if o.summary_level > 0 {
            element_counts_summary_text(
                o.input_abs_path@, o.input_file_size, o.version@, duration,
                d.input_node_count, d.input_way_count, d.input_relation_count,
                d.accepted_node_count, d.accepted_way_count, d.accepted_relation_count,
                d.output_node_count, d.output_way_count, d.output_relation_count,
                count_diff(d.accepted_node_count, d.input_node_count),
                count_diff(d.accepted_way_count, d.input_way_count),
                count_diff(d.accepted_relation_count, d.input_relation_count),
                count_diff(d.output_node_count, d.accepted_node_count),
                count_diff(d.output_way_count, d.accepted_way_count),
                count_diff(d.output_relation_count, d.accepted_relation_count),
            )
        } else {
            Seq::empty()
        };
        let ids = if o.summary_level > 2 { min_max_ids_text(d) } else { Seq::empty() };
        let country = if o.summary_level > 1 && o.enrich_country {
            country_enrichment_summary_text(
                d.country_not_found_node_count, d.country_found_node_count, d.multiple_country_found_node_count,
                (d.country_found_node_count + d.country_not_found_node_count) as u64,
                p.country_found@, p.country_not_found@, p.multiple_country_found@,
            )
        } else {
            Seq::empty()
        };
        let elevation = if o.summary_level > 1 && o.enrich_elevation {
            elevation_enrichment_elements_summary_text(
                d.elevation_found_node_count, d.elevation_not_found_node_count, d.elevation_not_relevant_node_count,
                (d.elevation_found_node_count + d.elevation_not_found_node_count + d.elevation_not_relevant_node_count) as u64,
                p.elevation_found@, p.elevation_not_found@, p.elevation_not_relevant@,
            )
        } else {
            Seq::empty()
        };
        let tiffs = if o.summary_level > 2 && o.enrich_elevation {
            elevation_tiff_summary_text(
                d.elevation_tiff_count_total, d.elevation_tiff_count_used, d.elevation_flush_count,
                d.elevation_total_buffered_nodes_max_reached_count, p.elevation_tiff_used@,
            )
        } else {
            Seq::empty()
        };
        let splitting = if o.summary_level > 1 && o.enrich_elevation && o.way_splitting {
            elevation_way_splitting_summary_text(
                d.splitted_way_count, count_diff(d.output_node_count, d.accepted_node_count),
                (d.output_way_count - d.splitted_way_count) as u64, p.splitted_way@, p.unsplitted_way@,
            )
        } else {
            Seq::empty()
        };
        counts + ids + country + elevation + tiffs + splitting
    }
}

impl HandlerData {
    /// A duration given as whole seconds and the nanoseconds beyond them.
    pub fn format_duration(secs: u64, subsec_nanos: u32) -> (s: String)
        ensures
            s@ == duration_text(secs, (subsec_nanos / 1_000_000) as nat),
    {
        let days = secs / SECONDS_PER_DAY;
        let rest = secs % SECONDS_PER_DAY;
        let millis = (subsec_nanos / 1_000_000) as u64;
        let mut s = u64_to_string(days);
        s.append("d ");
        let h = u64_to_string(rest / 3600);
        s.append(pad_left_string(h.as_str(), 2, '0').as_str());
        s.append("h ");
        let m = u64_to_string((rest % 3600) / 60);
        s.append(pad_left_string(m.as_str(), 2, '0').as_str());
        s.append("m ");
        let sec = u64_to_string(rest % 60);
        s.append(pad_left_string(sec.as_str(), 2, '0').as_str());
        s.append(".");
        let ms = u64_to_string(millis);
        s.append(pad_left_string(ms.as_str(), 3, '0').as_str());
        s.append("s");
        s
    }

    /// The `other` results, each on an indented line of its own.
    pub fn format_other(&self) -> (s: String)
        ensures
            s@ == other_text(self.other.pairs()),
    {
        let entries = self.other.entries();
        let n = entries.len();
        let mut s = String::new();
        let mut i: usize = 0;
        while i < n
            invariant
                n == entries@.len(),
                i <= n,
                pairs_of(entries@) == self.other.pairs(),
                s@ == other_text(self.other.pairs().take(i as int)),
            decreases n - i,
        {
            proof {
                assert(self.other.pairs().take(i + 1).drop_last() =~= self.other.pairs().take(i as int));
            }
            s.append("\n    ");
            s.append(entries[i].0.as_str());
            s.append(" = ");
            s.append(entries[i].1.as_str());
            i = i + 1;
        }
        assert(self.other.pairs().take(n as int) =~= self.other.pairs());
        s
    }

    /// Every statistic, one `name = value` per line.
    pub fn format_multi_line(&self) -> (s: String)
        ensures
            s@ == multi_line_text(*self),
    {
        let total_processing_time = Self::format_duration(self.total_processing_secs, self.total_processing_subsec_nanos);
        let other = self.format_other();
        statistics_lines(
            self.input_node_count, self.input_way_count, self.input_relation_count,
            self.accepted_node_count, self.accepted_way_count, self.accepted_relation_count,
            self.output_node_count, self.output_way_count, self.output_relation_count,
            bits_len(&self.accept_node_ids) as u64, bits_len(&self.no_elevation_node_ids) as u64,
            self.country_not_found_node_count, self.country_found_node_count, self.multiple_country_found_node_count,
            self.elevation_found_node_count, self.elevation_not_found_node_count, self.elevation_not_relevant_node_count,
            self.splitted_way_count, self.elevation_tiff_count_total, self.elevation_tiff_count_used,
            self.elevation_flush_count, self.elevation_total_buffered_nodes_max_reached_count,
            total_processing_time.as_str(), other.as_str(),
        )
    }

    /// Every statistic on one line, separated by commas.
    pub fn format_one_line(&self) -> (s: String)
        ensures
            s@ == replace_char(multi_line_text(*self), '\n', ", "@),
    {
        let m = self.format_multi_line();
        replace_char_string(m.as_str(), '\n', ", ")
    }

    /// The value recorded under `key`, or `none`.
    fn other_or_none(&self, key: &str) -> (s: String)
        ensures
            s@ == other_or_none(self.other.view(), key@),
    {
        match self.other.get(key) {
            Some(v) => v.clone(),
            None => "none".to_owned(),
        }
    }

    /// The min/max id table, from the bounds a `MinMaxIdCollector` recorded.
    pub fn min_max_ids_summary(&self) -> (s: String)
        ensures
            s@ == min_max_ids_text(*self),
    {
        min_max_ids_table(
            self.other_or_none("min_neg_node_id").as_str(), self.other_or_none("max_neg_node_id").as_str(),
            self.other_or_none("min_pos_node_id").as_str(), self.other_or_none("max_pos_node_id").as_str(),
            self.other_or_none("min_neg_way_id").as_str(), self.other_or_none("max_neg_way_id").as_str(),
            self.other_or_none("min_pos_way_id").as_str(), self.other_or_none("max_pos_way_id").as_str(),
            self.other_or_none("min_neg_relation_id").as_str(), self.other_or_none("max_neg_relation_id").as_str(),
            self.other_or_none("min_pos_relation_id").as_str(), self.other_or_none("max_pos_relation_id").as_str(),
        )
    }

    /// The summary of the run: element counts from level 1, min/max ids from
    /// level 3, country and elevation enrichment from level 2 when they were
    /// configured, elevation files and buffers from level 3, way splitting from
    /// level 2 when ways were split.
    pub fn summary(&self, o: &SummaryOptions, p: &SummaryPercentages) -> (s: String)
        requires
            counts_fit(*self),
        ensures
            s@ == summary_text(*self, *o, *p),
    {
        if !o.has_input {
            return "No input file specified, pbf processing was skipped".to_owned();
        }
        let level = o.summary_level;
        let mut s = String::new();
        if level > 0 {
            let total_processing_time = Self::format_duration(self.total_processing_secs, self.total_processing_subsec_nanos);
            let filt_node = self.accepted_node_count as i64 - self.input_node_count as i64;
            let filt_ways = self.accepted_way_count as i64 - self.input_way_count as i64;
            let filt_rels = self.accepted_relation_count as i64 - self.input_relation_count as i64;
            let addd_node = self.output_node_count as i64 - self.accepted_node_count as i64;
            let addd_ways = self.output_way_count as i64 - self.accepted_way_count as i64;
            let addd_rels = self.output_relation_count as i64 - self.accepted_relation_count as i64;
            let t = element_counts_summary(
                o.input_abs_path.as_str(), o.input_file_size, o.version.as_str(), total_processing_time.as_str(),
                self.input_node_count, self.input_way_count, self.input_relation_count,
                self.accepted_node_count, self.accepted_way_count, self.accepted_relation_count,
                self.output_node_count, self.output_way_count, self.output_relation_count,
                filt_node, filt_ways, filt_rels, addd_node, addd_ways, addd_rels,
            );
            s.append(t.as_str());
        }
        if level > 2 {
            let t = self.min_max_ids_summary();
            s.append(t.as_str());
        }
        if level > 1 && o.enrich_country {
            let detections = self.country_found_node_count + self.country_not_found_node_count;
            let t = country_enrichment_summary(
                self.country_not_found_node_count, self.country_found_node_count, self.multiple_country_found_node_count,
                detections, p.country_found.as_str(), p.country_not_found.as_str(), p.multiple_country_found.as_str(),
            );
            s.append(t.as_str());
        }
        if level > 1 && o.enrich_elevation {
            let detections = self.elevation_found_node_count + self.elevation_not_found_node_count
                + self.elevation_not_relevant_node_count;
            let t = elevation_enrichment_elements_summary(
                self.elevation_found_node_count, self.elevation_not_found_node_count, self.elevation_not_relevant_node_count,
                detections, p.elevation_found.as_str(), p.elevation_not_found.as_str(), p.elevation_not_relevant.as_str(),
            );
            s.append(t.as_str());
        }
        if level > 2 && o.enrich_elevation {
            let t = elevation_tiff_summary(
                self.elevation_tiff_count_total, self.elevation_tiff_count_used, self.elevation_flush_count,
                self.elevation_total_buffered_nodes_max_reached_count, p.elevation_tiff_used.as_str(),
            );
            s.append(t.as_str());
        }
        if level > 1 && o.enrich_elevation && o.way_splitting {
            let addd_node = self.output_node_count as i64 - self.accepted_node_count as i64;
            let unsplitted_way_count = self.output_way_count - self.splitted_way_count;
            let t = elevation_way_splitting_summary(
                self.splitted_way_count, addd_node, unsplitted_way_count,
                p.splitted_way.as_str(), p.unsplitted_way.as_str(),
            );
            s.append(t.as_str());
        }
        assert(s@ =~= summary_text(*self, *o, *p));
        s
    }
}

/// The table of element counts at the stages of a run, with a header naming the input.
pub open spec fn element_counts_summary_text(input_abs_path: Seq<char>, input_file_size: u64, version: Seq<char>, total_processing_time: Seq<char>, i_node_ct: u64, i_way_cnt: u64, i_rel_cnt: u64, a_node_ct: u64, a_way_cnt: u64, a_rel_cnt: u64, o_node_ct: u64, o_way_cnt: u64, o_rel_cnt: u64, filt_node: i64, filt_ways: i64, filt_rels: i64, addd_node: i64, addd_ways: i64, addd_rels: i64) -> Seq<char> {
    "\nSummary:\n========\n\nProcessing of file "@ + input_abs_path + " ("@ + dec(input_file_size as nat) + " bytes)\nwith "@ + version + " completed in "@ + total_processing_time + "\n\nElement counts at specific processing stages:\n---------------------------------------------\n\n         |            nodes            |            ways             |          relations\n         |                             |                             |\n         |         diff |        total |         diff |        total |         diff |        total\n---------+--------------+--------------+--------------+--------------+--------------+-------------\n    read |"@ + pad_left(plus_dec(i_node_ct as int), 13, ' ') + " |"@ + pad_left(dec(i_node_ct as nat), 13, ' ') + " |"@ + pad_left(plus_dec(i_way_cnt as int), 13, ' ') + " |"@ + pad_left(dec(i_way_cnt as nat), 13, ' ') + " |"@ + pad_left(plus_dec(i_rel_cnt as int), 13, ' ') + " |"@ + pad_left(dec(i_rel_cnt as nat), 13, ' ') + "\naccepted |"@ + pad_left(plus_dec(filt_node as int), 13, ' ') + " |"@ + pad_left(dec(a_node_ct as nat), 13, ' ') + " |"@ + pad_left(plus_dec(filt_ways as int), 13, ' ') + " |"@ + pad_left(dec(a_way_cnt as nat), 13, ' ') + " |"@ + pad_left(plus_dec(filt_rels as int), 13, ' ') + " |"@ + pad_left(dec(a_rel_cnt as nat), 13, ' ') + "\n written |"@ + pad_left(plus_dec(addd_node as int), 13, ' ') + " |"@ + pad_left(dec(o_node_ct as nat), 13, ' ') + " |"@ + pad_left(plus_dec(addd_ways as int), 13, ' ') + " |"@ + pad_left(dec(o_way_cnt as nat), 13, ' ') + " |"@ + pad_left(plus_dec(addd_rels as int), 13, ' ') + " |"@ + pad_left(dec(o_rel_cnt as nat), 13, ' ') + "\n "@
}

/// The table of element counts at the stages of a run, with a header naming the input.
pub fn element_counts_summary(input_abs_path: &str, input_file_size: u64, version: &str, total_processing_time: &str, i_node_ct: u64, i_way_cnt: u64, i_rel_cnt: u64, a_node_ct: u64, a_way_cnt: u64, a_rel_cnt: u64, o_node_ct: u64, o_way_cnt: u64, o_rel_cnt: u64, filt_node: i64, filt_ways: i64, filt_rels: i64, addd_node: i64, addd_ways: i64, addd_rels: i64) -> (s: String)
    ensures
        s@ == element_counts_summary_text(input_abs_path@, input_file_size, version@, total_processing_time@, i_node_ct, i_way_cnt, i_rel_cnt, a_node_ct, a_way_cnt, a_rel_cnt, o_node_ct, o_way_cnt, o_rel_cnt, filt_node, filt_ways, filt_rels, addd_node, addd_ways, addd_rels),
{
    let mut s = "\nSummary:\n========\n\nProcessing of file ".to_owned();
    s.append(input_abs_path);
    s.append(" (");
    s.append(u64_to_string(input_file_size).as_str());
    s.append(" bytes)\nwith ");
    s.append(version);
    s.append(" completed in ");
    s.append(total_processing_time);
    s.append("\n\nElement counts at specific processing stages:\n---------------------------------------------\n\n         |            nodes            |            ways             |          relations\n         |                             |                             |\n         |         diff |        total |         diff |        total |         diff |        total\n---------+--------------+--------------+--------------+--------------+--------------+-------------\n    read |");
    push_padded(&mut s, u64_to_plus_string(i_node_ct).as_str(), 13);
    s.append(" |");
    push_padded(&mut s, u64_to_string(i_node_ct).as_str(), 13);
    s.append(" |");
    push_padded(&mut s, u64_to_plus_string(i_way_cnt).as_str(), 13);
    s.append(" |");
    push_padded(&mut s, u64_to_string(i_way_cnt).as_str(), 13);
    s.append(" |");
    push_padded(&mut s, u64_to_plus_string(i_rel_cnt).as_str(), 13);
    s.append(" |");
    push_padded(&mut s, u64_to_string(i_rel_cnt).as_str(), 13);
    s.append("\naccepted |");
    push_padded(&mut s, i64_to_plus_string(filt_node).as_str(), 13);
    s.append(" |");
    push_padded(&mut s, u64_to_string(a_node_ct).as_str(), 13);
    s.append(" |");
    push_padded(&mut s, i64_to_plus_string(filt_ways).as_str(), 13);
    s.append(" |");
    push_padded(&mut s, u64_to_string(a_way_cnt).as_str(), 13);
    s.append(" |");
    push_padded(&mut s, i64_to_plus_string(filt_rels).as_str(), 13);
    s.append(" |");
    push_padded(&mut s, u64_to_string(a_rel_cnt).as_str(), 13);
    s.append("\n written |");
    push_padded(&mut s, i64_to_plus_string(addd_node).as_str(), 13);
    s.append(" |");
    push_padded(&mut s, u64_to_string(o_node_ct).as_str(), 13);
    s.append(" |");
    push_padded(&mut s, i64_to_plus_string(addd_ways).as_str(), 13);
    s.append(" |");
    push_padded(&mut s, u64_to_string(o_way_cnt).as_str(), 13);
    s.append(" |");
    push_padded(&mut s, i64_to_plus_string(addd_rels).as_str(), 13);
    s.append(" |");
    push_padded(&mut s, u64_to_string(o_rel_cnt).as_str(), 13);
    s.append("\n ");
    s
}

/// The country enrichment section; percentages come formatted.
pub open spec fn country_enrichment_summary_text(country_not_found_node_count: u64, country_found_node_count: u64, multiple_country_found_node_count: u64, country_detections: u64, country_found_percentage: Seq<char>, country_not_found_percentage: Seq<char>, multiple_country_found_percentage: Seq<char>) -> Seq<char> {
    "\nCountry enrichment:\n-------------------\nCountry detections total: "@ + pad_left(dec(country_detections as nat), 13, ' ') + "\nCountry found for         "@ + pad_left(dec(country_found_node_count as nat), 13, ' ') + " nodes ("@ + country_found_percentage + "%)\nCountry not found for     "@ + pad_left(dec(country_not_found_node_count as nat), 13, ' ') + " nodes ("@ + country_not_found_percentage + "%)\n>1 country found for      "@ + pad_left(dec(multiple_country_found_node_count as nat), 13, ' ') + " nodes ("@ + multiple_country_found_percentage + "%)\n"@
}

/// The country enrichment section; percentages come formatted.
pub fn country_enrichment_summary(country_not_found_node_count: u64, country_found_node_count: u64, multiple_country_found_node_count: u64, country_detections: u64, country_found_percentage: &str, country_not_found_percentage: &str, multiple_country_found_percentage: &str) -> (s: String)
    ensures
        s@ == country_enrichment_summary_text(country_not_found_node_count, country_found_node_count, multiple_country_found_node_count, country_detections, country_found_percentage@, country_not_found_percentage@, multiple_country_found_percentage@),
{
    let mut s = "\nCountry enrichment:\n-------------------\nCountry detections total: ".to_owned();
    push_padded(&mut s, u64_to_string(country_detections).as_str(), 13);
    s.append("\nCountry found for         ");
    push_padded(&mut s, u64_to_string(country_found_node_count).as_str(), 13);
    s.append(" nodes (");
    s.append(country_found_percentage);
    s.append("%)\nCountry not found for     ");
    push_padded(&mut s, u64_to_string(country_not_found_node_count).as_str(), 13);
    s.append(" nodes (");
    s.append(country_not_found_percentage);
    s.append("%)\n>1 country found for      ");
    push_padded(&mut s, u64_to_string(multiple_country_found_node_count).as_str(), 13);
    s.append(" nodes (");
    s.append(multiple_country_found_percentage);
    s.append("%)\n");
    s
}

/// The elevation enrichment section; percentages come formatted.
pub open spec fn elevation_enrichment_elements_summary_text(elevation_found_node_count: u64, elevation_not_found_node_count: u64, elevation_not_relevant_node_count: u64, elevation_detections: u64, elevation_found_percentage: Seq<char>, elevation_not_found_percentage: Seq<char>, elevation_not_relevant_percentage: Seq<char>) -> Seq<char> {
    "\nElevation enrichment:\n---------------------\nElevation detections total: "@ + pad_left(dec(elevation_detections as nat), 13, ' ') + "\nElevation found for         "@ + pad_left(dec(elevation_found_node_count as nat), 13, ' ') + " nodes ("@ + elevation_found_percentage + "%)\nElevation not found for     "@ + pad_left(dec(elevation_not_found_node_count as nat), 13, ' ') + " nodes ("@ + elevation_not_found_percentage + "%)\nElevation not relevant for  "@ + pad_left(dec(elevation_not_relevant_node_count as nat), 13, ' ') + " nodes ("@ + elevation_not_relevant_percentage + "% tunnels, bridges, etc.)\n"@
}

/// The elevation enrichment section; percentages come formatted.
pub fn elevation_enrichment_elements_summary(elevation_found_node_count: u64, elevation_not_found_node_count: u64, elevation_not_relevant_node_count: u64, elevation_detections: u64, elevation_found_percentage: &str, elevation_not_found_percentage: &str, elevation_not_relevant_percentage: &str) -> (s: String)
    ensures
        s@ == elevation_enrichment_elements_summary_text(elevation_found_node_count, elevation_not_found_node_count, elevation_not_relevant_node_count, elevation_detections, elevation_found_percentage@, elevation_not_found_percentage@, elevation_not_relevant_percentage@),
{
    let mut s = "\nElevation enrichment:\n---------------------\nElevation detections total: ".to_owned();
    push_padded(&mut s, u64_to_string(elevation_detections).as_str(), 13);
    s.append("\nElevation found for         ");
    push_padded(&mut s, u64_to_string(elevation_found_node_count).as_str(), 13);
    s.append(" nodes (");
    s.append(elevation_found_percentage);
    s.append("%)\nElevation not found for     ");
    push_padded(&mut s, u64_to_string(elevation_not_found_node_count).as_str(), 13);
    s.append(" nodes (");
    s.append(elevation_not_found_percentage);
    s.append("%)\nElevation not relevant for  ");
    push_padded(&mut s, u64_to_string(elevation_not_relevant_node_count).as_str(), 13);
    s.append(" nodes (");
    s.append(elevation_not_relevant_percentage);
    s.append("% tunnels, bridges, etc.)\n");
    s
}

/// The elevation file and buffer section; the percentage comes formatted.
pub open spec fn elevation_tiff_summary_text(elevation_tiff_count_total: u64, elevation_tiff_count_used: u64, elevation_flush_count: u64, elevation_total_buffered_nodes_max_reached_count: u64, elevation_tiff_used_percentage: Seq<char>) -> Seq<char> {
    "\nLoaded elevation tiff files:      "@ + pad_left(dec(elevation_tiff_count_total as nat), 5, ' ') + "\nUsed elevation tiff files:        "@ + pad_left(dec(elevation_tiff_count_used as nat), 5, ' ') + " ("@ + elevation_tiff_used_percentage + "%)\nElevation buffers flush count:    "@ + pad_left(dec(elevation_flush_count as nat), 5, ' ') + "\nTotal max buffered nodes reached: "@ + pad_left(dec(elevation_total_buffered_nodes_max_reached_count as nat), 5, ' ') + " times\n"@
}

/// The elevation file and buffer section; the percentage comes formatted.
pub fn elevation_tiff_summary(elevation_tiff_count_total: u64, elevation_tiff_count_used: u64, elevation_flush_count: u64, elevation_total_buffered_nodes_max_reached_count: u64, elevation_tiff_used_percentage: &str) -> (s: String)
    ensures
        s@ == elevation_tiff_summary_text(elevation_tiff_count_total, elevation_tiff_count_used, elevation_flush_count, elevation_total_buffered_nodes_max_reached_count, elevation_tiff_used_percentage@),
{
    let mut s = "\nLoaded elevation tiff files:      ".to_owned();
    push_padded(&mut s, u64_to_string(elevation_tiff_count_total).as_str(), 5);
    s.append("\nUsed elevation tiff files:        ");
    push_padded(&mut s, u64_to_string(elevation_tiff_count_used).as_str(), 5);
    s.append(" (");
    s.append(elevation_tiff_used_percentage);
    s.append("%)\nElevation buffers flush count:    ");
    push_padded(&mut s, u64_to_string(elevation_flush_count).as_str(), 5);
    s.append("\nTotal max buffered nodes reached: ");
    push_padded(&mut s, u64_to_string(elevation_total_buffered_nodes_max_reached_count).as_str(), 5);
    s.append(" times\n");
    s
}

/// The way splitting section; percentages come formatted.
pub open spec fn elevation_way_splitting_summary_text(splitted_way_count: u64, addd_node: i64, unsplitted_way_count: u64, splitted_way_percentage: Seq<char>, unsplitted_way_percentage: Seq<char>) -> Seq<char> {
    "\nElevation way splitting:\n------------------------\nAdded "@ + pad_left(signed_dec(addd_node as int), 13, ' ') + " nodes\nto    "@ + pad_left(dec(splitted_way_count as nat), 13, ' ') + " ways ("@ + splitted_way_percentage + "% of all accepted ways)\nleft  "@ + pad_left(dec(unsplitted_way_count as nat), 13, ' ') + " ways unsplitted ("@ + unsplitted_way_percentage + "% of all accepted ways)\n"@
}

/// The way splitting section; percentages come formatted.
pub fn elevation_way_splitting_summary(splitted_way_count: u64, addd_node: i64, unsplitted_way_count: u64, splitted_way_percentage: &str, unsplitted_way_percentage: &str) -> (s: String)
    ensures
        s@ == elevation_way_splitting_summary_text(splitted_way_count, addd_node, unsplitted_way_count, splitted_way_percentage@, unsplitted_way_percentage@),
{
    let mut s = "\nElevation way splitting:\n------------------------\nAdded ".to_owned();
    push_padded(&mut s, i64_to_string(addd_node).as_str(), 13);
    s.append(" nodes\nto    ");
    push_padded(&mut s, u64_to_string(splitted_way_count).as_str(), 13);
    s.append(" ways (");
    s.append(splitted_way_percentage);
    s.append("% of all accepted ways)\nleft  ");
    push_padded(&mut s, u64_to_string(unsplitted_way_count).as_str(), 13);
    s.append(" ways unsplitted (");
    s.append(unsplitted_way_percentage);
    s.append("% of all accepted ways)\n");
    s
}

/// The table of the smallest and largest ids of each kind.
pub open spec fn min_max_ids_table_text(min_neg_no_id: Seq<char>, max_neg_no_id: Seq<char>, min_pos_no_id: Seq<char>, max_pos_no_id: Seq<char>, min_neg_wa_id: Seq<char>, max_neg_wa_id: Seq<char>, min_pos_wa_id: Seq<char>, max_pos_wa_id: Seq<char>, min_neg_re_id: Seq<char>, max_neg_re_id: Seq<char>, min_pos_re_id: Seq<char>, max_pos_re_id: Seq<char>) -> Seq<char> {
    "\nDetected min/max IDs:\n---------------------\n         |            negative           |            positive\n         |     min       |        max    |     min       |        max\n---------+---------------+---------------+---------------+-----------------\nnode     | "@ + pad_left(min_neg_no_id, 13, ' ') + " | "@ + pad_left(max_neg_no_id, 13, ' ') + " | "@ + pad_left(min_pos_no_id, 13, ' ') + " | "@ + pad_left(max_pos_no_id, 13, ' ') + "\nway      | "@ + pad_left(min_neg_wa_id, 13, ' ') + " | "@ + pad_left(max_neg_wa_id, 13, ' ') + " | "@ + pad_left(min_pos_wa_id, 13, ' ') + " | "@ + pad_left(max_pos_wa_id, 13, ' ') + "\nrelation | "@ + pad_left(min_neg_re_id, 13, ' ') + " | "@ + pad_left(max_neg_re_id, 13, ' ') + " | "@ + pad_left(min_pos_re_id, 13, ' ') + " | "@ + pad_left(max_pos_re_id, 13, ' ') + "\n"@
}

/// The table of the smallest and largest ids of each kind.
pub fn min_max_ids_table(min_neg_no_id: &str, max_neg_no_id: &str, min_pos_no_id: &str, max_pos_no_id: &str, min_neg_wa_id: &str, max_neg_wa_id: &str, min_pos_wa_id: &str, max_pos_wa_id: &str, min_neg_re_id: &str, max_neg_re_id: &str, min_pos_re_id: &str, max_pos_re_id: &str) -> (s: String)
    ensures
        s@ == min_max_ids_table_text(min_neg_no_id@, max_neg_no_id@, min_pos_no_id@, max_pos_no_id@, min_neg_wa_id@, max_neg_wa_id@, min_pos_wa_id@, max_pos_wa_id@, min_neg_re_id@, max_neg_re_id@, min_pos_re_id@, max_pos_re_id@),
{
    let mut s = "\nDetected min/max IDs:\n---------------------\n         |            negative           |            positive\n         |     min       |        max    |     min       |        max\n---------+---------------+---------------+---------------+-----------------\nnode     | ".to_owned();
    push_padded(&mut s, min_neg_no_id, 13);
    s.append(" | ");
    push_padded(&mut s, max_neg_no_id, 13);
    s.append(" | ");
    push_padded(&mut s, min_pos_no_id, 13);
    s.append(" | ");
    push_padded(&mut s, max_pos_no_id, 13);
    s.append("\nway      | ");
    push_padded(&mut s, min_neg_wa_id, 13);
    s.append(" | ");
    push_padded(&mut s, max_neg_wa_id, 13);
    s.append(" | ");
    push_padded(&mut s, min_pos_wa_id, 13);
    s.append(" | ");
    push_padded(&mut s, max_pos_wa_id, 13);
    s.append("\nrelation | ");
    push_padded(&mut s, min_neg_re_id, 13);
    s.append(" | ");
    push_padded(&mut s, max_neg_re_id, 13);
    s.append(" | ");
    push_padded(&mut s, min_pos_re_id, 13);
    s.append(" | ");
    push_padded(&mut s, max_pos_re_id, 13);
    s.append("\n");
    s
}

/// The statistics of a run, one `name = value` per line.
pub open spec fn statistics_lines_text(input_node_count: u64, input_way_count: u64, input_relation_count: u64, accepted_node_count: u64, accepted_way_count: u64, accepted_relation_count: u64, output_node_count: u64, output_way_count: u64, output_relation_count: u64, accept_node_ids_count: u64, no_elevation_node_ids_count: u64, country_not_found_node_count: u64, country_found_node_count: u64, multiple_country_found_node_count: u64, elevation_found_node_count: u64, elevation_not_found_node_count: u64, elevation_not_relevant_node_count: u64, splitted_way_count: u64, elevation_tiff_count_total: u64, elevation_tiff_count_used: u64, elevation_buffer_flush_count_buffer_max_reached: u64, elevation_buffer_flush_count_total_max_reached: u64, total_processing_time: Seq<char>, other: Seq<char>) -> Seq<char> {
    "input_node_count = "@ + dec(input_node_count as nat) + "\ninput_way_count = "@ + dec(input_way_count as nat) + "\ninput_relation_count = "@ + dec(input_relation_count as nat) + "\naccepted_node_count = "@ + dec(accepted_node_count as nat) + "\naccepted_way_count = "@ + dec(accepted_way_count as nat) + "\naccepted_relation_count = "@ + dec(accepted_relation_count as nat) + "\noutput_node_count = "@ + dec(output_node_count as nat) + "\noutput_way_count = "@ + dec(output_way_count as nat) + "\noutput_relation_count = "@ + dec(output_relation_count as nat) + "\naccept_node_ids_count = "@ + dec(accept_node_ids_count as nat) + "\nno_elevation_node_ids_count = "@ + dec(no_elevation_node_ids_count as nat) + "\ncountry_not_found_node_count = "@ + dec(country_not_found_node_count as nat) + "\ncountry_found_node_count = "@ + dec(country_found_node_count as nat) + "\nmultiple_country_found_node_count = "@ + dec(multiple_country_found_node_count as nat) + "\nelevation_found_node_count = "@ + dec(elevation_found_node_count as nat) + "\nelevation_not_found_node_count = "@ + dec(elevation_not_found_node_count as nat) + "\nelevation_not_relevant_node_count = "@ + dec(elevation_not_relevant_node_count as nat) + "\nsplitted_way_count = "@ + dec(splitted_way_count as nat) + "\nelevation_tiff_count_total = "@ + dec(elevation_tiff_count_total as nat) + "\nelevation_tiff_count_used = "@ + dec(elevation_tiff_count_used as nat) + "\nelevation_buffer_flush_count_buffer_max_reached = "@ + dec(elevation_buffer_flush_count_buffer_max_reached as nat) + "\nelevation_buffer_flush_count_total_max_reached = "@ + dec(elevation_buffer_flush_count_total_max_reached as nat) + "\ntotal_processing_time = "@ + total_processing_time + "\nother = "@ + other
}

/// The statistics of a run, one `name = value` per line.
pub fn statistics_lines(input_node_count: u64, input_way_count: u64, input_relation_count: u64, accepted_node_count: u64, accepted_way_count: u64, accepted_relation_count: u64, output_node_count: u64, output_way_count: u64, output_relation_count: u64, accept_node_ids_count: u64, no_elevation_node_ids_count: u64, country_not_found_node_count: u64, country_found_node_count: u64, multiple_country_found_node_count: u64, elevation_found_node_count: u64, elevation_not_found_node_count: u64, elevation_not_relevant_node_count: u64, splitted_way_count: u64, elevation_tiff_count_total: u64, elevation_tiff_count_used: u64, elevation_buffer_flush_count_buffer_max_reached: u64, elevation_buffer_flush_count_total_max_reached: u64, total_processing_time: &str, other: &str) -> (s: String)
    ensures
        s@ == statistics_lines_text(input_node_count, input_way_count, input_relation_count, accepted_node_count, accepted_way_count, accepted_relation_count, output_node_count, output_way_count, output_relation_count, accept_node_ids_count, no_elevation_node_ids_count, country_not_found_node_count, country_found_node_count, multiple_country_found_node_count, elevation_found_node_count, elevation_not_found_node_count, elevation_not_relevant_node_count, splitted_way_count, elevation_tiff_count_total, elevation_tiff_count_used, elevation_buffer_flush_count_buffer_max_reached, elevation_buffer_flush_count_total_max_reached, total_processing_time@, other@),
{
    let mut s = "input_node_count = ".to_owned();
    s.append(u64_to_string(input_node_count).as_str());
    s.append("\ninput_way_count = ");
    s.append(u64_to_string(input_way_count).as_str());
    s.append("\ninput_relation_count = ");
    s.append(u64_to_string(input_relation_count).as_str());
    s.append("\naccepted_node_count = ");
    s.append(u64_to_string(accepted_node_count).as_str());
    s.append("\naccepted_way_count = ");
    s.append(u64_to_string(accepted_way_count).as_str());
    s.append("\naccepted_relation_count = ");
    s.append(u64_to_string(accepted_relation_count).as_str());
    s.append("\noutput_node_count = ");
    s.append(u64_to_string(output_node_count).as_str());
    s.append("\noutput_way_count = ");
    s.append(u64_to_string(output_way_count).as_str());
    s.append("\noutput_relation_count = ");
    s.append(u64_to_string(output_relation_count).as_str());
    s.append("\naccept_node_ids_count = ");
    s.append(u64_to_string(accept_node_ids_count).as_str());
    s.append("\nno_elevation_node_ids_count = ");
    s.append(u64_to_string(no_elevation_node_ids_count).as_str());
    s.append("\ncountry_not_found_node_count = ");
    s.append(u64_to_string(country_not_found_node_count).as_str());
    s.append("\ncountry_found_node_count = ");
    s.append(u64_to_string(country_found_node_count).as_str());
    s.append("\nmultiple_country_found_node_count = ");
    s.append(u64_to_string(multiple_country_found_node_count).as_str());
    s.append("\nelevation_found_node_count = ");
    s.append(u64_to_string(elevation_found_node_count).as_str());
    s.append("\nelevation_not_found_node_count = ");
    s.append(u64_to_string(elevation_not_found_node_count).as_str());
    s.append("\nelevation_not_relevant_node_count = ");
    s.append(u64_to_string(elevation_not_relevant_node_count).as_str());
    s.append("\nsplitted_way_count = ");
    s.append(u64_to_string(splitted_way_count).as_str());
    s.append("\nelevation_tiff_count_total = ");
    s.append(u64_to_string(elevation_tiff_count_total).as_str());
    s.append("\nelevation_tiff_count_used = ");
    s.append(u64_to_string(elevation_tiff_count_used).as_str());
    s.append("\nelevation_buffer_flush_count_buffer_max_reached = ");
    s.append(u64_to_string(elevation_buffer_flush_count_buffer_max_reached).as_str());
    s.append("\nelevation_buffer_flush_count_total_max_reached = ");
    s.append(u64_to_string(elevation_buffer_flush_count_total_max_reached).as_str());
    s.append("\ntotal_processing_time = ");
    s.append(total_processing_time);
    s.append("\nother = ");
    s.append(other);
    s
}

/// Replacing every `from` by a text without `from` leaves no `from`: the
/// one-line statistics hold no line break.
pub proof fn lemma_replace_char_removes(s: Seq<char>, from: char, to: Seq<char>)
    requires
        !to.contains(from),
    ensures
        !replace_char(s, from, to).contains(from),
    decreases s.len(),
{
    if s.len() > 0 {
        lemma_replace_char_removes(s.drop_last(), from, to);
        let r = replace_char(s.drop_last(), from, to);
        let head = if s.last() == from { to } else { seq![s.last()] };
        assert forall|i: int| 0 <= i < (r + head).len() implies (r + head)[i] != from by {
            if i < r.len() {
                assert((r + head)[i] == r[i]);
            } else {
                assert((r + head)[i] == head[i - r.len()]);
            }
        }
    }
}

} // verus!
