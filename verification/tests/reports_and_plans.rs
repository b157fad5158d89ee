use std::time::Duration;

use rusty_routes_transformer::handler::HandlerData;
use rusty_routes_transformer::info::{ElementCountResultType, ElementCounter};
use rusty_routes_transformer::plan::{
    filter_chain_plan, processing_chain_plan, should_build_country_index, should_enrich_country,
    should_load_country_index, summary_level, ChainOptions, ChainStep,
};
use rusty_routes_transformer::report::{SummaryOptions, SummaryPercentages};
use rusty_routes_transformer::validate::{
    output_problem_message, problem_message, validate_file, validate_optional_file, validate_output, FileFacts,
    FileProblem, OutputFacts, OutputProblem,
};

fn duration_text(d: Duration) -> String {
    HandlerData::format_duration(d.as_secs(), d.subsec_nanos())
}

#[test]
fn test_handler_data_format_duration_less_than_a_day() {
    let more_than_a_day = Duration::new(2 * 60 * 60 + 3 * 60 + 4, 567 * 1_000_000);
    assert_eq!("0d 02h 03m 04.567s", duration_text(more_than_a_day));
}

#[test]
fn test_handler_data_format_duration_less_than_a_second() {
    let more_than_a_day = Duration::new(0, 567 * 1_000_000);
    assert_eq!("0d 00h 00m 00.567s", duration_text(more_than_a_day));
}

#[test]
fn test_handler_data_format_duration_more_than_a_day() {
    let more_than_a_day = Duration::new(1 * 60 * 60 * 24 + 2 * 60 * 60 + 3 * 60 + 4, 567 * 1_000_000);
    assert_eq!("1d 02h 03m 04.567s", duration_text(more_than_a_day));
}

#[test]
fn test_handler_data_format_duration_more_than_a_year() {
    let more_than_a_day = Duration::new(400 * 60 * 60 * 24 + 2, 34 * 1_000_000);
    assert_eq!("400d 00h 00m 02.034s", duration_text(more_than_a_day));
}

fn min_max_data() -> HandlerData {
    let mut handler_data = HandlerData::with_capacity(10, 10, 10);
    handler_data.other.insert("min_pos_node_id".to_string(), "123".to_string());
    handler_data.other.insert("max_pos_node_id".to_string(), "432".to_string());
    handler_data.other.insert("min_neg_node_id".to_string(), "None".to_string());
    handler_data.other.insert("max_neg_node_id".to_string(), "None".to_string());
    handler_data.other.insert("min_pos_way_id".to_string(), "None".to_string());
    handler_data.other.insert("max_pos_way_id".to_string(), "None".to_string());
    handler_data.other.insert("min_neg_way_id".to_string(), "-4324234".to_string());
    handler_data.other.insert("max_neg_way_id".to_string(), "-35".to_string());
    handler_data.other.insert("min_pos_relation_id".to_string(), "3456".to_string());
    handler_data.other.insert("max_pos_relation_id".to_string(), "6543".to_string());
    handler_data.other.insert("min_neg_relation_id".to_string(), "-65436543".to_string());
    handler_data.other.insert("max_neg_relation_id".to_string(), "-34563456".to_string());
    handler_data
}

#[test]
fn test_handler_data_summary_min_max() {
    let handler_data = min_max_data();
    println!("{}", handler_data.min_max_ids_summary());
}

#[test]
fn min_max_table_layout() {
    let text = min_max_data().min_max_ids_summary();
    let lines: Vec<&str> = text.lines().collect();
    assert_eq!(lines[1], "Detected min/max IDs:");
    assert_eq!(lines[6], "node     |          None |          None |           123 |           432");
    assert_eq!(lines[7], "way      |      -4324234 |           -35 |          None |          None");
    let empty = HandlerData::with_capacity(1, 1, 1).min_max_ids_summary();
    assert!(empty.contains("node     |          none |          none |          none |          none"));
}

#[test]
fn statistics_dump_and_one_line() {
    let mut data = HandlerData::with_capacity(7, 3, 2);
    data.input_node_count = 12;
    data.total_processing_secs = 61;
    data.total_processing_subsec_nanos = 5_000_000;
    data.other.insert("k".to_string(), "v".to_string());
    let text = data.format_multi_line();
    assert!(text.starts_with("input_node_count = 12\ninput_way_count = 0\n"));
    assert!(text.contains("\naccept_node_ids_count = 7\nno_elevation_node_ids_count = 7\n"));
    assert!(text.contains("\ntotal_processing_time = 0d 00h 01m 01.005s\n"));
    assert!(text.ends_with("other = \n    k = v"));
    let one = data.format_one_line();
    assert!(!one.contains('\n'));
    assert!(one.starts_with("input_node_count = 12, input_way_count = 0, "));
}

fn options(level: u8) -> SummaryOptions {
    SummaryOptions {
        summary_level: level,
        has_input: true,
        enrich_country: true,
        enrich_elevation: false,
        way_splitting: false,
        input_abs_path: "/data/in.pbf".to_string(),
        input_file_size: 2048,
        version: "rusty-routes-transformer 0.1.0".to_string(),
    }
}

fn percentages() -> SummaryPercentages {
    SummaryPercentages {
        country_found: "75.00".to_string(),
        country_not_found: "25.00".to_string(),
        multiple_country_found: "0.00".to_string(),
        elevation_found: "NaN".to_string(),
        elevation_not_found: "NaN".to_string(),
        elevation_not_relevant: "NaN".to_string(),
        elevation_tiff_used: "NaN".to_string(),
        splitted_way: "NaN".to_string(),
        unsplitted_way: "NaN".to_string(),
    }
}

#[test]
fn summary_sections_follow_the_level() {
    let mut data = HandlerData::with_capacity(1, 1, 1);
    data.input_node_count = 10;
    data.accepted_node_count = 4;
    data.output_node_count = 5;
    data.country_found_node_count = 3;
    data.country_not_found_node_count = 1;

    let s1 = data.summary(&options(1), &percentages());
    assert!(s1.contains("Processing of file /data/in.pbf (2048 bytes)\nwith rusty-routes-transformer 0.1.0 completed in 0d 00h 00m 00.000s"));
    assert!(s1.contains("    read |          +10 |           10 |"));
    assert!(s1.contains("accepted |           -6 |            4 |"));
    assert!(s1.contains(" written |           +1 |            5 |"));
    assert!(!s1.contains("Country enrichment"));

    let s2 = data.summary(&options(2), &percentages());
    assert!(s2.contains("Country detections total:             4\nCountry found for                     3 nodes (75.00%)"));
    assert!(!s2.contains("Detected min/max IDs"));

    let s3 = data.summary(&options(3), &percentages());
    assert!(s3.contains("Detected min/max IDs"));

    assert_eq!(data.summary(&options(0), &percentages()), "");
    let mut no_input = options(3);
    no_input.has_input = false;
    assert_eq!(data.summary(&no_input, &percentages()), "No input file specified, pbf processing was skipped");
}

#[test]
fn element_counter_keys_and_counts() {
    let c = ElementCounter::with_index(3, ElementCountResultType::AcceptedCount);
    assert_eq!(c.result_key, "03 AcceptedCount");
    let c = ElementCounter::with_index(-1, ElementCountResultType::OutputCount);
    assert_eq!(c.result_key, "-1 OutputCount");
    let c = ElementCounter::with_index(123, ElementCountResultType::InputCount);
    assert_eq!(c.result_key, "123 InputCount");
    let mut c = ElementCounter::new(ElementCountResultType::InputCount);
    assert_eq!(c.result_key, "InputCount");
    let mut data = HandlerData::with_capacity(1, 1, 1);
    data.input_node_count = 5;
    c.count(&mut data);
    assert_eq!(c.nodes_count, 0);
    assert_eq!(data.input_node_count, 5);
    assert_eq!(c.counter_name(), "ElementCounter InputCount");
}

fn chain_options() -> ChainOptions {
    ChainOptions {
        with_node_filtering: true,
        remove_metadata: true,
        enrich_elevation: false,
        elevation_way_splitting: false,
        has_country_index: false,
        has_country_csv: false,
        has_output: true,
        trace: false,
    }
}

#[test]
fn filter_pass_plan() {
    let mut o = chain_options();
    assert_eq!(
        filter_chain_plan(&o),
        vec![ChainStep::CountInput, ChainStep::RemoveAllNodes, ChainStep::RoutingFilter, ChainStep::CountAccepted, ChainStep::CollectReferencedNodes]
    );
    o.with_node_filtering = false;
    o.enrich_elevation = true;
    assert_eq!(
        filter_chain_plan(&o),
        vec![ChainStep::CountInput, ChainStep::RemoveAllNodes, ChainStep::RoutingFilter, ChainStep::CountAccepted, ChainStep::CollectNoElevationNodes]
    );
}

#[test]
fn processing_pass_plan() {
    let o = chain_options();
    assert_eq!(
        processing_chain_plan(&o),
        vec![
            ChainStep::CountInput, ChainStep::PrintInput, ChainStep::RoutingFilter, ChainStep::FilterNodesById,
            ChainStep::RemoveMetadata, ChainStep::CountAccepted, ChainStep::RemoveUnwantedTags, ChainStep::CountOutput,
            ChainStep::PrintOutput, ChainStep::WriteSimple,
        ]
    );
    let o = ChainOptions {
        with_node_filtering: false,
        remove_metadata: false,
        enrich_elevation: true,
        elevation_way_splitting: true,
        has_country_index: false,
        has_country_csv: true,
        has_output: true,
        trace: true,
    };
    assert_eq!(
        processing_chain_plan(&o),
        vec![
            ChainStep::CountInput, ChainStep::PrintInput, ChainStep::RoutingFilter, ChainStep::CountAccepted,
            ChainStep::PrintBeforeElevation, ChainStep::EnrichElevation, ChainStep::PrintAfterElevation,
            ChainStep::BuildCountryIndex, ChainStep::RemoveUnwantedTags, ChainStep::CountOutput, ChainStep::PrintOutput,
            ChainStep::WriteSplitting,
        ]
    );
}

#[test]
fn country_index_decisions() {
    let mut o = chain_options();
    assert!(!should_enrich_country(&o));
    o.has_country_csv = true;
    assert!(should_enrich_country(&o) && should_build_country_index(&o) && !should_load_country_index(&o));
    o.has_country_index = true;
    assert!(should_enrich_country(&o) && !should_build_country_index(&o) && should_load_country_index(&o));
}

#[test]
fn summary_levels() {
    assert_eq!(summary_level(0, false), 1);
    assert_eq!(summary_level(2, false), 3);
    assert_eq!(summary_level(3, true), 0);
    assert_eq!(summary_level(255, false), 255);
}

fn facts(exists: bool, is_file: bool, len: u64, openable: bool) -> FileFacts {
    FileFacts { exists, is_file, len, openable }
}

#[test]
fn file_validation_reports_the_first_problem() {
    assert_eq!(validate_file(&facts(false, false, 0, false)), Err(FileProblem::DoesNotExist));
    assert_eq!(validate_file(&facts(true, false, 0, false)), Err(FileProblem::NotAFile));
    assert_eq!(validate_file(&facts(true, true, 0, true)), Err(FileProblem::Empty));
    assert_eq!(validate_file(&facts(true, true, 9, false)), Err(FileProblem::NotReadable));
    assert_eq!(validate_file(&facts(true, true, 9, true)), Ok(()));
    assert_eq!(validate_optional_file(&None), Ok(()));
    assert_eq!(validate_optional_file(&Some(facts(true, true, 0, true))), Err(FileProblem::Empty));
    assert_eq!(problem_message("Input file", "/x.pbf", &FileProblem::DoesNotExist), "Input file does not exist: /x.pbf");
    assert_eq!(problem_message("Input file", "/x.pbf", &FileProblem::Empty), "Input file is empty: /x.pbf");
}

#[test]
fn output_in_a_readonly_or_missing_directory_is_refused() {
    assert_eq!(validate_output(&OutputFacts { dir_exists: true, dir_writable: true }), Ok(()));
    assert_eq!(
        validate_output(&OutputFacts { dir_exists: true, dir_writable: false }),
        Err(OutputProblem::DirectoryNotWritable)
    );
    assert_eq!(
        validate_output(&OutputFacts { dir_exists: false, dir_writable: false }),
        Err(OutputProblem::DirectoryDoesNotExist)
    );
    assert_eq!(
        output_problem_message("Output file", "ro/out.pbf", &OutputProblem::DirectoryNotWritable),
        "Output file is in a directory that is not writable: ro/out.pbf"
    );
}
