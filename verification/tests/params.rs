//! Parameter sets, query parameters, environments and errors.

use milvue_rs::structs::InferenceCommand;
use milvue_rs::structs::Language;
use milvue_rs::structs::MilvueError;
use milvue_rs::structs::MilvueParams;
use milvue_rs::structs::MilvueUrl;
use milvue_rs::structs::OutputFormat;
use milvue_rs::structs::OutputSelection;
use milvue_rs::structs::RecapTheme;
use milvue_rs::structs::RunArgs;
use milvue_rs::structs::StaticReportFormat;
use milvue_rs::structs::StructuredReportFormat;
use milvue_rs::structs::check_study_uids;
use milvue_rs::structs::params_from_args;

fn pairs(v: Vec<(String, String)>) -> Vec<(String, String)> {
    v
}

#[test]
fn default_query_params() {
    let params = MilvueParams::new();
    let q = pairs(params.to_query_param());
    let expected = vec![
        ("output_format", "overlay"),
        ("language", "fr"),
        ("inference_command", "smarturgences"),
        ("output_selection", "all"),
        ("recap_theme", "dark"),
        ("static_report_format", "rgb"),
    ];
    assert_eq!(q.len(), expected.len());
    for (got, want) in q.iter().zip(expected.iter()) {
        assert_eq!(got.0, want.0);
        assert_eq!(got.1, want.1);
    }
}

#[test]
fn full_query_params_in_wire_order() {
    let params = MilvueParams {
        signed_url: Some(true),
        output_format: Some(OutputFormat::SecondaryCapture),
        language: Some(Language::En),
        inference_command: InferenceCommand::SmartXpert,
        timezone: Some(String::from("+2")),
        output_selection: Some(OutputSelection::NoNegatives),
        recap_theme: Some(RecapTheme::Light),
        structured_report_format: Some(StructuredReportFormat::Lite),
        static_report_format: Some(StaticReportFormat::Pdf),
    };
    let q = pairs(params.to_query_param());
    let expected = vec![
        ("signed_url", "true"),
        ("output_format", "secondary_capture"),
        ("language", "en"),
        ("inference_command", "smartxpert"),
        ("timezone", "+2"),
        ("output_selection", "no_negatives"),
        ("recap_theme", "light"),
        ("structured_report_format", "lite"),
        ("static_report_format", "pdf"),
    ];
    assert_eq!(q.len(), expected.len());
    for (got, want) in q.iter().zip(expected.iter()) {
        assert_eq!(got.0, want.0);
        assert_eq!(got.1, want.1);
    }
}

#[test]
fn absent_fields_are_omitted() {
    let params = MilvueParams {
        signed_url: None,
        output_format: None,
        language: None,
        inference_command: InferenceCommand::SmartUrgences,
        timezone: None,
        output_selection: None,
        recap_theme: None,
        structured_report_format: None,
        static_report_format: None,
    };
    let q = pairs(params.to_query_param());
    assert_eq!(q.len(), 1);
    assert_eq!(q[0].0, "inference_command");
    assert_eq!(q[0].1, "smarturgences");
}

fn args(smarturgences: bool, smartxpert: bool) -> RunArgs {
    RunArgs {
        smarturgences,
        smartxpert,
        language: Language::En,
        format: OutputFormat::Overlay,
        output_selection: OutputSelection::All,
        recap_theme: RecapTheme::Dark,
        static_report: StaticReportFormat::Rgb,
        structured_report: StructuredReportFormat::NoReport,
    }
}

#[test]
fn params_from_args_both_commands() {
    let list = params_from_args(&args(true, true)).unwrap();
    assert_eq!(list.len(), 2);
    assert!(matches!(list[0].inference_command, InferenceCommand::SmartUrgences));
    assert!(matches!(list[1].inference_command, InferenceCommand::SmartXpert));
    assert!(matches!(list[0].language, Some(Language::En)));
    assert!(list[0].signed_url.is_none());
    assert!(list[0].timezone.is_none());
}

#[test]
fn params_from_args_one_command() {
    let list = params_from_args(&args(false, true)).unwrap();
    assert_eq!(list.len(), 1);
    assert!(matches!(list[0].inference_command, InferenceCommand::SmartXpert));
}

#[test]
fn params_from_args_no_command_is_an_error() {
    let r = params_from_args(&args(false, false));
    assert!(matches!(r, Err(MilvueError::NoInferenceCommand)));
}

#[test]
fn check_study_uids_all_same() {
    let uids = vec![
        String::from("1.2.3"),
        String::from("1.2.3"),
        String::from("1.2.3"),
    ];
    assert_eq!(check_study_uids(&uids).unwrap(), "1.2.3");
}

#[test]
fn check_study_uids_single() {
    let uids = vec![String::from("9")];
    assert_eq!(check_study_uids(&uids).unwrap(), "9");
}

#[test]
fn check_study_uids_mismatch() {
    let uids = vec![String::from("1.2.3"), String::from("1.2.4")];
    assert!(matches!(check_study_uids(&uids), Err(MilvueError::StudyUidMismatch)));
}

#[test]
fn envar_names() {
    assert_eq!(MilvueUrl::Dev.envar_name(), "MILVUE_API_URL_DEV");
    assert_eq!(MilvueUrl::Staging.envar_name(), "MILVUE_API_URL_STAGING");
    assert_eq!(MilvueUrl::Prod.envar_name(), "MILVUE_API_URL_PROD");
    assert_eq!(MilvueUrl::DefaultUrl.envar_name(), "MILVUE_API_URL");
    assert_eq!(MilvueUrl::default(), MilvueUrl::DefaultUrl);
}

#[test]
fn error_messages() {
    assert_eq!(
        MilvueError::NoInferenceCommand.message(),
        "No inference command provided."
    );
    assert_eq!(
        MilvueError::EnvVarNotFound(String::from("MILVUE_API_URL")).message(),
        "Environment variable not found: MILVUE_API_URL"
    );
    assert_eq!(
        MilvueError::StudyUidMismatch.message(),
        "More than one study key found among files to be uploaded."
    );
}

#[test]
fn wire_values() {
    assert_eq!(OutputFormat::Gsps.param_value(), "gsps");
    assert_eq!(OutputFormat::Highbit.param_value(), "highbit");
    assert_eq!(Language::Pt.param_value(), "pt");
    assert_eq!(OutputSelection::NoRecap.param_value(), "no_recap");
    assert_eq!(StructuredReportFormat::Full.param_value(), "full");
    assert_eq!(StructuredReportFormat::NoReport.param_value(), "none");
    assert_eq!(StaticReportFormat::NoReport.param_value(), "none");
}
