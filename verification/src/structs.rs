//! Data model of the pipeline: request parameters, environments, statuses and
//! the library's error type.

use vstd::prelude::*;

verus! {

/// Errors that the library reports.  Failures of the transport itself are
/// carried as the HTTP status code or as the name of the missing value; no
/// variant holds a foreign type.
#[derive(Clone, Debug)]
pub enum MilvueError {
    /// An expected environment variable is not set; holds its name.
    EnvVarNotFound(String),
    /// A response carried no content-type header value.
    NoContentType,
    /// A boundary was declared but the body does not parse as a bundle.
    MalformedBundle,
    /// A part of a bundle ends before its closing delimiter.
    TruncatedPart,
    /// A decoded part's payload does not parse as a DICOM file.
    DicomParseError,
    /// A response came back with a non-success HTTP status; holds the code.
    StatusResponseError(u16),
    /// The files of one upload do not all share the same study key.
    StudyUidMismatch,
    /// No inference command was selected for the run.
    NoInferenceCommand,
}

/// The text that [`MilvueError::message`] returns for each variant.
pub open spec fn spec_error_message(e: MilvueError) -> Seq<char> {
    match e {
        MilvueError::EnvVarNotFound(name) => "Environment variable not found: "@ + name@,
        MilvueError::NoContentType => "No content type in the response header."@,
        MilvueError::MalformedBundle => "Malformed multipart bundle."@,
        MilvueError::TruncatedPart => "Truncated part in multipart bundle."@,
        MilvueError::DicomParseError => "A result part does not parse as a DICOM file."@,
        MilvueError::StatusResponseError(code) => "Unexpected HTTP status in response."@,
        MilvueError::StudyUidMismatch => "More than one study key found among files to be uploaded."@,
        MilvueError::NoInferenceCommand => "No inference command provided."@,
    }
}

impl MilvueError {
    /// A human-readable description of the error.
    pub fn message(&self) -> (r: String)
        ensures
            r@ == spec_error_message(*self),
    {
        match self {
            MilvueError::EnvVarNotFound(name) => {
                let prefix = String::from_str("Environment variable not found: ");
                prefix.concat(name.as_str())
            },
            MilvueError::NoContentType => String::from_str(
                "No content type in the response header.",
            ),
            MilvueError::MalformedBundle => String::from_str("Malformed multipart bundle."),
            MilvueError::TruncatedPart => String::from_str("Truncated part in multipart bundle."),
            MilvueError::DicomParseError => String::from_str(
                "A result part does not parse as a DICOM file.",
            ),
            MilvueError::StatusResponseError(_) => String::from_str(
                "Unexpected HTTP status in response.",
            ),
            MilvueError::StudyUidMismatch => String::from_str(
                "More than one study key found among files to be uploaded.",
            ),
            MilvueError::NoInferenceCommand => String::from_str("No inference command provided."),
        }
    }
}

/// The remote environments a run can target.  Each variant names the
/// environment variable that holds the base URL of that environment.
#[derive(Clone, Copy, PartialEq, Eq, Structural, Debug)]
pub enum MilvueUrl {
    /// Development environment, configured through MILVUE_API_URL_DEV.
    Dev,
    /// Staging environment, configured through MILVUE_API_URL_STAGING.
    Staging,
    /// Production environment, configured through MILVUE_API_URL_PROD.
    Prod,
    /// Default environment, configured through MILVUE_API_URL.
    DefaultUrl,
}

/// The environment-variable name associated with each environment.
pub open spec fn spec_envar_name(u: MilvueUrl) -> Seq<char> {
    match u {
        MilvueUrl::Dev => "MILVUE_API_URL_DEV"@,
        MilvueUrl::Staging => "MILVUE_API_URL_STAGING"@,
        MilvueUrl::Prod => "MILVUE_API_URL_PROD"@,
        MilvueUrl::DefaultUrl => "MILVUE_API_URL"@,
    }
}

impl MilvueUrl {
    /// The name of the environment variable that holds this environment's
    /// base URL.  Reading the variable itself is the caller's affair.
    pub fn envar_name(&self) -> (r: String)
        ensures
            r@ == spec_envar_name(*self),
    {
        match self {
            MilvueUrl::Dev => String::from_str("MILVUE_API_URL_DEV"),
            MilvueUrl::Staging => String::from_str("MILVUE_API_URL_STAGING"),
            MilvueUrl::Prod => String::from_str("MILVUE_API_URL_PROD"),
            MilvueUrl::DefaultUrl => String::from_str("MILVUE_API_URL"),
        }
    }
}

impl Default for MilvueUrl {
    /// The default environment.
    fn default() -> (r: Self)
        ensures
            r == MilvueUrl::DefaultUrl,
    {
        MilvueUrl::DefaultUrl
    }
}

/// One status report of the remote service for a study.
#[derive(Clone, Debug)]
pub struct StatusResponse {
    pub study_instance_uid: String,
    pub status: String,
    pub version: String,
    pub message: String,
}

/// The output format of annotated result images.
#[derive(Clone, Copy, PartialEq, Eq, Structural, Debug)]
pub enum OutputFormat {
    /// A copy of the original image with annotations in a separate tag.
    Overlay,
    /// A copy of the original image with annotations burnt into the pixels.
    Highbit,
    /// A mask displayed on top of the original image.
    Gsps,
    /// A secondary capture.
    SecondaryCapture,
}

/// The wire value of each output format.
pub open spec fn spec_output_format(v: OutputFormat) -> Seq<char> {
    match v {
        OutputFormat::Overlay => "overlay"@,
        OutputFormat::Highbit => "highbit"@,
        OutputFormat::Gsps => "gsps"@,
        OutputFormat::SecondaryCapture => "secondary_capture"@,
    }
}

impl OutputFormat {
    /// The value this variant contributes to a query string.
    pub fn param_value(&self) -> (r: String)
        ensures
            r@ == spec_output_format(*self),
    {
        match self {
            OutputFormat::Overlay => String::from_str("overlay"),
            OutputFormat::Highbit => String::from_str("highbit"),
            OutputFormat::Gsps => String::from_str("gsps"),
            OutputFormat::SecondaryCapture => String::from_str("secondary_capture"),
        }
    }
}

/// The language of the annotations.
#[derive(Clone, Copy, PartialEq, Eq, Structural, Debug)]
pub enum Language {
    Fr,
    En,
    Es,
    De,
    It,
    Pt,
}

/// The wire value of each language.
pub open spec fn spec_language(v: Language) -> Seq<char> {
    match v {
        Language::Fr => "fr"@,
        Language::En => "en"@,
        Language::Es => "es"@,
        Language::De => "de"@,
        Language::It => "it"@,
        Language::Pt => "pt"@,
    }
}

impl Language {
    /// The value this variant contributes to a query string.
    pub fn param_value(&self) -> (r: String)
        ensures
            r@ == spec_language(*self),
    {
        match self {
            Language::Fr => String::from_str("fr"),
            Language::En => String::from_str("en"),
            Language::Es => String::from_str("es"),
            Language::De => String::from_str("de"),
            Language::It => String::from_str("it"),
            Language::Pt => String::from_str("pt"),
        }
    }
}

/// The inference to run against a study.
#[derive(Clone, Copy, PartialEq, Eq, Structural, Debug)]
pub enum InferenceCommand {
    /// Pathology detection.
    SmartUrgences,
    /// Anatomical measurements.
    SmartXpert,
}

/// The wire value of each inference command.
pub open spec fn spec_inference_command(v: InferenceCommand) -> Seq<char> {
    match v {
        InferenceCommand::SmartUrgences => "smarturgences"@,
        InferenceCommand::SmartXpert => "smartxpert"@,
    }
}

impl InferenceCommand {
    /// The value this variant contributes to a query string.
    pub fn param_value(&self) -> (r: String)
        ensures
            r@ == spec_inference_command(*self),
    {
        match self {
            InferenceCommand::SmartUrgences => String::from_str("smarturgences"),
            InferenceCommand::SmartXpert => String::from_str("smartxpert"),
        }
    }
}

/// Which result files a download should include.
#[derive(Clone, Copy, PartialEq, Eq, Structural, Debug)]
pub enum OutputSelection {
    /// Every output, negatives and out-of-scope results included.
    All,
    /// Every output except the recap.
    NoRecap,
    /// Every output except negatives and out-of-scope results.
    NoNegatives,
    /// No output.
    NoOutput,
}

/// The wire value of each output selection.
pub open spec fn spec_output_selection(v: OutputSelection) -> Seq<char> {
    match v {
        OutputSelection::All => "all"@,
        OutputSelection::NoRecap => "no_recap"@,
        OutputSelection::NoNegatives => "no_negatives"@,
        OutputSelection::NoOutput => "none"@,
    }
}

impl OutputSelection {
    /// The value this variant contributes to a query string.
    pub fn param_value(&self) -> (r: String)
        ensures
            r@ == spec_output_selection(*self),
    {
        match self {
            OutputSelection::All => String::from_str("all"),
            OutputSelection::NoRecap => String::from_str("no_recap"),
            OutputSelection::NoNegatives => String::from_str("no_negatives"),
            OutputSelection::NoOutput => String::from_str("none"),
        }
    }
}

/// The theme of the recap image.
#[derive(Clone, Copy, PartialEq, Eq, Structural, Debug)]
pub enum RecapTheme {
    Dark,
    Light,
}

/// The wire value of each recap theme.
pub open spec fn spec_recap_theme(v: RecapTheme) -> Seq<char> {
    match v {
        RecapTheme::Dark => "dark"@,
        RecapTheme::Light => "light"@,
    }
}

impl RecapTheme {
    /// The value this variant contributes to a query string.
    pub fn param_value(&self) -> (r: String)
        ensures
            r@ == spec_recap_theme(*self),
    {
        match self {
            RecapTheme::Dark => String::from_str("dark"),
            RecapTheme::Light => String::from_str("light"),
        }
    }
}

/// The requested structured-report format.
#[derive(Clone, Copy, PartialEq, Eq, Structural, Debug)]
pub enum StructuredReportFormat {
    Lite,
    Normal,
    Full,
    NoReport,
}

/// The wire value of each structured-report format.
pub open spec fn spec_structured_report_format(v: StructuredReportFormat) -> Seq<char> {
    match v {
        StructuredReportFormat::Lite => "lite"@,
        StructuredReportFormat::Normal => "normal"@,
        StructuredReportFormat::Full => "full"@,
        StructuredReportFormat::NoReport => "none"@,
    }
}

impl StructuredReportFormat {
    /// The value this variant contributes to a query string.
    pub fn param_value(&self) -> (r: String)
        ensures
            r@ == spec_structured_report_format(*self),
    {
        match self {
            StructuredReportFormat::Lite => String::from_str("lite"),
            StructuredReportFormat::Normal => String::from_str("normal"),
            StructuredReportFormat::Full => String::from_str("full"),
            StructuredReportFormat::NoReport => String::from_str("none"),
        }
    }
}

/// The requested static-report format.
#[derive(Clone, Copy, PartialEq, Eq, Structural, Debug)]
pub enum StaticReportFormat {
    Rgb,
    Pdf,
    NoReport,
}

/// The wire value of each static-report format.
pub open spec fn spec_static_report_format(v: StaticReportFormat) -> Seq<char> {
    match v {
        StaticReportFormat::Rgb => "rgb"@,
        StaticReportFormat::Pdf => "pdf"@,
        StaticReportFormat::NoReport => "none"@,
    }
}

impl StaticReportFormat {
    /// The value this variant contributes to a query string.
    pub fn param_value(&self) -> (r: String)
        ensures
            r@ == spec_static_report_format(*self),
    {
        match self {
            StaticReportFormat::Rgb => String::from_str("rgb"),
            StaticReportFormat::Pdf => String::from_str("pdf"),
            StaticReportFormat::NoReport => String::from_str("none"),
        }
    }
}

/// One parameter set: a configuration of the analysis requested against a
/// study.  Each parameter set yields its own download.
#[derive(Clone, Debug)]
pub struct MilvueParams {
    /// Whether to return a signed URL instead of the files themselves.
    pub signed_url: Option<bool>,
    /// Requested output format of annotated images.
    pub output_format: Option<OutputFormat>,
    /// Language of the annotations.
    pub language: Option<Language>,
    /// The inference to run; the one parameter that is always present.
    pub inference_command: InferenceCommand,
    /// Timezone delay from UTC in hours, e.g. "+2".
    pub timezone: Option<String>,
    /// Which result files to include.
    pub output_selection: Option<OutputSelection>,
    /// Theme of the recap image.
    pub recap_theme: Option<RecapTheme>,
    /// Requested structured-report format.
    pub structured_report_format: Option<StructuredReportFormat>,
    /// Requested static-report format.
    pub static_report_format: Option<StaticReportFormat>,
}

/// The value [`Default::default`] and [`MilvueParams::new`] return.
pub open spec fn spec_default_params() -> MilvueParams {
    MilvueParams {
        signed_url: Option::None,
        output_format: Option::Some(OutputFormat::Overlay),
        language: Option::Some(Language::Fr),
        inference_command: InferenceCommand::SmartUrgences,
        timezone: Option::None,
        output_selection: Option::Some(OutputSelection::All),
        recap_theme: Option::Some(RecapTheme::Dark),
        structured_report_format: Option::None,
        static_report_format: Option::Some(StaticReportFormat::Rgb),
    }
}

/// The wire value of a boolean query parameter.
pub open spec fn spec_bool_value(b: bool) -> Seq<char> {
    if b {
        "true"@
    } else {
        "false"@
    }
}

/// One optional query parameter: a singleton when the field is set, nothing
/// when it is absent.  An absent field is omitted, never sent empty.
pub open spec fn opt_param(key: Seq<char>, v: Option<Seq<char>>) -> Seq<(Seq<char>, Seq<char>)> {
    match v {
        Option::Some(s) => seq![(key, s)],
        Option::None => Seq::empty(),
    }
}

/// The full query-parameter list of a parameter set, in wire order.
pub open spec fn spec_query_params(p: MilvueParams) -> Seq<(Seq<char>, Seq<char>)> {
    opt_param("signed_url"@, match p.signed_url {
        Option::Some(b) => Option::Some(spec_bool_value(b)),
        Option::None => Option::None,
    }) + opt_param("output_format"@, match p.output_format {
        Option::Some(v) => Option::Some(spec_output_format(v)),
        Option::None => Option::None,
    }) + opt_param("language"@, match p.language {
        Option::Some(v) => Option::Some(spec_language(v)),
        Option::None => Option::None,
    }) + seq![("inference_command"@, spec_inference_command(p.inference_command))] + opt_param(
        "timezone"@,
        match p.timezone {
            Option::Some(s) => Option::Some(s@),
            Option::None => Option::None,
        },
    ) + opt_param("output_selection"@, match p.output_selection {
        Option::Some(v) => Option::Some(spec_output_selection(v)),
        Option::None => Option::None,
    }) + opt_param("recap_theme"@, match p.recap_theme {
        Option::Some(v) => Option::Some(spec_recap_theme(v)),
        Option::None => Option::None,
    }) + opt_param("structured_report_format"@, match p.structured_report_format {
        Option::Some(v) => Option::Some(spec_structured_report_format(v)),
        Option::None => Option::None,
    }) + opt_param("static_report_format"@, match p.static_report_format {
        Option::Some(v) => Option::Some(spec_static_report_format(v)),
        Option::None => Option::None,
    })
}

/// The views of an executable query-parameter list.
pub open spec fn query_view(v: Seq<(String, String)>) -> Seq<(Seq<char>, Seq<char>)> {
    v.map_values(|pair: (String, String)| (pair.0@, pair.1@))
}

impl MilvueParams {
    /// A parameter set with the default configuration.
    pub fn new() -> (r: Self)
        ensures
            r == spec_default_params(),
    {
        MilvueParams {
            signed_url: Option::None,
            output_format: Option::Some(OutputFormat::Overlay),
            language: Option::Some(Language::Fr),
            inference_command: InferenceCommand::SmartUrgences,
            timezone: Option::None,
            output_selection: Option::Some(OutputSelection::All),
            recap_theme: Option::Some(RecapTheme::Dark),
            structured_report_format: Option::None,
            static_report_format: Option::Some(StaticReportFormat::Rgb),
        }
    }

    /// The flat key/value query parameters of this parameter set, in wire
    /// order.  A field that is absent contributes no pair; the inference
    /// command is always present.
    #[verifier::rlimit(100)]
    pub fn to_query_param(&self) -> (r: Vec<(String, String)>)
        ensures
            query_view(r@) == spec_query_params(*self),
    {
        let mut q = self.query_params_head();
        let mut tail = self.query_params_tail();
        let ghost hv = query_view(q@);
        let ghost tv = query_view(tail@);
        q.append(&mut tail);
        assert(query_view(q@) =~= hv + tv);
        assert(query_view(q@) =~= spec_query_params(*self));
        q
    }

    /// The leading query parameters: signed URL, output format, language and
    /// the inference command.
    fn query_params_head(&self) -> (r: Vec<(String, String)>)
        ensures
            query_view(r@) == opt_param("signed_url"@, match self.signed_url {
                Option::Some(b) => Option::Some(spec_bool_value(b)),
                Option::None => Option::None,
            }) + opt_param("output_format"@, match self.output_format {
                Option::Some(v) => Option::Some(spec_output_format(v)),
                Option::None => Option::None,
            }) + opt_param("language"@, match self.language {
                Option::Some(v) => Option::Some(spec_language(v)),
                Option::None => Option::None,
            }) + seq![("inference_command"@, spec_inference_command(self.inference_command))],
    {
        let mut q: Vec<(String, String)> = Vec::new();
        assert(query_view(q@) =~= Seq::empty());
        if let Some(signed_url) = self.signed_url {
            let v = if signed_url {
                String::from_str("true")
            } else {
                String::from_str("false")
            };
            q.push((String::from_str("signed_url"), v));
        }
        assert(query_view(q@) =~= opt_param("signed_url"@, match self.signed_url {
            Option::Some(b) => Option::Some(spec_bool_value(b)),
            Option::None => Option::None,
        }));
        let ghost q1 = query_view(q@);
        if let Some(output_format) = &self.output_format {
            q.push((String::from_str("output_format"), output_format.param_value()));
        }
        assert(query_view(q@) =~= q1 + opt_param("output_format"@, match self.output_format {
            Option::Some(v) => Option::Some(spec_output_format(v)),
            Option::None => Option::None,
        }));
        let ghost q2 = query_view(q@);
        if let Some(language) = &self.language {
            q.push((String::from_str("language"), language.param_value()));
        }
        assert(query_view(q@) =~= q2 + opt_param("language"@, match self.language {
            Option::Some(v) => Option::Some(spec_language(v)),
            Option::None => Option::None,
        }));
        let ghost q3 = query_view(q@);
        q.push((String::from_str("inference_command"), self.inference_command.param_value()));
        assert(query_view(q@) =~= q3 + seq![
            ("inference_command"@, spec_inference_command(self.inference_command)),
        ]);
        q
    }

    /// The trailing query parameters: timezone, output selection, recap theme
    /// and the two report formats.
    fn query_params_tail(&self) -> (r: Vec<(String, String)>)
        ensures
            query_view(r@) == opt_param("timezone"@, match self.timezone {
                Option::Some(s) => Option::Some(s@),
                Option::None => Option::None,
            }) + opt_param("output_selection"@, match self.output_selection {
                Option::Some(v) => Option::Some(spec_output_selection(v)),
                Option::None => Option::None,
            }) + opt_param("recap_theme"@, match self.recap_theme {
                Option::Some(v) => Option::Some(spec_recap_theme(v)),
                Option::None => Option::None,
            }) + opt_param("structured_report_format"@, match self.structured_report_format {
                Option::Some(v) => Option::Some(spec_structured_report_format(v)),
                Option::None => Option::None,
            }) + opt_param("static_report_format"@, match self.static_report_format {
                Option::Some(v) => Option::Some(spec_static_report_format(v)),
                Option::None => Option::None,
            }),
    {
        let mut q: Vec<(String, String)> = Vec::new();
        assert(query_view(q@) =~= Seq::empty());
        if let Some(timezone) = &self.timezone {
            q.push((String::from_str("timezone"), timezone.clone()));
        }
        assert(query_view(q@) =~= opt_param("timezone"@, match self.timezone {
            Option::Some(s) => Option::Some(s@),
            Option::None => Option::None,
        }));
        let ghost q1 = query_view(q@);
        if let Some(output_selection) = &self.output_selection {
            q.push((String::from_str("output_selection"), output_selection.param_value()));
        }
        assert(query_view(q@) =~= q1 + opt_param("output_selection"@, match self.output_selection {
            Option::Some(v) => Option::Some(spec_output_selection(v)),
            Option::None => Option::None,
        }));
        let ghost q2 = query_view(q@);
        if let Some(recap_theme) = &self.recap_theme {
            q.push((String::from_str("recap_theme"), recap_theme.param_value()));
        }
        assert(query_view(q@) =~= q2 + opt_param("recap_theme"@, match self.recap_theme {
            Option::Some(v) => Option::Some(spec_recap_theme(v)),
            Option::None => Option::None,
        }));
        let ghost q3 = query_view(q@);
        if let Some(structured_report_format) = &self.structured_report_format {
            q.push(
                (
                    String::from_str("structured_report_format"),
                    structured_report_format.param_value(),
                ),
            );
        }
        assert(query_view(q@) =~= q3 + opt_param(
            "structured_report_format"@,
            match self.structured_report_format {
                Option::Some(v) => Option::Some(spec_structured_report_format(v)),
                Option::None => Option::None,
            },
        ));
        let ghost q4 = query_view(q@);
        if let Some(static_report_format) = &self.static_report_format {
            q.push((String::from_str("static_report_format"), static_report_format.param_value()));
        }
        assert(query_view(q@) =~= q4 + opt_param(
            "static_report_format"@,
            match self.static_report_format {
                Option::Some(v) => Option::Some(spec_static_report_format(v)),
                Option::None => Option::None,
            },
        ));
        q
    }
}

impl Default for MilvueParams {
    /// The default configuration: overlay output, French annotations,
    /// pathology detection, every output selected, dark recap, RGB report.
    fn default() -> (r: Self)
        ensures
            r == spec_default_params(),
    {
        MilvueParams::new()
    }
}

/// The per-run inference selection, as the caller states it: which commands
/// to run and the options every parameter set of the run shares.
#[derive(Clone, Debug)]
pub struct RunArgs {
    /// Run the pathology-detection inference.
    pub smarturgences: bool,
    /// Run the anatomical-measurement inference.
    pub smartxpert: bool,
    /// Language of the annotations.
    pub language: Language,
    /// Output format of annotated images.
    pub format: OutputFormat,
    /// Which result files to include.
    pub output_selection: OutputSelection,
    /// Theme of the recap image.
    pub recap_theme: RecapTheme,
    /// Requested static-report format.
    pub static_report: StaticReportFormat,
    /// Requested structured-report format.
    pub structured_report: StructuredReportFormat,
}

/// The parameter set that a run's arguments yield for one inference command.
pub open spec fn spec_params_for(args: RunArgs, cmd: InferenceCommand) -> MilvueParams {
    MilvueParams {
        signed_url: Option::None,
        output_format: Option::Some(args.format),
        language: Option::Some(args.language),
        inference_command: cmd,
        timezone: Option::None,
        output_selection: Option::Some(args.output_selection),
        recap_theme: Option::Some(args.recap_theme),
        structured_report_format: Option::Some(args.structured_report),
        static_report_format: Option::Some(args.static_report),
    }
}

/// The parameter sets a run requests: one per selected inference command,
/// pathology detection first.
pub open spec fn spec_params_from_args(args: RunArgs) -> Seq<MilvueParams> {
    let su: Seq<MilvueParams> = if args.smarturgences {
        seq![spec_params_for(args, InferenceCommand::SmartUrgences)]
    } else {
        Seq::empty()
    };
    let sx: Seq<MilvueParams> = if args.smartxpert {
        seq![spec_params_for(args, InferenceCommand::SmartXpert)]
    } else {
        Seq::empty()
    };
    su + sx
}

/// Builds the parameter sets of a run from its arguments: one per selected
/// inference command.  Selecting no command is a configuration error, fatal
/// at the run level.
pub fn params_from_args(args: &RunArgs) -> (r: Result<Vec<MilvueParams>, MilvueError>)
    ensures
        match r {
            Ok(list) => (args.smarturgences || args.smartxpert) && list@ == spec_params_from_args(
                *args,
            ),
            Err(e) => !args.smarturgences && !args.smartxpert && e is NoInferenceCommand,
        },
{
    if !args.smarturgences && !args.smartxpert {
        return Err(MilvueError::NoInferenceCommand);
    }
    let mut params_list: Vec<MilvueParams> = Vec::new();
    if args.smarturgences {
        params_list.push(
            MilvueParams {
                signed_url: None,
                output_format: Some(args.format),
                language: Some(args.language),
                inference_command: InferenceCommand::SmartUrgences,
                timezone: None,
                output_selection: Some(args.output_selection),
                recap_theme: Some(args.recap_theme),
                structured_report_format: Some(args.structured_report),
                static_report_format: Some(args.static_report),
            },
        );
    }
    if args.smartxpert {
        params_list.push(
            MilvueParams {
                signed_url: None,
                output_format: Some(args.format),
                language: Some(args.language),
                inference_command: InferenceCommand::SmartXpert,
                timezone: None,
                output_selection: Some(args.output_selection),
                recap_theme: Some(args.recap_theme),
                structured_report_format: Some(args.structured_report),
                static_report_format: Some(args.static_report),
            },
        );
    }
    assert(params_list@ =~= spec_params_from_args(*args));
    Ok(params_list)
}

/// Whether every study key of a non-empty list equals the first one.
pub open spec fn spec_all_same_uid(uids: Seq<String>) -> bool {
    forall|i: int| 0 <= i < uids.len() ==> #[trigger] uids[i]@ == uids[0]@
}

/// Checks that every file of one upload carries the same study key and
/// returns that key.  A mismatch is an error: a bundle must hold exactly one
/// study.
pub fn check_study_uids(study_uids: &Vec<String>) -> (r: Result<String, MilvueError>)
    requires
        study_uids@.len() > 0,
    ensures
        match r {
            Ok(uid) => spec_all_same_uid(study_uids@) && uid@ == study_uids@[0]@,
            Err(e) => !spec_all_same_uid(study_uids@) && e is StudyUidMismatch,
        },
{
    let first = study_uids[0].clone();
    let n = study_uids.len();
    let mut i: usize = 0;
    while i < n
        invariant
            n == study_uids@.len(),
            0 <= i <= n,
            first@ == study_uids@[0]@,
            forall|j: int| 0 <= j < i ==> #[trigger] study_uids@[j]@ == study_uids@[0]@,
        decreases n - i,
    {
        if !(study_uids[i] == first) {
            return Err(MilvueError::StudyUidMismatch);
        }
        i += 1;
    }
    Ok(first)
}

} // verus!
