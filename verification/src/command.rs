//! The command line of the worker: what to run, where, with which arguments
//! and environment.

use vstd::prelude::*;
use vstd::string::StringExecFns;

verus! {

/// What separates the input files in the `--files` argument.
pub const FILE_SEPARATOR: &'static str = ",";

/// Directory of the project below the home directory.
pub const PROJECT_DIRECTORY: &'static str = "/Sophia";

/// The interpreter, below the project directory.
pub const INTERPRETER_PATH: &'static str = "/.venv/bin/python";

/// The worker's source directory, below the project directory.
pub const CORE_DIRECTORY: &'static str = "/core";

/// The configuration used where none is given, below the project directory.
pub const DEFAULT_CONFIG_PATH: &'static str = "/sone/subtitle.asr.sone";

/// The character sequences that a vector of strings holds.
pub open spec fn strings(parts: Seq<String>) -> Seq<Seq<char>> {
    Seq::new(parts.len(), |i: int| parts[i]@)
}

/// The pairs of character sequences that a vector of string pairs holds.
pub open spec fn string_pairs(pairs: Seq<(String, String)>) -> Seq<(Seq<char>, Seq<char>)> {
    Seq::new(pairs.len(), |i: int| (pairs[i].0@, pairs[i].1@))
}

/// The parts laid end to end with a separator between neighbours.
pub open spec fn separated(parts: Seq<Seq<char>>, separator: Seq<char>) -> Seq<char>
    decreases parts.len(),
{
    if parts.len() == 0 {
        Seq::empty()
    } else if parts.len() == 1 {
        parts[0]
    } else {
        separated(parts.drop_last(), separator) + separator + parts.last()
    }
}

/// Joins the parts with a separator between neighbours.
pub fn join(parts: &Vec<String>, separator: &str) -> (joined: String)
    ensures
        joined@ == separated(strings(parts@), separator@),
{
    let mut joined = String::new();
    let mut i: usize = 0;
    assert(strings(parts@).take(0) =~= Seq::<Seq<char>>::empty());
    while i < parts.len()
        invariant
            i <= parts.len(),
            joined@ == separated(strings(parts@).take(i as int), separator@),
        decreases parts.len() - i,
    {
        proof {
            let next = strings(parts@).take(i + 1);
            assert(next.drop_last() =~= strings(parts@).take(i as int));
            assert(next.last() == parts@[i as int]@);
            if i == 0 {
                assert(Seq::<char>::empty() + parts@[0]@ =~= parts@[0]@);
            }
        }
        if i > 0 {
            joined.append(separator);
        }
        joined.append(parts[i].as_str());
        i += 1;
    }
    assert(strings(parts@).take(i as int) =~= strings(parts@));
    joined
}

/// A command line: immutable once constructed.
#[derive(Debug, PartialEq)]
pub struct ProcessSpec {
    executable_path: String,
    working_directory: String,
    arguments: Vec<String>,
    environment: Vec<(String, String)>,
}

/// The model of a [`ProcessSpec`].
pub ghost struct ProcessSpecView {
    pub executable_path: Seq<char>,
    pub working_directory: Seq<char>,
    /// The arguments after the program name, in order.
    pub arguments: Seq<Seq<char>>,
    /// The variables to set for the process, name and value, in order.
    pub environment: Seq<(Seq<char>, Seq<char>)>,
}

impl View for ProcessSpec {
    type V = ProcessSpecView;

    closed spec fn view(&self) -> ProcessSpecView {
        ProcessSpecView {
            executable_path: self.executable_path@,
            working_directory: self.working_directory@,
            arguments: strings(self.arguments@),
            environment: string_pairs(self.environment@),
        }
    }
}

impl ProcessSpec {
    /// A command line of the given parts.
    pub fn new(
        executable_path: String,
        working_directory: String,
        arguments: Vec<String>,
        environment: Vec<(String, String)>,
    ) -> (spec: ProcessSpec)
        ensures
            spec@ == (ProcessSpecView {
                executable_path: executable_path@,
                working_directory: working_directory@,
                arguments: strings(arguments@),
                environment: string_pairs(environment@),
            }),
    {
        ProcessSpec { executable_path, working_directory, arguments, environment }
    }

    /// The program to run.
    pub fn executable_path(&self) -> (path: &str)
        ensures
            path@ == self@.executable_path,
    {
        self.executable_path.as_str()
    }

    /// The directory to run it in.
    pub fn working_directory(&self) -> (path: &str)
        ensures
            path@ == self@.working_directory,
    {
        self.working_directory.as_str()
    }

    /// The arguments, in the order in which the process is to get them.
    pub fn arguments(&self) -> (arguments: &Vec<String>)
        ensures
            strings(arguments@) == self@.arguments,
    {
        &self.arguments
    }

    /// The environment variables to set, in order.
    pub fn environment(&self) -> (environment: &Vec<(String, String)>)
        ensures
            string_pairs(environment@) == self@.environment,
    {
        &self.environment
    }
}

/// The arguments of a transcription run.
pub open spec fn transcription_arguments(
    files: Seq<Seq<char>>,
    outdir: Seq<char>,
    config: Option<Seq<char>>,
) -> Seq<Seq<char>> {
    let fixed = seq![
        "-m"@,
        "app.cli"@,
        "transcribe"@,
        "--files"@,
        separated(files, FILE_SEPARATOR@),
        "--outdir"@,
        outdir,
    ];
    match config {
        Some(path) => fixed + seq!["--config"@, path],
        None => fixed,
    }
}

/// The command line of a transcription run.
pub open spec fn transcription_spec(
    python_path: Seq<char>,
    script_path: Seq<char>,
    files: Seq<Seq<char>>,
    outdir: Seq<char>,
    config: Option<Seq<char>>,
) -> ProcessSpecView {
    ProcessSpecView {
        executable_path: python_path,
        working_directory: script_path,
        arguments: transcription_arguments(files, outdir, config),
        environment: seq![("PYTHONUNBUFFERED"@, "1"@)],
    }
}

/// The characters of an optional string.
pub open spec fn optional_chars(text: Option<String>) -> Option<Seq<char>> {
    match text {
        Some(chars) => Some(chars@),
        None => None,
    }
}

/// The command line that transcribes `files` into `outdir`: the interpreter
/// runs the module `app.cli` in the directory `script_path`, with unbuffered
/// output.
pub fn transcription_command(
    python_path: String,
    script_path: String,
    files: &Vec<String>,
    outdir: String,
    config: Option<String>,
) -> (spec: ProcessSpec)
    ensures
        spec@ == transcription_spec(
            python_path@,
            script_path@,
            strings(files@),
            outdir@,
            optional_chars(config),
        ),
{
    let mut arguments: Vec<String> = Vec::new();
    arguments.push("-m".to_owned());
    arguments.push("app.cli".to_owned());
    arguments.push("transcribe".to_owned());
    arguments.push("--files".to_owned());
    arguments.push(join(files, FILE_SEPARATOR));
    arguments.push("--outdir".to_owned());
    arguments.push(outdir);
    match config {
        Some(path) => {
            arguments.push("--config".to_owned());
            arguments.push(path);
        },
        None => {},
    }
    let mut environment: Vec<(String, String)> = Vec::new();
    environment.push(("PYTHONUNBUFFERED".to_owned(), "1".to_owned()));
    assert(strings(arguments@) =~= transcription_arguments(
        strings(files@),
        outdir@,
        optional_chars(config),
    ));
    assert(string_pairs(environment@) =~= seq![("PYTHONUNBUFFERED"@, "1"@)]);
    ProcessSpec::new(python_path, script_path, arguments, environment)
}

/// Where the worker is installed.
#[derive(Debug, PartialEq)]
pub struct Installation {
    pub python_path: String,
    pub core_directory: String,
    pub default_config: String,
}

/// The model of an [`Installation`].
pub ghost struct InstallationView {
    pub python_path: Seq<char>,
    pub core_directory: Seq<char>,
    pub default_config: Seq<char>,
}

impl View for Installation {
    type V = InstallationView;

    open spec fn view(&self) -> InstallationView {
        InstallationView {
            python_path: self.python_path@,
            core_directory: self.core_directory@,
            default_config: self.default_config@,
        }
    }
}

/// The installation of a development checkout below a home directory.
pub open spec fn development_layout(home: Seq<char>) -> InstallationView {
    InstallationView {
        python_path: home + PROJECT_DIRECTORY@ + INTERPRETER_PATH@,
        core_directory: home + PROJECT_DIRECTORY@ + CORE_DIRECTORY@,
        default_config: home + PROJECT_DIRECTORY@ + DEFAULT_CONFIG_PATH@,
    }
}

/// The command line with which an installation transcribes: the given
/// configuration, or the installation's own where none is given.
pub open spec fn installed_transcription_spec(
    installation: InstallationView,
    files: Seq<Seq<char>>,
    outdir: Seq<char>,
    config: Option<Seq<char>>,
) -> ProcessSpecView {
    transcription_spec(
        installation.python_path,
        installation.core_directory,
        files,
        outdir,
        Some(
            match config {
                Some(path) => path,
                None => installation.default_config,
            },
        ),
    )
}

impl Installation {
    /// The installation of a development checkout below `home`.
    pub fn development(home: &str) -> (installation: Installation)
        ensures
            installation@ == development_layout(home@),
    {
        let mut project = home.to_owned();
        project.append(PROJECT_DIRECTORY);
        let mut python_path = project.clone();
        python_path.append(INTERPRETER_PATH);
        let mut core_directory = project.clone();
        core_directory.append(CORE_DIRECTORY);
        let mut default_config = project;
        default_config.append(DEFAULT_CONFIG_PATH);
        Installation { python_path, core_directory, default_config }
    }

    /// The command line that transcribes `files` into `outdir` with this
    /// installation.
    pub fn transcription(
        self,
        files: &Vec<String>,
        outdir: String,
        config: Option<String>,
    ) -> (spec: ProcessSpec)
        ensures
            spec@ == installed_transcription_spec(
                self@,
                strings(files@),
                outdir@,
                optional_chars(config),
            ),
    {
        let chosen = match config {
            Some(path) => path,
            None => self.default_config,
        };
        transcription_command(self.python_path, self.core_directory, files, outdir, Some(chosen))
    }
}

} // verus!
