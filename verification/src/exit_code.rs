use vstd::prelude::*;

verus! {

/// Why the code generator stopped without its output.
#[derive(Clone, Copy, Debug, PartialEq, Eq)]
pub enum ExitCode {
    /// The command line was misused.
    Cli,
    /// A file could not be read or written.
    Io,
    /// A template could not be rendered.
    Template,
}

impl ExitCode {
    /// The status that the process ends with.
    pub open spec fn spec_status(&self) -> i32 {
        match self {
            ExitCode::Cli => 64,
            ExitCode::Io => 65,
            ExitCode::Template => 66,
        }
    }

    /// The status that the process ends with.
    pub fn status(&self) -> (status: i32)
        ensures
            status == self.spec_status(),
            64 <= status <= 113,
    {
        match self {
            ExitCode::Cli => 64,
            ExitCode::Io => 65,
            ExitCode::Template => 66,
        }
    }
}

/// The status that a run ends with: 0 where it succeeded, else that of its failure.
pub fn exit_status(outcome: &Result<(), ExitCode>) -> (status: i32)
    ensures
        status == (match outcome {
            Ok(_) => 0i32,
            Err(code) => code.spec_status(),
        }),
{
    match outcome {
        Ok(_) => 0,
        Err(code) => code.status(),
    }
}

/// A failure together with what is to be told about it.
#[derive(Debug)]
pub struct ExitCodeWithMessage {
    code: ExitCode,
    message: String,
}

impl ExitCodeWithMessage {
    /// The kind of the failure.
    pub closed spec fn spec_code(&self) -> ExitCode {
        self.code
    }

    /// What is to be told about the failure.
    pub closed spec fn spec_message(&self) -> Seq<char> {
        self.message@
    }

    /// A failure of the given kind with what is to be told about it.
    pub fn new(code: ExitCode, message: String) -> (r: Self)
        ensures
            r.spec_code() == code,
            r.spec_message() == message@,
    {
        ExitCodeWithMessage { code, message }
    }

    /// A misuse of the command line.
    pub fn cli(message: String) -> (r: Self)
        ensures
            r.spec_code() == ExitCode::Cli,
            r.spec_message() == message@,
    {
        Self::new(ExitCode::Cli, message)
    }

    /// What is to be told about the failure.
    pub fn message(&self) -> (message: &str)
        ensures
            message@ == self.spec_message(),
    {
        self.message.as_str()
    }

    /// The kind of the failure.
    pub fn code(&self) -> (code: ExitCode)
        ensures
            code == self.spec_code(),
    {
        self.code
    }
}

/// The name of the file that holds the generated code: the stem of the schema file and the
/// suffix of what is generated.
pub fn build_output_file_name(stem: &str, suffix: &str) -> (file_name: String)
    ensures
        file_name@ == stem@ + suffix@,
{
    let mut file_name = String::new();
    file_name.append(stem);
    file_name.append(suffix);
    assert(file_name@ =~= stem@ + suffix@);
    file_name
}

} // verus!
