//! The tool that reads back what a shake has removed.

use vstd::prelude::*;
use vstd::string::*;

verus! {

/// The name of the tool.
pub const READ_ARTIFACT_TOOL_NAME: &'static str = "read_artifact";

/// What the model is told of the tool.
pub const READ_ARTIFACT_DESCRIPTION: &'static str =
    "Recover a bounded UTF-8 text page from an artifact:// URI left by /shake. If the result contains a start_byte continuation, call this tool again with that offset. The placeholder also carries the artifact's absolute file path, which can be searched with shell tools (grep, awk, ...) instead of this tool when only part of the output is needed.";

/// What kind of value a parameter takes.
#[derive(Clone, Copy, Debug, PartialEq, Eq, Structural)]
pub enum ParameterKind {
    Text,
    Integer,
}

/// A parameter of a tool.
#[derive(Clone, Copy, Debug, PartialEq, Eq)]
pub struct ToolParameter {
    pub name: &'static str,
    pub description: &'static str,
    pub kind: ParameterKind,
    pub required: bool,
}

/// A tool that the model may call.
#[derive(Debug, PartialEq, Eq)]
pub struct ToolSpec {
    pub name: &'static str,
    pub description: &'static str,
    /// In the order of their names.
    pub parameters: Vec<ToolParameter>,
    /// Other parameters may be given.
    pub additional_parameters: bool,
    pub strict: bool,
}

/// The tool that reads an artifact: which one, and from where on.
pub fn create_read_artifact_tool() -> (tool: ToolSpec)
    ensures
        tool.name@ == READ_ARTIFACT_TOOL_NAME@,
        tool.description@ == READ_ARTIFACT_DESCRIPTION@,
        tool.parameters@.len() == 2,
        tool.parameters@[0].name@ == "artifact"@,
        tool.parameters@[0].description@
            == "The artifact:// URI from a shaken history placeholder."@,
        tool.parameters@[0].kind is Text,
        tool.parameters@[0].required,
        tool.parameters@[1].name@ == "start_byte"@,
        tool.parameters@[1].description@
            == "Byte offset for continuing a bounded page; omit it for the first page."@,
        tool.parameters@[1].kind is Integer,
        !tool.parameters@[1].required,
        !tool.additional_parameters,
        !tool.strict,
{
    let mut parameters: Vec<ToolParameter> = Vec::new();
    parameters.push(
        ToolParameter {
            name: "artifact",
            description: "The artifact:// URI from a shaken history placeholder.",
            kind: ParameterKind::Text,
            required: true,
        },
    );
    parameters.push(
        ToolParameter {
            name: "start_byte",
            description: "Byte offset for continuing a bounded page; omit it for the first page.",
            kind: ParameterKind::Integer,
            required: false,
        },
    );
    ToolSpec {
        name: READ_ARTIFACT_TOOL_NAME,
        description: READ_ARTIFACT_DESCRIPTION,
        parameters,
        additional_parameters: false,
        strict: false,
    }
}

/// What the model is told where its arguments cannot be read.
pub fn bad_arguments_message(error: &str) -> (message: String)
    ensures
        message@ == "failed to parse read_artifact arguments: "@ + error@,
{
    let mut message = "failed to parse read_artifact arguments: ".to_owned();
    message.append(error);
    message
}

/// What the model gets of an artifact: a page, and on a line of its own why it
/// was cut short, if it was.
pub fn page_output(page: String, truncation_notice: Option<&str>) -> (output: String)
    ensures
        output@ == (match truncation_notice {
            Some(notice) => page@ + "\n"@ + notice@,
            None => page@,
        }),
{
    match truncation_notice {
        Some(notice) => {
            let mut output = page;
            output.append("\n");
            output.append(notice);
            output
        },
        None => page,
    }
}

} // verus!
