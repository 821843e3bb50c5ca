//! Pipelines in the terms of the caller: commands or scripts with their
//! parameters, whose values are already rendered for the wire.
use vstd::prelude::*;
use vstd::string::*;

verus! {

/// One parameter of a command; a value is its rendered PSRP object.
#[derive(Debug, Clone, PartialEq, Eq)]
pub enum Parameter {
    Named { name: String, value: String },
    Positional { value: String },
    Switch { name: String, value: bool },
}

/// A command or script of a pipeline, with its parameters in order.
#[derive(Debug, Clone)]
pub struct PipelineCommand {
    pub command_text: String,
    pub is_script: bool,
    pub parameters: Vec<Parameter>,
}

impl PipelineCommand {
    /// A script, without parameters.
    pub fn new_script(script: String) -> (r: Self)
        ensures
            r.command_text == script,
            r.is_script,
            r.parameters@.len() == 0,
    {
        PipelineCommand { command_text: script, is_script: true, parameters: Vec::new() }
    }

    /// A command, without parameters.
    pub fn new_command(command: String) -> (r: Self)
        ensures
            r.command_text == command,
            !r.is_script,
            r.parameters@.len() == 0,
    {
        PipelineCommand { command_text: command, is_script: false, parameters: Vec::new() }
    }

    /// Appends a parameter.
    pub fn add_parameter(&mut self, params: Parameter)
        ensures
            final(self).command_text == old(self).command_text,
            final(self).is_script == old(self).is_script,
            final(self).parameters@ == old(self).parameters@.push(params),
    {
        self.parameters.push(params);
    }

    /// The command with a parameter appended.
    pub fn with_parameter(self, params: Parameter) -> (r: Self)
        ensures
            r.command_text == self.command_text,
            r.is_script == self.is_script,
            r.parameters@ == self.parameters@.push(params),
    {
        let mut c = self;
        c.add_parameter(params);
        c
    }

    /// `Out-String -Stream`, which renders every output object as text lines.
    pub fn new_output_stream() -> (r: PipelineCommand)
        ensures
            r.command_text@ == "Out-String"@,
            !r.is_script,
            r.parameters@.len() == 1,
            r.parameters@[0] matches Parameter::Switch { name, value } && name@ == "Stream"@ && value,
    {
        let mut command = PipelineCommand::new_command(String::from_str("Out-String"));
        command.add_parameter(Parameter::Switch { name: String::from_str("Stream"), value: true });
        command
    }
}

} // verus!
