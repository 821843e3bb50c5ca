//! Output streams that a Receive asks for.
use vstd::prelude::*;
use vstd::string::*;

verus! {

/// A stream to receive: its name and, for a pipeline stream, the command id.
#[derive(Debug, Clone, PartialEq, Eq)]
pub struct DesiredStream {
    pub name: String,
    pub command_id: Option<u128>,
}

/// The standard output stream of the pool (`None`) or of a pipeline.
pub open spec fn is_stdout_of(s: DesiredStream, command_id: Option<u128>) -> bool {
    s.name@ == "stdout"@ && s.command_id == command_id
}

impl DesiredStream {
    pub fn new(name: String, command_id: Option<u128>) -> (r: Self)
        ensures
            r.name == name,
            r.command_id == command_id,
    {
        Self { name, command_id }
    }

    /// Builds a stream directly (for tests).
    pub fn test_new(name: &str, command_id: Option<u128>) -> (r: Self)
        ensures
            r.name@ == name@,
            r.command_id == command_id,
    {
        Self { name: String::from_str(name), command_id }
    }

    pub fn name(&self) -> (r: &str)
        ensures
            r@ == self.name@,
    {
        self.name.as_str()
    }

    pub fn command_id(&self) -> (r: Option<u128>)
        ensures
            r == self.command_id,
    {
        self.command_id
    }

    pub fn stdout_for_command(command_id: u128) -> (r: Self)
        ensures
            is_stdout_of(r, Some(command_id)),
    {
        proof {
            reveal_strlit("stdout");
        }
        Self { name: String::from_str("stdout"), command_id: Some(command_id) }
    }

    /// The pool's own stream.
    pub fn runspace_pool_streams() -> (r: Vec<Self>)
        ensures
            r@.len() == 1,
            is_stdout_of(r@[0], None),
    {
        proof {
            reveal_strlit("stdout");
        }
        let mut v: Vec<Self> = Vec::new();
        v.push(Self { name: String::from_str("stdout"), command_id: None });
        v
    }

    /// The stream of one pipeline.
    pub fn pipeline_streams(command_id: u128) -> (r: Vec<Self>)
        ensures
            r@.len() == 1,
            is_stdout_of(r@[0], Some(command_id)),
    {
        let mut v: Vec<Self> = Vec::new();
        v.push(Self::stdout_for_command(command_id));
        v
    }

    /// Two streams are the same when their names and command ids agree.
    pub fn same_as(&self, other: &Self) -> (r: bool)
        ensures
            r == (self.name@ == other.name@ && self.command_id == other.command_id),
    {
        let same_id = match (self.command_id, other.command_id) {
            (Some(a), Some(b)) => a == b,
            (None, None) => true,
            _ => false,
        };
        same_id && crate::text::str_eq(self.name.as_str(), other.name.as_str())
    }
}

} // verus!
