use vstd::prelude::*;
use vstd::string::StringExecFns;

verus! {

/// Error raised by the aggregation pipeline.
#[derive(Debug)]
pub struct AggregatorError {
    message: String,
}

impl AggregatorError {
    /// What the error carries as its description.
    pub closed spec fn message_spec(&self) -> Seq<char> {
        self.message@
    }

    pub fn new(message: &str) -> (e: Self)
        ensures
            e.message_spec() == message@,
    {
        AggregatorError { message: message.to_owned() }
    }

    pub fn message(&self) -> (m: &String)
        ensures
            m@ == self.message_spec(),
    {
        &self.message
    }

    /// How the error prints, prefixed with its component.
    pub fn display_string(&self) -> (s: String)
        ensures
            s@ == "Aggregator Error: "@ + self.message_spec(),
    {
        let mut s = "Aggregator Error: ".to_owned();
        s.append(self.message.as_str());
        s
    }
}

/// Error raised by the background worker.
#[derive(Debug)]
pub struct WorkerError {
    message: String,
}

impl WorkerError {
    /// What the error carries as its description.
    pub closed spec fn message_spec(&self) -> Seq<char> {
        self.message@
    }

    pub fn new(message: &str) -> (e: Self)
        ensures
            e.message_spec() == message@,
    {
        WorkerError { message: message.to_owned() }
    }

    pub fn message(&self) -> (m: &String)
        ensures
            m@ == self.message_spec(),
    {
        &self.message
    }

    /// How the error prints, prefixed with its component.
    pub fn display_string(&self) -> (s: String)
        ensures
            s@ == "Worker Error: "@ + self.message_spec(),
    {
        let mut s = "Worker Error: ".to_owned();
        s.append(self.message.as_str());
        s
    }
}

} // verus!
