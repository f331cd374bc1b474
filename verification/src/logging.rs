//! The data a log line is built from; writing it out is the
//! application shell's business.

use vstd::prelude::*;

verus! {

/// How loud a log line is.
#[derive(Debug, Clone, Copy)]
pub enum LogLevel {
    Error,
    Info,
}

/// Names the operation a log line speaks about.
#[derive(Debug)]
pub struct OperationContext {
    pub operation: String,
    pub entity_type: String,
    pub entity_id: Option<String>,
}

impl OperationContext {
    pub fn new(operation: &str, entity_type: &str) -> (r: OperationContext)
        ensures
            r.operation@ == operation@,
            r.entity_type@ == entity_type@,
            r.entity_id is None,
    {
        OperationContext {
            operation: operation.to_owned(),
            entity_type: entity_type.to_owned(),
            entity_id: Option::None,
        }
    }

    pub fn with_id(self, id: &str) -> (r: OperationContext)
        ensures
            r.operation == self.operation,
            r.entity_type == self.entity_type,
            r.entity_id is Some,
            r.entity_id.unwrap()@ == id@,
    {
        OperationContext {
            operation: self.operation,
            entity_type: self.entity_type,
            entity_id: Option::Some(id.to_owned()),
        }
    }
}

} // verus!
