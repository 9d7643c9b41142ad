use vstd::prelude::*;
use crate::value::PrismaValue;

verus! {

/// Describes which unique key a lookup searched.
#[derive(Debug)]
pub struct NodeSelectorInfo {
    pub model: String,
    pub field: String,
    pub value: PrismaValue,
}

/// Failures of the connector.
#[derive(Debug)]
pub enum ConnectorError {
    /// A forced single-row fetch matched no row.
    NodeDoesNotExist,
    /// A unique-key lookup matched no row.
    NodeNotFoundForWhere(NodeSelectorInfo),
    /// A parent-to-child traversal matched no row.
    NodesNotConnected {
        relation_name: String,
        parent_name: String,
        parent_where: Option<NodeSelectorInfo>,
        child_name: String,
        child_where: Option<NodeSelectorInfo>,
    },
    /// A row had another number of columns than type tags were given.
    ColumnCountMismatch { columns: usize, tags: usize },
    /// The column at this position did not fit its type tag.
    ColumnDecode { column: usize },
    /// A domain value could not be converted to the type asked for.
    ConversionFailure,
    /// A row that should carry columns carried none.
    MissingColumn,
    /// The engine, the pool or an attachment failed.
    Engine(String),
}

} // verus!
