pub mod error;
pub mod resolver;
pub mod rows;
pub mod sqlite;
pub mod value;

pub use error::{ConnectorError, NodeSelectorInfo};
pub use rows::{ManyNodes, Node, PrismaRow, ScalarListValues, SingleNode};
pub use sqlite::{Sqlite, Step};
pub use value::{GraphqlId, PrismaValue, RawValue, TypeIdentifier};
