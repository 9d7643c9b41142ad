use vstd::prelude::*;
use crate::error::{ConnectorError, NodeSelectorInfo};
use crate::rows::{
    decode_row, id_of_value, raws_view, row_decodes, value_id, values_view, Node, PrismaRow,
    SingleNode,
};
use crate::value::{decode_spec, GraphqlId, IdView, PrismaValue, RawValue, TypeIdentifier, ValueView};

verus! {

/// Decodes every row of a result set against the same type tags; the first row
/// that does not decode fails the whole.
pub fn decode_rows(raw: Vec<Vec<RawValue>>, tags: &[TypeIdentifier]) -> (r: Result<Vec<PrismaRow>, ConnectorError>)
    ensures
        r is Ok <==> forall|i: int| 0 <= i < raw@.len() ==> row_decodes(raws_view((#[trigger] raw@[i])@), tags@),
        r matches Ok(rows) ==> {
            &&& rows@.len() == raw@.len()
            &&& forall|i: int| 0 <= i < raw@.len() ==> (#[trigger] rows@[i]).values@.len() == raw@[i]@.len()
            &&& forall|i: int, c: int|
                0 <= i < raw@.len() && 0 <= c < raw@[i]@.len() ==> decode_spec(raw@[i]@[c]@, tags@[c])
                    == Some((#[trigger] rows@[i].values@[c])@)
        },
        r is Err ==> r matches Err(ConnectorError::ColumnCountMismatch { .. }) || r matches Err(
            ConnectorError::ColumnDecode { .. },
        ),
{
    let mut rows: Vec<PrismaRow> = Vec::new();
    let mut i: usize = 0;
    while i < raw.len()
        invariant
            i <= raw@.len(),
            rows@.len() == i,
            forall|m: int| 0 <= m < i ==> row_decodes(raws_view((#[trigger] raw@[m])@), tags@),
            forall|m: int| 0 <= m < i ==> (#[trigger] rows@[m]).values@.len() == raw@[m]@.len(),
            forall|m: int, c: int|
                0 <= m < i && 0 <= c < raw@[m]@.len() ==> decode_spec(raw@[m]@[c]@, tags@[c]) == Some((#[trigger] rows@[m].values@[c])@),
        decreases raw.len() - i,
    {
        match decode_row(&raw[i], tags) {
            Ok(row) => rows.push(row),
            Err(e) => return Err(e),
        }
        i = i + 1;
    }
    Ok(rows)
}

/// The first row of a result set, or `NodeDoesNotExist` where there is none.
pub fn first_row(rows: Vec<PrismaRow>) -> (r: Result<PrismaRow, ConnectorError>)
    ensures
        r is Ok <==> rows@.len() > 0,
        r matches Ok(row) ==> row == rows@[0],
        rows@.len() == 0 ==> r matches Err(ConnectorError::NodeDoesNotExist),
{
    let mut rows = rows;
    if rows.len() == 0 {
        Err(ConnectorError::NodeDoesNotExist)
    } else {
        Ok(rows.remove(0))
    }
}

/// The first column of a row read as an integer.
pub fn int_of_row(row: PrismaRow) -> (r: Result<i64, ConnectorError>)
    requires
        row.values@.len() >= 1,
    ensures
        r is Ok <==> row.values@[0]@ is Int,
        r matches Ok(i) ==> row.values@[0]@ == ValueView::Int(i as int),
        r is Err ==> r matches Err(ConnectorError::ConversionFailure),
{
    match &row.values[0] {
        PrismaValue::Int(i) => Ok(*i),
        _ => Err(ConnectorError::ConversionFailure),
    }
}

/// A row count read from the first column of a count query's row.
pub fn count_of_row(row: PrismaRow) -> (r: Result<usize, ConnectorError>)
    requires
        row.values@.len() >= 1,
    ensures
        r is Ok <==> (row.values@[0]@ matches ValueView::Int(i) && 0 <= i <= usize::MAX),
        r matches Ok(n) ==> row.values@[0]@ == ValueView::Int(n as int),
        r is Err ==> r matches Err(ConnectorError::ConversionFailure),
{
    let i = int_of_row(row)?;
    if i >= 0 && (i as u64) <= (usize::MAX as u64) {
        Ok(i as usize)
    } else {
        Err(ConnectorError::ConversionFailure)
    }
}

/// All values of a result set, row after row.
pub open spec fn flat_values(rows: Seq<PrismaRow>) -> Seq<ValueView>
    decreases rows.len(),
{
    if rows.len() == 0 {
        seq![]
    } else {
        flat_values(rows.drop_last()) + values_view(rows.last().values@)
    }
}

/// Every value of an identifier result set converted to an identifier; the first
/// that is none fails the whole.
pub fn ids_of_rows(rows: Vec<PrismaRow>) -> (r: Result<Vec<GraphqlId>, ConnectorError>)
    ensures
        r is Ok <==> forall|i: int| 0 <= i < flat_values(rows@).len() ==> (#[trigger] value_id(flat_values(rows@)[i])) is Some,
        r matches Ok(ids) ==> ids@.len() == flat_values(rows@).len() && forall|i: int|
            0 <= i < ids@.len() ==> value_id(flat_values(rows@)[i]) == Some((#[trigger] ids@[i])@),
        r is Err ==> r matches Err(ConnectorError::ConversionFailure),
{
    let mut ids: Vec<GraphqlId> = Vec::new();
    let mut rest = rows;
    let ghost mut k: int = 0;
    while rest.len() > 0
        invariant
            0 <= k <= rows@.len(),
            rest@ == rows@.skip(k),
            rest@.len() == rows@.len() - k,
            ids@.len() == flat_values(rows@.take(k)).len(),
            forall|i: int|
                0 <= i < ids@.len() ==> value_id(flat_values(rows@.take(k))[i]) == Some(
                    (#[trigger] ids@[i])@,
                ),
        decreases rest.len(),
    {
        let ghost done = flat_values(rows@.take(k));
        let row = rest.remove(0);
        proof {
            assert(row == rows@[k]);
            assert(rest@ =~= rows@.skip(k + 1));
            assert(rows@.take(k + 1).drop_last() =~= rows@.take(k));
            assert(flat_values(rows@.take(k + 1)) == done + values_view(row.values@));
        }
        let mut values = row.values;
        let ghost vs = values_view(values@);
        let ghost mut c: int = 0;
        while values.len() > 0
            invariant
                0 <= c <= vs.len(),
                values_view(values@) == vs.skip(c),
                values@.len() == vs.len() - c,
                0 <= k < rows@.len(),
                rest@ == rows@.skip(k + 1),
                rest@.len() == rows@.len() - k - 1,
                done == flat_values(rows@.take(k)),
                flat_values(rows@.take(k + 1)) == done + vs,
                ids@.len() == done.len() + c,
                forall|i: int| 0 <= i < ids@.len() ==> value_id((done + vs)[i]) == Some((#[trigger] ids@[i])@),
            decreases values.len(),
        {
            let ghost before = values@;
            let v = values.remove(0);
            proof {
                assert(values_view(before)[0] == before[0]@);
                assert(vs.skip(c)[0] == vs[c]);
                assert(v@ == vs[c]);
                assert forall|j: int| 0 <= j < values@.len() implies #[trigger] values_view(values@)[j]
                    == vs.skip(c + 1)[j] by {
                    assert(values@[j] == before[j + 1]);
                    assert(values_view(before)[j + 1] == before[j + 1]@);
                    assert(vs.skip(c)[j + 1] == vs.skip(c + 1)[j]);
                }
                assert(values_view(values@) =~= vs.skip(c + 1));
                assert((done + vs)[done.len() + c] == vs[c]);
            }
            match id_of_value(v) {
                Ok(id) => ids.push(id),
                Err(e) => {
                    proof {
                        let at = done.len() + c;
                        lemma_flat_prefix(rows@, k + 1);
                        assert(flat_values(rows@)[at] == (done + vs)[at]);
                    }
                    return Err(e);
                },
            }
            proof {
                c = c + 1;
            }
        }
        proof {
            k = k + 1;
        }
    }
    proof {
        assert(rows@.take(k) =~= rows@);
        assert forall|i: int| 0 <= i < flat_values(rows@).len() implies (#[trigger] value_id(flat_values(rows@)[i])) is Some by {
            assert(value_id(flat_values(rows@)[i]) == Some(ids@[i]@));
        }
    }
    Ok(ids)
}

/// The values of a prefix of a result set come first among all its values.
proof fn lemma_flat_prefix(rows: Seq<PrismaRow>, k: int)
    requires
        0 <= k <= rows.len(),
    ensures
        flat_values(rows.take(k)).len() <= flat_values(rows).len(),
        forall|i: int|
            0 <= i < flat_values(rows.take(k)).len() ==> #[trigger] flat_values(rows.take(k))[i]
                == flat_values(rows)[i],
    decreases rows.len(),
{
    if k < rows.len() {
        let front = rows.drop_last();
        lemma_flat_prefix(front, k);
        assert(front.take(k) =~= rows.take(k));
    } else {
        assert(rows.take(k) =~= rows);
    }
}

/// The first identifier found for a unique key, or `NodeNotFoundForWhere`
/// describing the key that was searched.
pub fn first_id(ids: Vec<GraphqlId>, selector: NodeSelectorInfo) -> (r: Result<GraphqlId, ConnectorError>)
    ensures
        r is Ok <==> ids@.len() > 0,
        r matches Ok(id) ==> id == ids@[0],
        ids@.len() == 0 ==> r == Err::<GraphqlId, ConnectorError>(
            ConnectorError::NodeNotFoundForWhere(selector),
        ),
{
    let mut ids = ids;
    if ids.len() == 0 {
        Err(ConnectorError::NodeNotFoundForWhere(selector))
    } else {
        Ok(ids.remove(0))
    }
}

/// The first child identifier reached from a parent across a relation, or
/// `NodesNotConnected` naming the relation, the parent model and the child
/// model, with the child-side selector where there was one.
pub fn first_connected_id(
    ids: Vec<GraphqlId>,
    relation_name: String,
    parent_name: String,
    child_name: String,
    child_where: Option<NodeSelectorInfo>,
) -> (r: Result<GraphqlId, ConnectorError>)
    ensures
        r is Ok <==> ids@.len() > 0,
        r matches Ok(id) ==> id == ids@[0],
        ids@.len() == 0 ==> r == Err::<GraphqlId, ConnectorError>(
            ConnectorError::NodesNotConnected {
                relation_name,
                parent_name,
                parent_where: None,
                child_name,
                child_where,
            },
        ),
{
    let mut ids = ids;
    if ids.len() == 0 {
        Err(
            ConnectorError::NodesNotConnected {
                relation_name,
                parent_name,
                parent_where: None,
                child_name,
                child_where,
            },
        )
    } else {
        Ok(ids.remove(0))
    }
}

/// Whether an error says that a lookup matched no row.
pub open spec fn is_not_found(e: ConnectorError) -> bool {
    e is NodeDoesNotExist || e is NodeNotFoundForWhere
}

/// The outcome of a point lookup: a found row becomes a record with the
/// requested field names, "not found" becomes an absent result, and any other
/// error is passed on.
pub fn lookup_result(found: Result<PrismaRow, ConnectorError>, field_names: Vec<String>) -> (r: Result<Option<SingleNode>, ConnectorError>)
    ensures
        found matches Ok(row) ==> (r matches Ok(Some(n)) && n.node.values@ == row.values@
            && n.node.parent_id is None && n.field_names@ == field_names@),
        found matches Err(e) ==> if is_not_found(e) {
            r matches Ok(None)
        } else {
            r == Err::<Option<SingleNode>, ConnectorError>(e)
        },
{
    match found {
        Ok(row) => Ok(Some(SingleNode { node: Node::from_row(row), field_names })),
        Err(ConnectorError::NodeDoesNotExist) => Ok(None),
        Err(ConnectorError::NodeNotFoundForWhere(_)) => Ok(None),
        Err(e) => Err(e),
    }
}

/// A point lookup over the raw rows that its query returned: decodes them,
/// keeps the first and translates "not found" into an absent result.
pub fn point_lookup(raw: Vec<Vec<RawValue>>, tags: &[TypeIdentifier], field_names: Vec<String>) -> (r: Result<Option<SingleNode>, ConnectorError>)
    ensures
        r is Ok <==> forall|i: int|
            0 <= i < raw@.len() ==> row_decodes(raws_view((#[trigger] raw@[i])@), tags@),
        r is Err ==> r matches Err(ConnectorError::ColumnCountMismatch { .. }) || r matches Err(
            ConnectorError::ColumnDecode { .. },
        ),
        raw@.len() == 0 ==> r matches Ok(None),
        r matches Ok(Some(n)) ==> {
            &&& raw@.len() > 0
            &&& n.field_names@ == field_names@
            &&& n.node.values@.len() == raw@[0]@.len()
            &&& forall|c: int|
                0 <= c < raw@[0]@.len() ==> decode_spec(raw@[0]@[c]@, tags@[c]) == Some(
                    (#[trigger] n.node.values@[c])@,
                )
        },
        raw@.len() > 0 && (forall|i: int| 0 <= i < raw@.len() ==> row_decodes(raws_view((#[trigger] raw@[i])@), tags@))
            ==> r matches Ok(Some(_)),
{
    let found = match decode_rows(raw, tags) {
        Ok(rows) => first_row(rows),
        Err(e) => Err(e),
    };
    lookup_result(found, field_names)
}

} // verus!
