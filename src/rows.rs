use vstd::prelude::*;
use itertools::Itertools;
use crate::error::ConnectorError;
use crate::value::{
    decode_spec, decode_value, GraphqlId, IdView, PrismaValue, RawValue, RawView, TypeIdentifier,
    ValueView,
};

verus! {

/// A row decoded against its type tags.
#[derive(Debug)]
pub struct PrismaRow {
    pub values: Vec<PrismaValue>,
}

/// A typed record.
#[derive(Debug)]
pub struct Node {
    pub values: Vec<PrismaValue>,
    pub parent_id: Option<GraphqlId>,
}

/// One record with the field names that produced it.
#[derive(Debug)]
pub struct SingleNode {
    pub node: Node,
    pub field_names: Vec<String>,
}

/// Records sharing one list of field names.
#[derive(Debug)]
pub struct ManyNodes {
    pub nodes: Vec<Node>,
    pub field_names: Vec<String>,
}

/// The values of a list-valued field for one owning record.
#[derive(Debug)]
pub struct ScalarListValues {
    pub node_id: GraphqlId,
    pub values: Vec<PrismaValue>,
}

pub open spec fn values_view(v: Seq<PrismaValue>) -> Seq<ValueView> {
    v.map_values(|x: PrismaValue| x@)
}

pub open spec fn raws_view(v: Seq<RawValue>) -> Seq<RawView> {
    v.map_values(|x: RawValue| x@)
}

pub open spec fn opt_id_view(o: Option<GraphqlId>) -> Option<IdView> {
    match o {
        Some(id) => Some(id@),
        None => None,
    }
}

/// Every column of the row fits its tag.
pub open spec fn row_decodes(raw: Seq<RawView>, tags: Seq<TypeIdentifier>) -> bool {
    &&& raw.len() == tags.len()
    &&& forall|i: int| 0 <= i < raw.len() ==> (#[trigger] decode_spec(raw[i], tags[i])) is Some
}

/// The identifier that a domain value converts to, if any.
pub open spec fn value_id(v: ValueView) -> Option<IdView> {
    match v {
        ValueView::String(s) => Some(IdView::Text(s)),
        ValueView::Int(i) => if i >= 0 { Some(IdView::Int(i as nat)) } else { None },
        ValueView::Id(id) => Some(id),
        ValueView::Uuid(b) => Some(IdView::Uuid(b)),
        _ => None,
    }
}

/// Decodes a raw row positionally against one type tag per column.
pub fn decode_row(raw: &Vec<RawValue>, tags: &[TypeIdentifier]) -> (r: Result<PrismaRow, ConnectorError>)
    ensures
        r is Ok <==> row_decodes(raws_view(raw@), tags@),
        r matches Ok(row) ==> row.values@.len() == raw@.len() && forall|i: int|
            0 <= i < raw@.len() ==> decode_spec(raw@[i]@, tags@[i]) == Some(#[trigger] row.values@[i]@),
        raw@.len() != tags@.len() ==> (r matches Err(
            ConnectorError::ColumnCountMismatch { columns, tags: t },
        ) && columns == raw@.len() && t == tags@.len()),
        r matches Err(ConnectorError::ColumnDecode { column }) ==> {
            &&& raw@.len() == tags@.len()
            &&& column < raw@.len()
            &&& decode_spec(raw@[column as int]@, tags@[column as int]) is None
            &&& forall|j: int| 0 <= j < column ==> (#[trigger] decode_spec(raw@[j]@, tags@[j])) is Some
        },
        r is Err ==> r matches Err(ConnectorError::ColumnCountMismatch { .. }) || r matches Err(
            ConnectorError::ColumnDecode { .. },
        ),
{
    if raw.len() != tags.len() {
        return Err(ConnectorError::ColumnCountMismatch { columns: raw.len(), tags: tags.len() });
    }
    let mut values: Vec<PrismaValue> = Vec::new();
    let mut i: usize = 0;
    while i < raw.len()
        invariant
            raw@.len() == tags@.len(),
            i <= raw@.len(),
            values@.len() == i,
            forall|j: int| 0 <= j < i ==> decode_spec(raw@[j]@, tags@[j]) == Some(#[trigger] values@[j]@),
        decreases raw.len() - i,
    {
        match decode_value(&raw[i], tags[i]) {
            Some(v) => values.push(v),
            None => {
                proof {
                    assert forall|j: int| 0 <= j < i implies (#[trigger] decode_spec(raw@[j]@, tags@[j])) is Some by {
                        assert(decode_spec(raw@[j]@, tags@[j]) == Some(values@[j]@));
                    }
                    assert(raws_view(raw@)[i as int] == raw@[i as int]@);
                }
                return Err(ConnectorError::ColumnDecode { column: i });
            },
        }
        i = i + 1;
    }
    proof {
        assert forall|j: int| 0 <= j < raws_view(raw@).len() implies (#[trigger] decode_spec(raws_view(raw@)[j], tags@[j])) is Some by {
            assert(decode_spec(raw@[j]@, tags@[j]) == Some(values@[j]@));
        }
    }
    Ok(PrismaRow { values })
}

/// Converts a domain value to the identifier it holds.
pub fn id_of_value(v: PrismaValue) -> (r: Result<GraphqlId, ConnectorError>)
    ensures
        r matches Ok(id) ==> value_id(v@) == Some(id@),
        r is Err ==> value_id(v@) is None && r matches Err(ConnectorError::ConversionFailure),
{
    match v {
        PrismaValue::String(s) => Ok(GraphqlId::String(s)),
        PrismaValue::Int(i) => if i >= 0 { Ok(GraphqlId::Int(i as u64)) } else { Err(ConnectorError::ConversionFailure) },
        PrismaValue::GraphqlId(id) => Ok(id),
        PrismaValue::Uuid(b) => Ok(GraphqlId::Uuid(b)),
        _ => Err(ConnectorError::ConversionFailure),
    }
}

/// The columns that remain of a relation-traversal row once the join
/// identifier and the parent identifier are removed from its end.
pub open spec fn stripped_width(n: int) -> int {
    if n >= 2 { n - 2 } else { 0 }
}

impl Node {
    /// A record holding a decoded row's values, with no parent.
    pub fn from_row(row: PrismaRow) -> (r: Node)
        ensures
            r.values@ == row.values@,
            r.parent_id is None,
    {
        Node { values: row.values, parent_id: None }
    }
}

/// Turns a relation-traversal row into a record: the last column is the parent's
/// identifier, the one before it the join identifier; both leave the record.
pub fn strip_relation_row(row: PrismaRow) -> (r: Result<Node, ConnectorError>)
    ensures
        r is Ok <==> row.values@.len() >= 1 && value_id(row.values@.last()@) is Some,
        r matches Ok(node) ==> {
            &&& node.values@ == row.values@.take(stripped_width(row.values@.len() as int))
            &&& opt_id_view(node.parent_id) == value_id(row.values@.last()@)
        },
        row.values@.len() == 0 ==> r matches Err(ConnectorError::MissingColumn),
        row.values@.len() >= 1 && value_id(row.values@.last()@) is None ==> r matches Err(
            ConnectorError::ConversionFailure,
        ),
{
    let ghost full = row.values@;
    let mut values = row.values;
    let parent = match values.pop() {
        Some(p) => p,
        None => return Err(ConnectorError::MissingColumn),
    };
    let _ = values.pop();
    proof {
        if full.len() >= 2 {
            assert(values@ =~= full.take(full.len() - 2));
        } else {
            assert(values@ =~= full.take(0));
        }
    }
    let parent_id = id_of_value(parent)?;
    Ok(Node { values, parent_id: Some(parent_id) })
}

/// Wraps every decoded row into a record; all share one list of field names.
pub fn many_nodes(rows: Vec<PrismaRow>, field_names: Vec<String>) -> (r: ManyNodes)
    ensures
        r.field_names@ == field_names@,
        r.nodes@.len() == rows@.len(),
        forall|i: int|
            0 <= i < rows@.len() ==> (#[trigger] r.nodes@[i]).values@ == rows@[i].values@
                && r.nodes@[i].parent_id is None,
{
    let mut nodes: Vec<Node> = Vec::new();
    let mut rest = rows;
    while rest.len() > 0
        invariant
            nodes@.len() <= rows@.len(),
            rest@ == rows@.skip(nodes@.len() as int),
            forall|i: int|
                0 <= i < nodes@.len() ==> (#[trigger] nodes@[i]).values@ == rows@[i].values@
                    && nodes@[i].parent_id is None,
        decreases rest.len(),
    {
        let ghost k = nodes@.len() as int;
        let row = rest.remove(0);
        proof {
            assert(row == rows@[k]);
            assert(rest@ =~= rows@.skip(k + 1));
        }
        nodes.push(Node::from_row(row));
    }
    ManyNodes { nodes, field_names }
}

/// Wraps every relation-traversal row into a record annotated with its parent;
/// the first row that cannot be stripped fails the whole.
pub fn related_nodes(rows: Vec<PrismaRow>, field_names: Vec<String>) -> (r: Result<ManyNodes, ConnectorError>)
    ensures
        r is Ok <==> forall|i: int|
            0 <= i < rows@.len() ==> (#[trigger] rows@[i]).values@.len() >= 1 && value_id(
                rows@[i].values@.last()@,
            ) is Some,
        r matches Ok(m) ==> {
            &&& m.field_names@ == field_names@
            &&& m.nodes@.len() == rows@.len()
            &&& forall|i: int|
                0 <= i < rows@.len() ==> {
                    &&& (#[trigger] m.nodes@[i]).values@ == rows@[i].values@.take(
                        stripped_width(rows@[i].values@.len() as int),
                    )
                    &&& opt_id_view(m.nodes@[i].parent_id) == value_id(rows@[i].values@.last()@)
                }
        },
{
    let mut nodes: Vec<Node> = Vec::new();
    let mut rest = rows;
    while rest.len() > 0
        invariant
            nodes@.len() <= rows@.len(),
            rest@ == rows@.skip(nodes@.len() as int),
            forall|i: int|
                0 <= i < nodes@.len() ==> {
                    &&& (#[trigger] rows@[i]).values@.len() >= 1
                    &&& value_id(rows@[i].values@.last()@) is Some
                    &&& nodes@[i].values@ == rows@[i].values@.take(
                        stripped_width(rows@[i].values@.len() as int),
                    )
                    &&& opt_id_view(nodes@[i].parent_id) == value_id(rows@[i].values@.last()@)
                },
        decreases rest.len(),
    {
        let ghost k = nodes@.len() as int;
        let row = rest.remove(0);
        proof {
            assert(row == rows@[k]);
            assert(rest@ =~= rows@.skip(k + 1));
        }
        match strip_relation_row(row) {
            Ok(node) => nodes.push(node),
            Err(e) => {
                proof {
                    assert(!(rows@[k].values@.len() >= 1 && value_id(rows@[k].values@.last()@) is Some));
                }
                return Err(e);
            },
        }
    }
    Ok(ManyNodes { nodes, field_names })
}

pub open spec fn owners(pairs: Seq<(GraphqlId, PrismaValue)>) -> Seq<IdView> {
    pairs.map_values(|p: (GraphqlId, PrismaValue)| p.0@)
}

pub open spec fn pairs_view(pairs: Seq<(GraphqlId, PrismaValue)>) -> Seq<(IdView, ValueView)> {
    pairs.map_values(|p: (GraphqlId, PrismaValue)| (p.0@, p.1@))
}

pub open spec fn lists_view(r: Seq<ScalarListValues>) -> Seq<(IdView, Seq<ValueView>)> {
    r.map_values(|l: ScalarListValues| (l.node_id@, values_view(l.values@)))
}

/// Positions of the runs of equal consecutive keys, in order.
pub open spec fn index_runs(keys: Seq<IdView>) -> Seq<Seq<int>>
    decreases keys.len(),
{
    if keys.len() == 0 {
        seq![]
    } else {
        let n = keys.len() - 1;
        let rest = index_runs(keys.take(n));
        if n > 0 && keys[n - 1] == keys[n] {
            rest.update(rest.len() - 1, rest.last().push(n))
        } else {
            rest.push(seq![n])
        }
    }
}

/// Owner/value pairs collapsed into runs of equal consecutive owners, in order.
/// Two runs of one owner with another owner between them stay two groups.
pub open spec fn contiguous_groups(pairs: Seq<(IdView, ValueView)>) -> Seq<(IdView, Seq<ValueView>)>
    decreases pairs.len(),
{
    if pairs.len() == 0 {
        seq![]
    } else {
        let n = pairs.len() - 1;
        let rest = contiguous_groups(pairs.take(n));
        if n > 0 && pairs[n - 1].0 == pairs[n].0 {
            rest.update(rest.len() - 1, (pairs[n].0, rest.last().1.push(pairs[n].1)))
        } else {
            rest.push((pairs[n].0, seq![pairs[n].1]))
        }
    }
}

/// Relies on itertools::Itertools::group_by, which puts consecutive elements
/// with equal keys into one group and hands the groups out in order. The keys
/// are owners, compared by `GraphqlId`'s verified `==`, which is equality of views.
#[verifier::external_body]
fn runs_by_owner(pairs: &Vec<(GraphqlId, PrismaValue)>) -> (r: Vec<Vec<usize>>)
    ensures
        r@.len() == index_runs(owners(pairs@)).len(),
        forall|k: int|
            0 <= k < r@.len() ==> (#[trigger] r@[k])@.len() == index_runs(owners(pairs@))[k].len()
                && forall|j: int|
                0 <= j < r@[k]@.len() ==> r@[k]@[j] as int == index_runs(owners(pairs@))[k][j],
{
    let groups = pairs.iter().enumerate().group_by(|p| &(p.1).0);
    let r: Vec<Vec<usize>> = (&groups).into_iter().map(|(_, g)| g.map(|p| p.0).collect()).collect();
    r
}

/// How the runs of positions relate to the groups of values.
proof fn lemma_runs_match(pairs: Seq<(IdView, ValueView)>)
    ensures
        ({
            let keys = pairs.map_values(|p: (IdView, ValueView)| p.0);
            let runs = index_runs(keys);
            let groups = contiguous_groups(pairs);
            &&& runs.len() == groups.len()
            &&& pairs.len() > 0 ==> runs.len() > 0 && runs.last().len() > 0
                && runs.last().last() == pairs.len() - 1
            &&& forall|k: int|
                0 <= k < runs.len() ==> {
                    &&& (#[trigger] runs[k]).len() > 0
                    &&& groups[k].1.len() == runs[k].len()
                    &&& forall|j: int|
                        0 <= j < runs[k].len() ==> {
                            &&& 0 <= #[trigger] runs[k][j] < pairs.len()
                            &&& groups[k].1[j] == pairs[runs[k][j]].1
                            &&& groups[k].0 == pairs[runs[k][j]].0
                        }
                }
        }),
    decreases pairs.len(),
{
    let keys = pairs.map_values(|p: (IdView, ValueView)| p.0);
    if pairs.len() > 0 {
        let n = pairs.len() - 1;
        let front = pairs.take(n);
        lemma_runs_match(front);
        assert(keys.take(n) =~= front.map_values(|p: (IdView, ValueView)| p.0));
        let runs = index_runs(keys);
        let groups = contiguous_groups(pairs);
        let rest_runs = index_runs(keys.take(n));
        let rest_groups = contiguous_groups(front);
        if n > 0 && pairs[n - 1].0 == pairs[n].0 {
            assert(keys[n - 1] == keys[n]);
            let k = rest_runs.len() - 1;
            assert(runs[k] == rest_runs[k].push(n));
            assert forall|j: int| 0 <= j < runs[k].len() implies {
                &&& 0 <= #[trigger] runs[k][j] < pairs.len()
                &&& groups[k].1[j] == pairs[runs[k][j]].1
                &&& groups[k].0 == pairs[runs[k][j]].0
            } by {
                if j < rest_runs[k].len() {
                    assert(front[rest_runs[k][j]] == pairs[rest_runs[k][j]]);
                    assert(front[rest_runs[k].last()] == pairs[n - 1]);
                }
            }
        } else {
            assert(!(n > 0 && keys[n - 1] == keys[n]));
        }
    }
}

/// Groups owner/value pairs into the values of each owner by collapsing runs
/// of equal consecutive owners; it does not merge runs that other owners part.
pub fn group_scalar_list(pairs: Vec<(GraphqlId, PrismaValue)>) -> (r: Vec<ScalarListValues>)
    ensures
        lists_view(r@) == contiguous_groups(pairs_view(pairs@)),
{
    let runs = runs_by_owner(&pairs);
    let ghost pv = pairs_view(pairs@);
    let ghost groups = contiguous_groups(pv);
    proof {
        lemma_runs_match(pv);
        assert(pv.map_values(|p: (IdView, ValueView)| p.0) =~= owners(pairs@));
    }
    let mut out: Vec<ScalarListValues> = Vec::new();
    let mut k: usize = 0;
    while k < runs.len()
        invariant
            k <= runs@.len(),
            runs@.len() == groups.len(),
            pv == pairs_view(pairs@),
            groups == contiguous_groups(pv),
            out@.len() == k,
            forall|m: int| 0 <= m < k ==> lists_view(out@)[m] == groups[m],
            forall|m: int|
                0 <= m < runs@.len() ==> (#[trigger] runs@[m])@.len() == groups[m].1.len()
                    && runs@[m]@.len() > 0 && forall|j: int|
                    0 <= j < runs@[m]@.len() ==> {
                        &&& (#[trigger] runs@[m]@[j]) < pairs@.len()
                        &&& groups[m].1[j] == pv[runs@[m]@[j] as int].1
                        &&& groups[m].0 == pv[runs@[m]@[j] as int].0
                    },
        decreases runs.len() - k,
    {
        let run = &runs[k];
        let first = run[0];
        let node_id = pairs[first].0.duplicate();
        let mut values: Vec<PrismaValue> = Vec::new();
        let mut j: usize = 0;
        while j < run.len()
            invariant
                run@ == runs@[k as int]@,
                j <= run@.len(),
                values@.len() == j,
                forall|i: int| 0 <= i < j ==> (#[trigger] values@[i])@ == groups[k as int].1[i],
                forall|i: int|
                    0 <= i < run@.len() ==> {
                        &&& (#[trigger] run@[i]) < pairs@.len()
                        &&& groups[k as int].1[i] == pv[run@[i] as int].1
                    },
                pv == pairs_view(pairs@),
            decreases run.len() - j,
        {
            let at = run[j];
            values.push(pairs[at].1.duplicate());
            j = j + 1;
        }
        proof {
            assert(values_view(values@) =~= groups[k as int].1);
        }
        out.push(ScalarListValues { node_id, values });
        proof {
            assert(lists_view(out@)[k as int] == groups[k as int]);
        }
        k = k + 1;
    }
    assert(lists_view(out@) =~= groups);
    out
}

/// A row of a list-valued field's query holds the owner's identifier first and
/// the value second.
pub open spec fn pair_row_fits(row: PrismaRow) -> bool {
    &&& row.values@.len() >= 2
    &&& row.values@[0]@ is Id
}

/// Turns the rows of a list-valued field's query into owner/value pairs, in
/// order: the first column gives the owner, the second the value. A row with
/// fewer than two columns fails with `MissingColumn`, one whose first column is
/// no identifier with `ConversionFailure`; the first such row decides.
pub fn scalar_list_pairs(rows: Vec<PrismaRow>) -> (r: Result<Vec<(GraphqlId, PrismaValue)>, ConnectorError>)
    ensures
        r is Ok <==> forall|i: int| 0 <= i < rows@.len() ==> pair_row_fits(#[trigger] rows@[i]),
        r matches Ok(pairs) ==> {
            &&& pairs@.len() == rows@.len()
            &&& forall|i: int|
                0 <= i < rows@.len() ==> rows@[i].values@[0]@ == ValueView::Id((#[trigger] pairs@[i]).0@)
                    && pairs@[i].1@ == rows@[i].values@[1]@
        },
        r is Err ==> exists|i: int|
            0 <= i < rows@.len() && !pair_row_fits(#[trigger] rows@[i]) && (forall|j: int|
                0 <= j < i ==> pair_row_fits(#[trigger] rows@[j])) && (if rows@[i].values@.len() < 2 {
                r matches Err(ConnectorError::MissingColumn)
            } else {
                r matches Err(ConnectorError::ConversionFailure)
            }),
{
    let mut pairs: Vec<(GraphqlId, PrismaValue)> = Vec::new();
    let mut rest = rows;
    while rest.len() > 0
        invariant
            pairs@.len() <= rows@.len(),
            rest@ == rows@.skip(pairs@.len() as int),
            forall|i: int| 0 <= i < pairs@.len() ==> pair_row_fits(#[trigger] rows@[i]),
            forall|i: int|
                0 <= i < pairs@.len() ==> rows@[i].values@[0]@ == ValueView::Id((#[trigger] pairs@[i]).0@)
                    && pairs@[i].1@ == rows@[i].values@[1]@,
        decreases rest.len(),
    {
        let ghost k = pairs@.len() as int;
        let row = rest.remove(0);
        proof {
            assert(row == rows@[k]);
            assert(rest@ =~= rows@.skip(k + 1));
        }
        let ghost full = row.values@;
        if row.values.len() < 2 {
            return Err(ConnectorError::MissingColumn);
        }
        let mut values = row.values;
        let value = values.remove(1);
        let owner = values.remove(0);
        match owner {
            PrismaValue::GraphqlId(id) => {
                pairs.push((id, value));
            },
            _ => {
                return Err(ConnectorError::ConversionFailure);
            },
        }
    }
    Ok(pairs)
}

} // verus!
