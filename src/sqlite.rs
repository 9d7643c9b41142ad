use vstd::prelude::*;
use vstd::string::StringExecFns;

verus! {

/// Configuration of the connector: where tenant databases are stored, how many
/// pooled connections may exist, and whether each unit of work detaches its
/// tenant afterwards.
#[derive(Debug)]
pub struct Sqlite {
    pub databases_folder_path: String,
    pub connection_limit: u32,
    pub test_mode: bool,
}

/// One action that a unit of work performs on its connection.
#[derive(Debug)]
pub enum Step {
    /// Attach the database file at `path` under the schema name `alias`.
    Attach { path: String, alias: String },
    /// Turn referential-integrity enforcement on.
    EnableForeignKeys,
    /// Turn referential-integrity enforcement off.
    DisableForeignKeys,
    /// Commit the transaction.
    Commit,
    /// Roll the transaction back.
    Rollback,
    /// Detach the schema named `alias`.
    Detach { alias: String },
}

pub open spec fn names_view(names: Seq<String>) -> Seq<Seq<char>> {
    names.map_values(|n: String| n@)
}

/// Where a tenant's database file lies.
pub open spec fn file_path_spec(folder: Seq<char>, db_name: Seq<char>) -> Seq<char> {
    folder + seq!['/'] + db_name + seq!['.', 'd', 'b']
}

/// The catalog of attached schema names once a tenant is made sure to be attached.
pub open spec fn catalog_after_attach(catalog: Seq<Seq<char>>, name: Seq<char>) -> Seq<Seq<char>> {
    if catalog.contains(name) {
        catalog
    } else {
        catalog.push(name)
    }
}

/// Whether a step list makes the transaction's writes persist.
pub open spec fn commits(steps: Seq<Step>) -> bool {
    exists|i: int| 0 <= i < steps.len() && (#[trigger] steps[i]) is Commit
}

/// The persisted state after a unit of work: its writes where it committed,
/// the state before it otherwise.
pub open spec fn persisted<S>(before: S, written: S, steps: Seq<Step>) -> S {
    if commits(steps) {
        written
    } else {
        before
    }
}

/// The steps that close a unit of work: commit on success, roll back otherwise,
/// then in test mode detach the tenant.
pub open spec fn closing_steps(steps: Seq<Step>, test_mode: bool, db_name: Seq<char>, succeeded: bool) -> bool {
    &&& steps.len() == if test_mode { 2int } else { 1int }
    &&& if succeeded { steps[0] is Commit } else { steps[0] is Rollback }
    &&& test_mode ==> (steps[1] matches Step::Detach { alias } && alias@ == db_name)
}

impl Sqlite {
    /// A connector configuration; the pool it describes is built by its owner.
    pub fn new(databases_folder_path: String, connection_limit: u32, test_mode: bool) -> (r: Sqlite)
        ensures
            r.databases_folder_path@ == databases_folder_path@,
            r.connection_limit == connection_limit,
            r.test_mode == test_mode,
    {
        Sqlite { databases_folder_path, connection_limit, test_mode }
    }

    /// The database file of a tenant.
    pub fn database_file_path(&self, db_name: &str) -> (r: String)
        ensures
            r@ == file_path_spec(self.databases_folder_path@, db_name@),
    {
        let mut path = String::from_str(self.databases_folder_path.as_str());
        path.append("/");
        path.append(db_name);
        path.append(".db");
        proof {
            reveal_strlit("/");
            reveal_strlit(".db");
            assert(path@ =~= file_path_spec(self.databases_folder_path@, db_name@));
        }
        path
    }

    /// The steps that prepare a leased connection for a tenant, given the schema
    /// names its catalog lists: attach the tenant's file under its name where the
    /// name is absent, then turn referential-integrity enforcement on.
    pub fn attach_steps(&self, attached: &Vec<String>, db_name: &str) -> (r: Vec<Step>)
        ensures
            names_view(attached@).contains(db_name@) ==> r@.len() == 1,
            !names_view(attached@).contains(db_name@) ==> {
                &&& r@.len() == 2
                &&& r@[0] matches Step::Attach { path, alias }
                &&& path@ == file_path_spec(self.databases_folder_path@, db_name@)
                &&& alias@ == db_name@
            },
            r@.last() is EnableForeignKeys,
    {
        let name = db_name.to_owned();
        let mut found = false;
        let mut i: usize = 0;
        while i < attached.len()
            invariant
                i <= attached@.len(),
                name@ == db_name@,
                found <==> exists|j: int| 0 <= j < i && (#[trigger] attached@[j])@ == db_name@,
            decreases attached.len() - i,
        {
            if attached[i].eq(&name) {
                found = true;
            }
            i = i + 1;
        }
        proof {
            let names = names_view(attached@);
            if found {
                let j = choose|j: int| 0 <= j < attached@.len() && (#[trigger] attached@[j])@ == db_name@;
                assert(names[j] == db_name@);
            } else if names.contains(db_name@) {
                let j = choose|j: int| 0 <= j < names.len() && names[j] == db_name@;
                assert(attached@[j]@ == db_name@);
            }
        }
        let mut steps: Vec<Step> = Vec::new();
        if !found {
            steps.push(Step::Attach { path: self.database_file_path(db_name), alias: name });
        }
        steps.push(Step::EnableForeignKeys);
        steps
    }

    /// The steps that close a unit of work on a tenant.
    pub fn closing_steps(&self, db_name: &str, succeeded: bool) -> (r: Vec<Step>)
        ensures
            closing_steps(r@, self.test_mode, db_name@, succeeded),
            commits(r@) == succeeded,
    {
        let mut steps: Vec<Step> = Vec::new();
        if succeeded {
            steps.push(Step::Commit);
        } else {
            steps.push(Step::Rollback);
        }
        if self.test_mode {
            steps.push(Step::Detach { alias: db_name.to_owned() });
        }
        proof {
            if !succeeded {
                assert forall|i: int| 0 <= i < steps@.len() implies !((#[trigger] steps@[i]) is Commit) by {}
            } else {
                assert(steps@[0] is Commit);
            }
        }
        steps
    }
}

/// The step that relaxes a transaction for bulk writes: referential-integrity
/// enforcement goes off before the relaxed operation runs.
pub fn relax_foreign_keys() -> (r: Vec<Step>)
    ensures
        r@.len() == 1,
        r@[0] is DisableForeignKeys,
{
    let mut steps: Vec<Step> = Vec::new();
    steps.push(Step::DisableForeignKeys);
    steps
}

/// The steps after a relaxed operation: enforcement comes back on only where
/// the operation succeeded; a failure leaves it as it is.
pub fn restore_foreign_keys(succeeded: bool) -> (r: Vec<Step>)
    ensures
        succeeded ==> r@.len() == 1 && r@[0] is EnableForeignKeys,
        !succeeded ==> r@.len() == 0,
{
    let mut steps: Vec<Step> = Vec::new();
    if succeeded {
        steps.push(Step::EnableForeignKeys);
    }
    steps
}

/// Making sure a tenant is attached twice on one connection attaches it once:
/// the second time finds the name and leaves the catalog as it is, and the name
/// then stands in the catalog.
pub proof fn lemma_attach_idempotent(catalog: Seq<Seq<char>>, name: Seq<char>)
    ensures
        catalog_after_attach(catalog, name).contains(name),
        catalog_after_attach(catalog_after_attach(catalog, name), name) == catalog_after_attach(catalog, name),
        !catalog.contains(name) ==> catalog_after_attach(catalog, name).filter(|n: Seq<char>| n == name).len()
            == 1,
{
    let after = catalog_after_attach(catalog, name);
    let is_name = |n: Seq<char>| n == name;
    if !catalog.contains(name) {
        assert(after[catalog.len() as int] == name);
        assert(catalog.all(|x: Seq<char>| !is_name(x)));
        catalog.lemma_all_neg_filter_empty(is_name);
        assert(after.drop_last() =~= catalog);
        reveal(Seq::filter);
        assert(after.filter(is_name) == catalog.filter(is_name).push(name));
    }
}

/// A unit of work whose operation failed leaves the tenant's persisted state
/// as it was before the unit began, whatever the operation wrote.
pub proof fn lemma_failed_unit_is_atomic<S>(before: S, written: S, steps: Seq<Step>, test_mode: bool, db_name: Seq<char>)
    requires
        closing_steps(steps, test_mode, db_name, false),
    ensures
        persisted(before, written, steps) == before,
{
    if commits(steps) {
        let i = choose|i: int| 0 <= i < steps.len() && (#[trigger] steps[i]) is Commit;
        assert(i == 0 || (test_mode && i == 1));
    }
}

} // verus!
