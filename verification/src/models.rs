//! Stacks and the requests that create and change them.
use vstd::prelude::*;

use crate::convert::{opt_view, owned};
use crate::text::{chars_of, trim, trim_chars};

verus! {

/// A managed compose stack.
pub struct Stack {
    pub id: String,
    pub name: String,
    pub description: Option<String>,
    pub compose: String,
    pub status: String,
    pub path: String,
    pub created_at: String,
    pub updated_at: String,
}

/// A stack as a database row holds it.
pub struct StackRow {
    pub id: String,
    pub name: String,
    pub description: Option<String>,
    pub compose: String,
    pub status: String,
    pub path: String,
    pub created_at: String,
    pub updated_at: String,
}

impl From<StackRow> for Stack {
    fn from(row: StackRow) -> (r: Stack) {
        Stack {
            id: row.id,
            name: row.name,
            description: row.description,
            compose: row.compose,
            status: row.status,
            path: row.path,
            created_at: row.created_at,
            updated_at: row.updated_at,
        }
    }
}

impl vstd::std_specs::convert::FromSpecImpl<StackRow> for Stack {
    open spec fn obeys_from_spec() -> bool {
        true
    }

    open spec fn from_spec(row: StackRow) -> Stack {
        Stack {
            id: row.id,
            name: row.name,
            description: row.description,
            compose: row.compose,
            status: row.status,
            path: row.path,
            created_at: row.created_at,
            updated_at: row.updated_at,
        }
    }
}

/// How many stacks there are, and how many run or are stopped.
pub struct DashboardStatus {
    pub total_stacks: u64,
    pub running_stacks: u64,
    pub stopped_stacks: u64,
}

/// A request to create a stack.
pub struct CreateStackRequest {
    pub name: String,
    pub description: Option<String>,
    pub compose: Option<String>,
}

/// A request to change a stack; absent fields stay as they are.
pub struct UpdateStackRequest {
    pub name: Option<String>,
    pub description: Option<String>,
    pub compose: Option<String>,
}

/// Number of stacks whose status is `status`.
pub open spec fn count_status(statuses: Seq<Seq<char>>, status: Seq<char>) -> nat
    decreases statuses.len(),
{
    if statuses.len() == 0 {
        0
    } else {
        count_status(statuses.drop_last(), status) + if statuses.last() == status {
            1nat
        } else {
            0nat
        }
    }
}

/// The statuses of a list of stacks.
pub open spec fn statuses_of(stacks: Seq<Stack>) -> Seq<Seq<char>> {
    stacks.map_values(|s: Stack| s.status@)
}

impl DashboardStatus {
    /// Counts the stacks, the running ones and the stopped ones.
    pub fn from_stacks(stacks: &Vec<Stack>) -> (r: DashboardStatus)
        ensures
            r.total_stacks == stacks@.len(),
            r.running_stacks == count_status(statuses_of(stacks@), "running"@),
            r.stopped_stacks == count_status(statuses_of(stacks@), "stopped"@),
    {
        let ghost sv = statuses_of(stacks@);
        let mut running: u64 = 0;
        let mut stopped: u64 = 0;
        let mut j: usize = 0;
        assert(sv.take(0) =~= Seq::<Seq<char>>::empty());
        while j < stacks.len()
            invariant
                j <= stacks@.len(),
                sv == statuses_of(stacks@),
                running == count_status(sv.take(j as int), "running"@),
                stopped == count_status(sv.take(j as int), "stopped"@),
                running <= j,
                stopped <= j,
            decreases stacks@.len() - j,
        {
            let c = chars_of(stacks[j].status.as_str());
            proof {
                assert(sv.take(j + 1).drop_last() =~= sv.take(j as int));
                assert(sv.take(j + 1).last() == stacks@[j as int].status@);
            }
            if crate::text::eq_str(c.as_slice(), "running") {
                running = running + 1;
            }
            if crate::text::eq_str(c.as_slice(), "stopped") {
                stopped = stopped + 1;
            }
            j = j + 1;
        }
        assert(sv.take(j as int) =~= sv);
        DashboardStatus {
            total_stacks: stacks.len() as u64,
            running_stacks: running,
            stopped_stacks: stopped,
        }
    }
}

/// The default compose text of a new stack.
pub open spec fn default_compose() -> Seq<char> {
    "version: \"3\""@
}

/// What a create request stores, or why it is refused: a name that is
/// blank once trimmed is refused; a missing compose text is the default.
pub open spec fn create_plan(name: Seq<char>, compose: Option<Seq<char>>) -> Result<
    Seq<char>,
    Seq<char>,
> {
    if trim(name).len() == 0 {
        Err("Name is required"@)
    } else {
        Ok(
            match compose {
                Some(c) => c,
                None => default_compose(),
            },
        )
    }
}

/// The compose text a create request stores, or the error for it.
pub fn plan_create(req: &CreateStackRequest) -> (r: Result<String, String>)
    ensures
        match r {
            Ok(c) => create_plan(req.name@, opt_view(req.compose)) == Ok::<
                Seq<char>,
                Seq<char>,
            >(c@),
            Err(e) => create_plan(req.name@, opt_view(req.compose)) == Err::<
                Seq<char>,
                Seq<char>,
            >(e@),
        },
{
    let n = chars_of(req.name.as_str());
    let t = trim_chars(n.as_slice());
    if t.len() == 0 {
        return Err(owned("Name is required"));
    }
    match &req.compose {
        Some(c) => Ok(c.clone()),
        None => Ok(owned("version: \"3\"")),
    }
}

/// The name, description and compose text of a stack after an update
/// request: each field of the request replaces the stored one when given.
pub fn merge_update(existing: &Stack, req: &UpdateStackRequest) -> (r: (
    String,
    Option<String>,
    String,
))
    ensures
        r.0@ == match opt_view(req.name) {
            Some(n) => n,
            None => existing.name@,
        },
        opt_view(r.1) == match opt_view(req.description) {
            Some(d) => Some(d),
            None => opt_view(existing.description),
        },
        r.2@ == match opt_view(req.compose) {
            Some(c) => c,
            None => existing.compose@,
        },
{
    let name = match &req.name {
        Some(n) => n.clone(),
        None => existing.name.clone(),
    };
    let description = match &req.description {
        Some(d) => Some(d.clone()),
        None => match &existing.description {
            Some(d) => Some(d.clone()),
            None => None,
        },
    };
    let compose = match &req.compose {
        Some(c) => c.clone(),
        None => existing.compose.clone(),
    };
    (name, description, compose)
}

// ───── Laws ─────

/// Counting one status never exceeds the number of stacks.
pub proof fn lemma_count_le(statuses: Seq<Seq<char>>, status: Seq<char>)
    ensures
        count_status(statuses, status) <= statuses.len(),
    decreases statuses.len(),
{
    if statuses.len() > 0 {
        lemma_count_le(statuses.drop_last(), status);
    }
}

/// Running and stopped stacks together never outnumber all stacks.
pub proof fn law_dashboard_counts(statuses: Seq<Seq<char>>)
    ensures
        count_status(statuses, "running"@) + count_status(statuses, "stopped"@)
            <= statuses.len(),
    decreases statuses.len(),
{
    reveal_strlit("running");
    reveal_strlit("stopped");
    if statuses.len() > 0 {
        law_dashboard_counts(statuses.drop_last());
        assert("running"@ != "stopped"@) by {
            assert("running"@[0] != "stopped"@[0]);
        }
    }
}

} // verus!
