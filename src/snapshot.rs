use vstd::prelude::*;

verus! {

/// The list of `storages` of an organization.
pub open spec fn storages_url(base_url: Seq<char>, org: Seq<char>) -> Seq<char> {
    "https://"@ + base_url + "/config/v1/orgs/"@ + org + "/storages"@
}

/// The list of `projects` of an organization.
pub open spec fn projects_url(base_url: Seq<char>, org: Seq<char>) -> Seq<char> {
    "https://"@ + base_url + "/config/v1/orgs/"@ + org + "/projects"@
}

/// The address of one project.
pub open spec fn project_url(base_url: Seq<char>, org: Seq<char>, project: Seq<char>) -> Seq<
    char,
> {
    projects_url(base_url, org) + "/"@ + project
}

/// The list of `functions` of a project.
pub open spec fn functions_url(base_url: Seq<char>, org: Seq<char>, project: Seq<char>) -> Seq<
    char,
> {
    project_url(base_url, org, project) + "/functions"@
}

/// The list of `tables` of a project.
pub open spec fn tables_url(base_url: Seq<char>, org: Seq<char>, project: Seq<char>) -> Seq<char> {
    project_url(base_url, org, project) + "/tables"@
}

/// The list of `transforms` of a table.
pub open spec fn transforms_url(
    base_url: Seq<char>,
    org: Seq<char>,
    project: Seq<char>,
    table: Seq<char>,
) -> Seq<char> {
    tables_url(base_url, org, project) + "/"@ + table + "/transforms/"@
}

fn org_prefix(base_url: &str, org: &str) -> (r: String)
    ensures
        r@ == "https://"@ + base_url@ + "/config/v1/orgs/"@ + org@,
{
    proof {
        reveal_strlit("https://");
        reveal_strlit("/config/v1/orgs/");
    }
    let mut u = String::from_str("https://");
    u.append(base_url);
    u.append("/config/v1/orgs/");
    u.append(org);
    assert(u@ =~= "https://"@ + base_url@ + "/config/v1/orgs/"@ + org@);
    u
}

pub fn storages_address(base_url: &str, org: &str) -> (r: String)
    ensures
        r@ == storages_url(base_url@, org@),
{
    proof {
        reveal_strlit("/storages");
    }
    let mut u = org_prefix(base_url, org);
    u.append("/storages");
    assert(u@ =~= storages_url(base_url@, org@));
    u
}

pub fn projects_address(base_url: &str, org: &str) -> (r: String)
    ensures
        r@ == projects_url(base_url@, org@),
{
    proof {
        reveal_strlit("/projects");
    }
    let mut u = org_prefix(base_url, org);
    u.append("/projects");
    assert(u@ =~= projects_url(base_url@, org@));
    u
}

fn project_address(base_url: &str, org: &str, project: &str) -> (r: String)
    ensures
        r@ == project_url(base_url@, org@, project@),
{
    proof {
        reveal_strlit("/");
    }
    let mut u = projects_address(base_url, org);
    u.append("/");
    u.append(project);
    assert(u@ =~= project_url(base_url@, org@, project@));
    u
}

pub fn functions_address(base_url: &str, org: &str, project: &str) -> (r: String)
    ensures
        r@ == functions_url(base_url@, org@, project@),
{
    proof {
        reveal_strlit("/functions");
    }
    let mut u = project_address(base_url, org, project);
    u.append("/functions");
    assert(u@ =~= functions_url(base_url@, org@, project@));
    u
}

pub fn tables_address(base_url: &str, org: &str, project: &str) -> (r: String)
    ensures
        r@ == tables_url(base_url@, org@, project@),
{
    proof {
        reveal_strlit("/tables");
    }
    let mut u = project_address(base_url, org, project);
    u.append("/tables");
    assert(u@ =~= tables_url(base_url@, org@, project@));
    u
}

pub fn transforms_address(base_url: &str, org: &str, project: &str, table: &str) -> (r: String)
    ensures
        r@ == transforms_url(base_url@, org@, project@, table@),
{
    proof {
        reveal_strlit("/");
        reveal_strlit("/transforms/");
    }
    let mut u = tables_address(base_url, org, project);
    u.append("/");
    u.append(table);
    u.append("/transforms/");
    assert(u@ =~= transforms_url(base_url@, org@, project@, table@));
    u
}

/// A child list of the snapshot after `items` are added to it: a list that
/// is absent stays absent where nothing is added, and is otherwise created
/// empty first; the items follow what was there, in order.
pub open spec fn attached<T>(slot: Option<Seq<T>>, items: Seq<T>) -> Option<Seq<T>> {
    if items.len() == 0 {
        slot
    } else {
        match slot {
            Some(s) => Some(s + items),
            None => Some(items),
        }
    }
}

/// Adds `items` to a child list of the snapshot.
pub fn attach<T>(slot: &mut Option<Vec<T>>, items: Vec<T>)
    ensures
        match (*final(slot), attached(
            match *old(slot) {
                Some(v) => Some(v@),
                None => None,
            },
            items@,
        )) {
            (Some(v), Some(s)) => v@ == s,
            (None, None) => true,
            _ => false,
        },
{
    if items.len() == 0 {
        return;
    }
    let mut items = items;
    match slot.take() {
        Some(mut v) => {
            v.append(&mut items);
            *slot = Some(v);
        },
        None => {
            *slot = Some(items);
        },
    }
}

} // verus!
