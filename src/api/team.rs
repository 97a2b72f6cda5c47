use crate::api::new_id;
use crate::model::team::Team;
use crate::repository::inmem::Inmem;
use crate::table::lists;
use vstd::prelude::*;

verus! {

/// What a request to create a team carries.
pub struct CreateTeam {
    pub name: String,
}

/// All teams of the store.
pub fn find_all(repo: &Inmem) -> (r: Vec<Team>)
    ensures
        lists(repo@.teams, r@),
{
    repo.get_teams()
}

/// Creates a team with the given name under a fresh id, and returns it.
pub fn create(body: CreateTeam, repo: &mut Inmem) -> (r: Team)
    ensures
        r.id@.len() == 36,
        r.name == body.name,
        final(repo)@ == old(repo)@.put_team(r),
{
    let team = Team { id: new_id(), name: body.name };
    repo.create_team(team.clone());
    team
}

} // verus!
