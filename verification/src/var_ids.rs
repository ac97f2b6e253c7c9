use vstd::prelude::*;

verus! {

/// Why a lookup by id failed: no entry has the id.
#[derive(Clone, Copy, Debug, PartialEq, Eq, Structural)]
pub enum Error {
    UnknownId,
}

/// The entries of `map` at `ids`, in the order of `ids`, each cloned; an id
/// past the end of `map` fails the whole lookup.
pub fn map_ids<T: Clone>(map: &Vec<T>, ids: Vec<usize>) -> (res: Result<Vec<T>, Error>)
    ensures
        match res {
            Ok(vars) => {
                &&& forall|i: int| 0 <= i < ids.len() ==> #[trigger] ids@[i] < map.len()
                &&& vars.len() == ids.len()
                &&& forall|i: int| 0 <= i < ids.len() ==> cloned(map@[ids@[i] as int], #[trigger] vars@[i])
            },
            Err(e) => {
                &&& e == Error::UnknownId
                &&& exists|i: int| 0 <= i < ids.len() && #[trigger] ids@[i] >= map.len()
            },
        },
{
    let mut vars: Vec<T> = Vec::new();
    let mut k: usize = 0;
    while k < ids.len()
        invariant
            k <= ids.len(),
            vars.len() == k,
            forall|i: int| 0 <= i < k ==> #[trigger] ids@[i] < map.len(),
            forall|i: int| 0 <= i < k ==> cloned(map@[ids@[i] as int], #[trigger] vars@[i]),
        decreases ids.len() - k,
    {
        let id = ids[k];
        if id >= map.len() {
            assert(ids@[k as int] >= map.len());
            return Err(Error::UnknownId);
        }
        let v = map[id].clone();
        vars.push(v);
        k = k + 1;
    }
    Ok(vars)
}

} // verus!
