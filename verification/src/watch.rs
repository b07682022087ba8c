//! Noticing writes by other connections (the command line, say): the app
//! polls the database's `data_version` and tells the interface to reload
//! when it moves.

use vstd::prelude::*;

verus! {

/// The events the interface reloads on.
pub fn change_events() -> (r: Vec<&'static str>)
    ensures
        r@.len() == 4,
        r@[0]@ == "projects:changed"@,
        r@[1]@ == "memos:changed"@,
        r@[2]@ == "schedules:changed"@,
        r@[3]@ == "categories:changed"@,
{
    vec!["projects:changed", "memos:changed", "schedules:changed", "categories:changed"]
}

/// The last `data_version` seen, if any.
pub struct DataVersionWatch {
    pub last: Option<i64>,
}

impl DataVersionWatch {
    /// A watch that has seen nothing.
    pub fn new() -> (r: DataVersionWatch)
        ensures
            r.last is None,
    {
        DataVersionWatch { last: None }
    }

    /// Records a polled version; whether the interface must reload: only
    /// when a version was seen before and this one differs from it. A poll
    /// that read nothing changes nothing.
    pub fn observe(&mut self, version: Option<i64>) -> (changed: bool)
        ensures
            version is None ==> !changed && final(self).last == old(self).last,
            version is Some ==> final(self).last == version,
            changed <==> (version is Some && old(self).last is Some && old(self).last != version),
    {
        match version {
            None => false,
            Some(v) => {
                let changed = match self.last {
                    Some(l) => l != v,
                    None => false,
                };
                self.last = Some(v);
                changed
            },
        }
    }
}

} // verus!
