//! Routes by which a message travels through the trust network.

use vstd::prelude::*;
use crate::error::{Error, ErrorKind};
use crate::types::PersonId;

verus! {

/// The people through whom a message travels, the recipient last, and how
/// far it has come.
#[derive(Clone, Debug)]
pub struct Route {
    /// The people along the route, in order.
    pub nodes: Vec<PersonId>,
    /// Which of them comes next.
    pub current_index: usize,
}

impl Route {
    /// A route through the given people, at its start.
    pub fn new(nodes: Vec<PersonId>) -> (route: Self)
        ensures
            route.nodes == nodes,
            route.current_index == 0,
    {
        Route { nodes, current_index: 0 }
    }

    /// The route that leads straight to the recipient.
    pub fn direct(recipient: PersonId) -> (route: Self)
        ensures
            route.nodes@ == seq![recipient],
            route.current_index == 0,
    {
        let mut nodes: Vec<PersonId> = Vec::new();
        nodes.push(recipient);
        proof {
            assert(nodes@ =~= seq![recipient]);
        }
        Route { nodes, current_index: 0 }
    }

    /// Who comes next, if the route has not run out.
    pub fn next_hop(&self) -> (next: Option<PersonId>)
        ensures
            next == if self.current_index < self.nodes@.len() {
                Some(self.nodes@[self.current_index as int])
            } else {
                None
            },
    {
        if self.current_index < self.nodes.len() {
            Some(self.nodes[self.current_index])
        } else {
            None
        }
    }

    /// Where the route ends, if it leads anywhere.
    pub fn destination(&self) -> (last: Option<PersonId>)
        ensures
            last == if self.nodes@.len() > 0 {
                Some(self.nodes@.last())
            } else {
                None
            },
    {
        if self.nodes.len() > 0 {
            Some(self.nodes[self.nodes.len() - 1])
        } else {
            None
        }
    }

    /// Moves on to the next person. At the last person, or beyond, the route
    /// is exhausted: that is refused as invalid and changes nothing.
    pub fn advance(&mut self) -> (done: Result<(), Error>)
        ensures
            done.is_ok() <==> old(self).current_index + 1 < old(self).nodes@.len(),
            done.is_ok() ==> final(self).current_index == old(self).current_index + 1 && final(self).nodes == old(
                self,
            ).nodes,
            done matches Err(e) ==> e.spec_kind() == ErrorKind::Invalid && *final(self) == *old(self),
    {
        let n = self.nodes.len();
        if self.current_index < n && self.current_index + 1 < n {
            self.current_index += 1;
            Ok(())
        } else {
            Err(Error::Invalid("route exhausted".to_owned()))
        }
    }

    /// Whether the route has come to its last person, or leads nowhere.
    pub fn is_complete(&self) -> (complete: bool)
        ensures
            complete == (self.current_index + 1 >= self.nodes@.len()),
    {
        let n = self.nodes.len();
        n == 0 || self.current_index >= n - 1
    }

    /// The number of hops between the people of the route; none for a route
    /// that leads nowhere.
    pub fn hop_count(&self) -> (hops: usize)
        ensures
            hops == if self.nodes@.len() > 0 {
                self.nodes@.len() - 1
            } else {
                0
            },
    {
        if self.nodes.len() > 0 {
            self.nodes.len() - 1
        } else {
            0
        }
    }

    /// Whether the route leads straight to the recipient.
    pub fn is_direct(&self) -> (direct: bool)
        ensures
            direct == (self.nodes@.len() == 1),
    {
        self.nodes.len() == 1
    }
}

/// Finds routes to a recipient.
#[derive(Clone, Copy, Debug)]
pub struct MessageRouter {}

impl MessageRouter {
    /// A router.
    pub fn new() -> (router: Self) {
        MessageRouter {  }
    }

    /// The route to the recipient: the direct one.
    pub fn find_route(&self, _sender: PersonId, recipient: PersonId) -> (route: Result<Route, Error>)
        ensures
            route matches Ok(r) && r.nodes@ == seq![recipient] && r.current_index == 0,
    {
        Ok(Route::direct(recipient))
    }

    /// The route to the recipient through intermediaries: the direct one,
    /// whatever `max_hops` allows.
    pub fn find_relay_route(&self, _sender: PersonId, recipient: PersonId, _max_hops: usize) -> (route: Result<
        Route,
        Error,
    >)
        ensures
            route matches Ok(r) && r.nodes@ == seq![recipient] && r.current_index == 0,
    {
        Ok(Route::direct(recipient))
    }
}

impl Default for MessageRouter {
    fn default() -> (router: Self) {
        Self::new()
    }
}

} // verus!
