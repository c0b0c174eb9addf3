//! The world model: a closed set of location identifiers, a location
//! graph whose edges carry a direction label, and the in-game clock.

use vstd::prelude::*;

use crate::clock::MyTime;
use crate::command::Cmd;
use crate::table::LocTable;
use crate::table::table_contents;

verus! {

/// The finite identifier set naming rooms in the world graph.
#[derive(Debug, Copy, Clone, PartialEq, Eq, Structural)]
pub enum LocKey {
    Hallway,
    Passageway,
}

/// The integer key under which a location is stored in the location table.
pub open spec fn loc_id_spec(k: LocKey) -> u64 {
    match k {
        LocKey::Hallway => 0,
        LocKey::Passageway => 1,
    }
}

/// Executable form of [`loc_id_spec`].
#[verifier::when_used_as_spec(loc_id_spec)]
pub fn loc_id(k: LocKey) -> (r: u64)
    ensures
        r == loc_id_spec(k),
{
    match k {
        LocKey::Hallway => 0,
        LocKey::Passageway => 1,
    }
}

/// A directed, labeled edge of the location graph: where it leads, a
/// human-readable description, and the direction token that movement
/// commands are resolved against.
pub struct Connection {
    pub destination: LocKey,
    pub description: String,
    pub direction: String,
}

impl Connection {
    pub fn new(destination: LocKey, description: String, direction: String) -> (r: Connection)
        ensures
            r.destination == destination,
            r.description == description,
            r.direction == direction,
    {
        Connection { destination, description, direction }
    }
}

/// A room: the ordered sequence of connections leaving it.
pub struct Location {
    pub connections: Vec<Connection>,
}

impl Location {
    pub fn new(connections: Vec<Connection>) -> (r: Location)
        ensures
            r.connections == connections,
    {
        Location { connections }
    }
}

/// The world state: the clock, the location graph, and where the player
/// stands. The graph is fixed at construction.
pub struct World {
    pub my_time: MyTime,
    pub locations: LocTable,
    pub at: LocKey,
}

impl World {
    /// The named location is present in the graph.
    pub open spec fn has_loc(self, k: LocKey) -> bool {
        table_contents(self.locations).contains_key(loc_id_spec(k))
    }

    /// The connections leaving the named location.
    pub open spec fn conns_at(self, k: LocKey) -> Seq<Connection> {
        table_contents(self.locations)[loc_id_spec(k)].connections@
    }

    /// The world invariant: the clock is normalized, the player stands
    /// at a location of the graph, and every connection leads to a
    /// location of the graph.
    pub open spec fn wf(self) -> bool {
        &&& self.my_time.wf()
        &&& self.has_loc(self.at)
        &&& forall|k: u64, c: int|
            #![trigger table_contents(self.locations)[k].connections@[c]]
            table_contents(self.locations).contains_key(k) && 0 <= c < table_contents(
                self.locations,
            )[k].connections@.len() ==> table_contents(self.locations).contains_key(
                loc_id_spec(table_contents(self.locations)[k].connections@[c].destination),
            )
    }

    /// Build the fixed start world: two rooms joined north and south,
    /// with the clock at 16:10 and the player in the hallway.
    pub fn new() -> (r: World)
        ensures
            r.wf(),
            r.at == LocKey::Hallway,
            r.my_time.hrs == 16,
            r.my_time.mins == 10,
            r.has_loc(LocKey::Hallway),
            r.has_loc(LocKey::Passageway),
            table_contents(r.locations).dom() =~= set![
                loc_id_spec(LocKey::Hallway),
                loc_id_spec(LocKey::Passageway),
            ],
            r.conns_at(LocKey::Hallway).len() == 1,
            r.conns_at(LocKey::Hallway)[0].destination == LocKey::Passageway,
            r.conns_at(LocKey::Hallway)[0].direction@ == "north"@,
            r.conns_at(LocKey::Hallway)[0].description@ == "a large doorway"@,
            r.conns_at(LocKey::Passageway).len() == 1,
            r.conns_at(LocKey::Passageway)[0].destination == LocKey::Hallway,
            r.conns_at(LocKey::Passageway)[0].direction@ == "south"@,
            r.conns_at(LocKey::Passageway)[0].description@ == "a wooden archway"@,
    {
        let mut hall_conns: Vec<Connection> = Vec::new();
        hall_conns.push(
            Connection::new(LocKey::Passageway, "a large doorway".to_owned(), "north".to_owned()),
        );
        let mut pass_conns: Vec<Connection> = Vec::new();
        pass_conns.push(
            Connection::new(LocKey::Hallway, "a wooden archway".to_owned(), "south".to_owned()),
        );
        let mut locations = LocTable::empty();
        locations.insert(loc_id(LocKey::Hallway), Location::new(hall_conns));
        locations.insert(loc_id(LocKey::Passageway), Location::new(pass_conns));
        World { my_time: MyTime::new(16, 10), locations, at: LocKey::Hallway }
    }

    /// Whether the named location is present, observably.
    pub fn has_location(&self, k: LocKey) -> (r: bool)
        ensures
            r == self.has_loc(k),
    {
        match self.locations.get(loc_id(k)) {
            Some(_) => true,
            None => false,
        }
    }

    /// The connections leaving the player's current location, or
    /// nothing when the current location is missing from the graph
    /// (a construction fault the caller must treat as fatal).
    pub fn connections_here(&self) -> (r: Option<&Vec<Connection>>)
        ensures
            match r {
                Some(v) => self.has_loc(self.at) && v@ == self.conns_at(self.at),
                None => !self.has_loc(self.at),
            },
    {
        match self.locations.get(loc_id(self.at)) {
            Some(l) => Some(&l.connections),
            None => None,
        }
    }

    /// One executor step: apply a parsed command to the world. Travel
    /// advances the clock by 5 minutes and moves the player; waiting
    /// advances it by 15; checking the time and exiting change nothing.
    /// Returns whether the command ends the session.
    pub fn apply(&mut self, cmd: &Cmd) -> (quit: bool)
        requires
            old(self).wf(),
            old(self).my_time.hrs < u32::MAX,
            match *cmd {
                Cmd::GoTo(d) => old(self).has_loc(d),
                _ => true,
            },
        ensures
            final(self).wf(),
            quit == (*cmd matches Cmd::Exit),
            final(self).locations == old(self).locations,
            match *cmd {
                Cmd::GoTo(d) => final(self).at == d && final(self).my_time.total_mins() == old(
                    self,
                ).my_time.total_mins() + 5,
                Cmd::Exit => *final(self) == *old(self),
                Cmd::CheckTime => *final(self) == *old(self),
                Cmd::Wait => final(self).at == old(self).at && final(self).my_time.total_mins()
                    == old(self).my_time.total_mins() + 15,
            },
    {
        match cmd {
            Cmd::GoTo(dest) => {
                self.my_time.progress(5);
                self.at = *dest;
                false
            },
            Cmd::Exit => true,
            Cmd::CheckTime => false,
            Cmd::Wait => {
                self.my_time.progress(15);
                false
            },
        }
    }
}

} // verus!
