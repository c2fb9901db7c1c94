//! Players and the snapshot of the world.
use vstd::prelude::*;

use crate::game::field;
use crate::game::field::Point;
use crate::game::list;
use crate::game::rect;
use crate::game::rect::Rect;
use crate::game::rect::MAX_DIMENSION;
use crate::gather;
use crate::mem;
use crate::mem::Fetch;
use crate::mem::Image;
use crate::mem::Memory;
use crate::offsets::player;
use crate::offsets::screen;
use crate::offsets::{METHOD_TABLE, MIN_VALID_ADDRESS, PTR_SIZE};

verus! {

/// No session has more players than this.
pub const MAX_PLAYERS: usize = 16;

/// What is remembered of the game between frames.
#[derive(Clone, Copy, Debug, PartialEq, Eq, Structural)]
pub struct Tracker {
    /// Method table of the player class; 0 as long as it is not known.
    pub player_class: usize,
    /// Address of the local player in the last frame, 0 if there was none. Only
    /// a hint: it is checked in full before each use.
    pub last_local: usize,
}

impl Tracker {
    /// Nothing is known yet.
    pub fn new() -> (tracker: Tracker)
        ensures
            tracker == (Tracker { player_class: 0, last_local: 0 }),
    {
        Tracker { player_class: 0, last_local: 0 }
    }
}

/// The fields of one player, taken in one frame.
#[derive(Debug)]
pub struct PlayerView {
    pub addr: usize,
    /// `m_UniqueID`, the key of the user settings.
    pub unique_id: i32,
    pub name: String,
    /// Red, green, blue and alpha.
    pub color: [u8; 4],
    pub position: Point,
    pub rect: Option<Rect>,
    pub is_local: bool,
}

impl Clone for PlayerView {
    fn clone(&self) -> (copy: PlayerView)
        ensures
            copy@ == self@,
    {
        PlayerView {
            addr: self.addr,
            unique_id: self.unique_id,
            name: self.name.clone(),
            color: self.color,
            position: self.position,
            rect: self.rect,
            is_local: self.is_local,
        }
    }
}

/// A player in spec code.
#[verifier::ext_equal]
pub struct PlayerFacts {
    pub addr: usize,
    pub unique_id: i32,
    pub name: Seq<char>,
    pub color: Seq<u8>,
    pub position: Point,
    pub rect: Option<Rect>,
    pub is_local: bool,
}

impl View for PlayerView {
    type V = PlayerFacts;

    open spec fn view(&self) -> PlayerFacts {
        PlayerFacts {
            addr: self.addr,
            unique_id: self.unique_id,
            name: self.name@,
            color: self.color@,
            position: self.position,
            rect: self.rect,
            is_local: self.is_local,
        }
    }
}

/// Players in spec code.
pub open spec fn facts(players: Seq<PlayerView>) -> Seq<PlayerFacts> {
    players.map_values(|p: PlayerView| p@)
}

/// The world in one frame.
#[derive(Debug)]
pub struct World {
    /// Screen of the local player; 0 if it was not found.
    pub screen: usize,
    /// All players, the local ones first.
    pub players: Vec<PlayerView>,
}

impl Default for World {
    /// A world without a screen and without players.
    fn default() -> (world: World)
        ensures
            world@ == (WorldFacts { screen: 0, players: seq![] }),
    {
        let world = World { screen: 0, players: Vec::new() };
        assert(facts(world.players@) =~= seq![]);
        world
    }
}

/// The world in spec code.
#[verifier::ext_equal]
pub struct WorldFacts {
    pub screen: usize,
    pub players: Seq<PlayerFacts>,
}

impl View for World {
    type V = WorldFacts;

    open spec fn view(&self) -> WorldFacts {
        WorldFacts { screen: self.screen, players: facts(self.players@) }
    }
}

/// The method table of the player class, if it is known.
pub fn player_class(tracker: &Tracker) -> (class: Option<usize>)
    ensures
        class == (if tracker.player_class == 0 {
            None::<usize>
        } else {
            Some(tracker.player_class)
        }),
{
    match tracker.player_class {
        0 => None,
        class => Some(class),
    }
}

/// Drops the hints of earlier frames.
pub fn forget_cached_pointers(tracker: &mut Tracker)
    ensures
        *final(tracker) == (Tracker { last_local: 0, ..*old(tracker) }),
{
    tracker.last_local = 0;
}

/// Whether a live object of the class stands at `addr`. As long as the class is
/// not known, nothing counts as a player.
pub open spec fn player_at(image: Image, class: usize, addr: int) -> Fetch<bool> {
    if class == 0 {
        Ok(false)
    } else {
        match image.access(addr, player::PROBE_SIZE as int, false) {
            Err(need) => Err(need),
            Ok(false) => Ok(false),
            Ok(true) => match image.ptr(addr + METHOD_TABLE) {
                Err(need) => Err(need),
                Ok(table) => Ok(table == Some(class)),
            },
        }
    }
}

fn is_player(mem: &Memory, class: usize, addr: usize) -> (r: Fetch<bool>)
    ensures
        r == player_at(mem@, class, addr as int),
{
    if class == 0 {
        return Ok(false);
    }
    match mem::check(mem, addr, player::PROBE_SIZE, false) {
        Err(need) => Err(need),
        Ok(false) => Ok(false),
        Ok(true) => match mem::read_link(mem, addr, METHOD_TABLE) {
            Err(need) => Err(need),
            Ok(None) => Ok(false),
            Ok(Some(table)) => Ok(table == class),
        },
    }
}

/// Whether the player at `addr` is our character.
///
/// In a network session our player has `isLocal` set. Alone, that flag stays
/// clear, but `RemotePlayer` is clear in both modes, and set for all others.
pub open spec fn local_flags(image: Image, addr: int) -> Fetch<bool> {
    match image.byte(addr + player::IS_LOCAL) {
        Err(need) => Err(need),
        Ok(flag) => if flag == Some(1u8) {
            Ok(true)
        } else {
            match image.byte(addr + player::REMOTE_PLAYER) {
                Err(need) => Err(need),
                Ok(remote) => Ok(remote == Some(0u8)),
            }
        },
    }
}

fn is_local(mem: &Memory, addr: usize) -> (r: Fetch<bool>)
    ensures
        r == local_flags(mem@, addr as int),
{
    match mem::read_byte(mem, addr, player::IS_LOCAL) {
        Err(need) => return Err(need),
        Ok(Some(1)) => return Ok(true),
        Ok(_) => {},
    }
    match mem::read_byte(mem, addr, player::REMOTE_PLAYER) {
        Err(need) => Err(need),
        Ok(Some(0)) => Ok(true),
        Ok(_) => Ok(false),
    }
}

/// Whether the object at `addr` has the fields of a player: `isLocal` is a flag,
/// the screen is a readable object, and the frame is plausible.
pub open spec fn player_shape(image: Image, addr: int) -> Fetch<bool> {
    match image.access(addr, player::PROBE_SIZE as int, false) {
        Err(need) => Err(need),
        Ok(false) => Ok(false),
        Ok(true) => match image.byte(addr + player::IS_LOCAL) {
            Err(need) => Err(need),
            Ok(flag) => if flag != Some(0u8) && flag != Some(1u8) {
                Ok(false)
            } else {
                match image.ptr(addr + player::GAMEPLAY_SCREEN) {
                    Err(need) => Err(need),
                    Ok(None) => Ok(false),
                    Ok(Some(at)) => match image.access(at as int, PTR_SIZE as int, false) {
                        Err(need) => Err(need),
                        Ok(false) => Ok(false),
                        Ok(true) => match rect::rect_at(image, addr + player::BOUNDING_RECT) {
                            Err(need) => Err(need),
                            Ok(None) => Ok(false),
                            Ok(Some(frame)) => Ok(frame.plausible(MAX_DIMENSION as int)),
                        },
                    },
                }
            },
        },
    }
}

fn looks_like_player(mem: &Memory, addr: usize) -> (r: Fetch<bool>)
    ensures
        r == player_shape(mem@, addr as int),
{
    match mem::check(mem, addr, player::PROBE_SIZE, false) {
        Err(need) => return Err(need),
        Ok(false) => return Ok(false),
        Ok(true) => {},
    }
    match mem::read_byte(mem, addr, player::IS_LOCAL) {
        Err(need) => return Err(need),
        Ok(Some(0)) => {},
        Ok(Some(1)) => {},
        Ok(_) => return Ok(false),
    }
    let at: usize = match mem::read_link(mem, addr, player::GAMEPLAY_SCREEN) {
        Err(need) => return Err(need),
        Ok(None) => return Ok(false),
        Ok(Some(at)) => at,
    };
    match mem::check(mem, at, PTR_SIZE, false) {
        Err(need) => return Err(need),
        Ok(false) => return Ok(false),
        Ok(true) => {},
    }
    match Rect::read(mem, addr, player::BOUNDING_RECT) {
        Err(need) => Err(need),
        Ok(None) => Ok(false),
        Ok(Some(frame)) => Ok(frame.is_plausible()),
    }
}

/// The elements of the player list whose pointer stands at `addr`.
pub open spec fn listed(image: Image, addr: int) -> Fetch<Seq<usize>> {
    match image.ptr(addr) {
        Err(need) => Err(need),
        Ok(None) => Ok(seq![]),
        Ok(Some(at)) => list::list_at(image, at as int, MAX_PLAYERS as nat),
    }
}

/// The players that any of the three lists of a screen names, in ascending
/// order, each once. Which of the lists are filled depends on the mode.
pub open spec fn lists_of(image: Image, at: int) -> Fetch<Seq<usize>> {
    match listed(image, at + screen::PLAYER_LIST) {
        Err(need) => Err(need),
        Ok(a) => match listed(image, at + screen::REMOTE_PLAYER_LIST) {
            Err(need) => Err(need),
            Ok(b) => match listed(image, at + screen::MERGED_PLAYER_LIST) {
                Err(need) => Err(need),
                Ok(c) => Ok(list::ascending(a + b + c)),
            },
        },
    }
}

fn read_listed(mem: &Memory, at: usize, offset: usize) -> (r: Fetch<Vec<usize>>)
    ensures
        list::addresses_view(r) == listed(mem@, at + offset),
{
    match mem::read_link(mem, at, offset) {
        Err(need) => Err(need),
        Ok(None) => Ok(Vec::new()),
        Ok(Some(list_addr)) => list::read_list(mem, list_addr, MAX_PLAYERS),
    }
}

fn player_lists(mem: &Memory, at: usize) -> (r: Fetch<Vec<usize>>)
    ensures
        list::addresses_view(r) == lists_of(mem@, at as int),
{
    let mut addresses = match read_listed(mem, at, screen::PLAYER_LIST) {
        Err(need) => return Err(need),
        Ok(addresses) => addresses,
    };
    match read_listed(mem, at, screen::REMOTE_PLAYER_LIST) {
        Err(need) => return Err(need),
        Ok(mut more) => addresses.append(&mut more),
    }
    match read_listed(mem, at, screen::MERGED_PLAYER_LIST) {
        Err(need) => return Err(need),
        Ok(mut more) => addresses.append(&mut more),
    }
    Ok(list::sort_unique(&addresses))
}

/// The method table of the object at `addr`, if the object proves to be a
/// player: it has the fields of one, and the lists of its own screen name it.
pub open spec fn proven_class(image: Image, addr: usize) -> Fetch<Option<usize>> {
    match player_shape(image, addr as int) {
        Err(need) => Err(need),
        Ok(false) => Ok(None),
        Ok(true) => match image.ptr(addr + player::GAMEPLAY_SCREEN) {
            Err(need) => Err(need),
            Ok(None) => Ok(None),
            Ok(Some(at)) => match lists_of(image, at as int) {
                Err(need) => Err(need),
                Ok(names) => if !names.contains(addr) {
                    Ok(None)
                } else {
                    match image.ptr(addr + METHOD_TABLE) {
                        Err(need) => Err(need),
                        Ok(table) => Ok(list::valid(table)),
                    }
                },
            },
        },
    }
}

/// Whether a sequence of addresses has one of them.
fn names_address(names: &Vec<usize>, addr: usize) -> (r: bool)
    ensures
        r == names@.contains(addr),
{
    for i in 0..names.len()
        invariant
            forall|j: int| 0 <= j < i ==> names@[j] != addr,
    {
        if names[i] == addr {
            assert(names@[i as int] == addr);
            return true;
        }
    }
    false
}

fn prove_class(mem: &Memory, addr: usize) -> (r: Fetch<Option<usize>>)
    ensures
        r == proven_class(mem@, addr),
{
    match looks_like_player(mem, addr) {
        Err(need) => return Err(need),
        Ok(false) => return Ok(None),
        Ok(true) => {},
    }
    let at: usize = match mem::read_link(mem, addr, player::GAMEPLAY_SCREEN) {
        Err(need) => return Err(need),
        Ok(None) => return Ok(None),
        Ok(Some(at)) => at,
    };
    match player_lists(mem, at) {
        Err(need) => return Err(need),
        Ok(names) => if !names_address(&names, addr) {
            return Ok(None);
        },
    }
    match mem::read_link(mem, addr, METHOD_TABLE) {
        Err(need) => Err(need),
        Ok(None) => Ok(None),
        Ok(Some(class)) => if class >= MIN_VALID_ADDRESS {
            Ok(Some(class))
        } else {
            Ok(None)
        },
    }
}

/// What each object says about the player class.
pub open spec fn proofs(image: Image, objects: Seq<usize>) -> Seq<Fetch<Option<usize>>> {
    objects.map_values(|addr: usize| proven_class(image, addr))
}

/// Determines the player class from the first object that proves itself.
fn bootstrap(mem: &Memory, objects: &[usize]) -> (r: Fetch<Option<usize>>)
    ensures
        r == gather::first_found(proofs(mem@, objects@)),
{
    let ghost fetches = proofs(mem@, objects@);
    assert(fetches.take(0) =~= seq![]);
    for i in 0..objects.len()
        invariant
            fetches == proofs(mem@, objects@),
            gather::first_found(fetches.take(i as int)) == Ok::<Option<usize>, mem::Need>(None),
    {
        proof {
            gather::lemma_found_step(fetches, i as int);
        }
        let found = prove_class(mem, objects[i]);
        if !matches!(found, Ok(None)) {
            proof {
                gather::lemma_found_stops(fetches, i + 1);
            }
            return found;
        }
    }
    assert(fetches.take(objects@.len() as int) =~= fetches);
    Ok(None)
}

/// Whether a player of the class stands at `addr` and is our character.
pub open spec fn own_player(image: Image, class: usize, addr: int) -> Fetch<bool> {
    match player_at(image, class, addr) {
        Err(need) => Err(need),
        Ok(false) => Ok(false),
        Ok(true) => local_flags(image, addr),
    }
}

/// The address, if our character stands there.
pub open spec fn own_address(image: Image, class: usize, addr: usize) -> Fetch<Option<usize>> {
    match own_player(image, class, addr as int) {
        Err(need) => Err(need),
        Ok(own) => Ok(
            if own {
                Some(addr)
            } else {
                None
            },
        ),
    }
}

/// What the search for our character gives: the hint of the last frame if it
/// still holds, else the first of the objects that is our character.
///
/// The hint comes first because a player that stands still is not among the
/// objects of a frame.
pub open spec fn local_of(image: Image, tracker: Tracker, objects: Seq<usize>) -> Fetch<
    Option<usize>,
> {
    let searched = gather::first_found(
        objects.map_values(|addr: usize| own_address(image, tracker.player_class, addr)),
    );
    if tracker.last_local == 0 {
        searched
    } else {
        match own_address(image, tracker.player_class, tracker.last_local) {
            Err(need) => Err(need),
            Ok(Some(addr)) => Ok(Some(addr)),
            Ok(None) => searched,
        }
    }
}

fn own(mem: &Memory, class: usize, addr: usize) -> (r: Fetch<Option<usize>>)
    ensures
        r == own_address(mem@, class, addr),
{
    match is_player(mem, class, addr) {
        Err(need) => return Err(need),
        Ok(false) => return Ok(None),
        Ok(true) => {},
    }
    match is_local(mem, addr) {
        Err(need) => Err(need),
        Ok(true) => Ok(Some(addr)),
        Ok(false) => Ok(None),
    }
}

fn find_local(mem: &Memory, tracker: &Tracker, objects: &[usize]) -> (r: Fetch<Option<usize>>)
    ensures
        r == local_of(mem@, *tracker, objects@),
{
    if tracker.last_local != 0 {
        match own(mem, tracker.player_class, tracker.last_local) {
            Err(need) => return Err(need),
            Ok(Some(addr)) => return Ok(Some(addr)),
            Ok(None) => {},
        }
    }
    let ghost fetches = objects@.map_values(
        |addr: usize| own_address(mem@, tracker.player_class, addr),
    );
    assert(fetches.take(0) =~= seq![]);
    for i in 0..objects.len()
        invariant
            fetches == objects@.map_values(
                |addr: usize| own_address(mem@, tracker.player_class, addr),
            ),
            gather::first_found(fetches.take(i as int)) == Ok::<Option<usize>, mem::Need>(None),
            local_of(mem@, *tracker, objects@) == gather::first_found(fetches),
    {
        proof {
            gather::lemma_found_step(fetches, i as int);
        }
        let found = own(mem, tracker.player_class, objects[i]);
        if !matches!(found, Ok(None)) {
            proof {
                gather::lemma_found_stops(fetches, i + 1);
            }
            return found;
        }
    }
    assert(fetches.take(objects@.len() as int) =~= fetches);
    Ok(None)
}

/// The name whose pointer stands at `addr`; empty if there is none.
pub open spec fn name_at(image: Image, addr: int) -> Fetch<Seq<char>> {
    match field::text_at(image, addr) {
        Err(need) => Err(need),
        Ok(None) => Ok(seq![]),
        Ok(Some(text)) => Ok(text),
    }
}

/// The rectangle at `addr`, if it can be the frame of a player.
pub open spec fn frame_at(image: Image, addr: int) -> Fetch<Option<Rect>> {
    match rect::rect_at(image, addr) {
        Err(need) => Err(need),
        Ok(None) => Ok(None),
        Ok(Some(frame)) => Ok(
            if frame.plausible(MAX_DIMENSION as int) {
                Some(frame)
            } else {
                None
            },
        ),
    }
}

/// The fields of the player at `addr`. Without a position, an identifier and a
/// colour there is no player; a missing name or frame is no obstacle.
#[verifier::opaque]
pub open spec fn facts_at(image: Image, addr: usize) -> Fetch<Option<PlayerFacts>> {
    match field::point_at(image, addr + player::POSITION) {
        Err(need) => Err(need),
        Ok(None) => Ok(None),
        Ok(Some(position)) => match image.int32(addr + player::UNIQUE_ID) {
            Err(need) => Err(need),
            Ok(None) => Ok(None),
            Ok(Some(unique_id)) => match name_at(image, addr + player::NAME) {
                Err(need) => Err(need),
                Ok(name) => match image.word(addr + player::COLOR) {
                    Err(need) => Err(need),
                    Ok(None) => Ok(None),
                    Ok(Some(packed)) => match frame_at(image, addr + player::BOUNDING_RECT) {
                        Err(need) => Err(need),
                        Ok(frame) => match local_flags(image, addr as int) {
                            Err(need) => Err(need),
                            Ok(is_local) => Ok(
                                Some(
                                    PlayerFacts {
                                        addr,
                                        unique_id,
                                        name,
                                        color: mem::le_bytes(packed),
                                        position,
                                        rect: frame,
                                        is_local,
                                    },
                                ),
                            ),
                        },
                    },
                },
            },
        },
    }
}

/// The result of reading a player in spec code.
pub open spec fn player_view(r: Fetch<Option<PlayerView>>) -> Fetch<Option<PlayerFacts>> {
    match r {
        Err(need) => Err(need),
        Ok(None) => Ok(None),
        Ok(Some(p)) => Ok(Some(p@)),
    }
}

fn read_name(mem: &Memory, addr: usize, offset: usize) -> (r: Fetch<String>)
    ensures
        match r {
            Err(need) => name_at(mem@, addr + offset) == Err::<Seq<char>, mem::Need>(need),
            Ok(name) => name_at(mem@, addr + offset) == Ok::<Seq<char>, mem::Need>(name@),
        },
{
    match field::read_text(mem, addr, offset) {
        Err(need) => Err(need),
        Ok(None) => Ok(String::new()),
        Ok(Some(name)) => Ok(name),
    }
}

fn read_frame(mem: &Memory, addr: usize, offset: usize) -> (r: Fetch<Option<Rect>>)
    ensures
        r == frame_at(mem@, addr + offset),
{
    match Rect::read(mem, addr, offset) {
        Err(need) => Err(need),
        Ok(None) => Ok(None),
        Ok(Some(frame)) => if frame.is_plausible() {
            Ok(Some(frame))
        } else {
            Ok(None)
        },
    }
}

fn read_player(mem: &Memory, addr: usize) -> (r: Fetch<Option<PlayerView>>)
    ensures
        player_view(r) == facts_at(mem@, addr),
{
    reveal(facts_at);
    let position = match field::read_point(mem, addr, player::POSITION) {
        Err(need) => return Err(need),
        Ok(None) => return Ok(None),
        Ok(Some(position)) => position,
    };
    let unique_id: i32 = match mem::read_int(mem, addr, player::UNIQUE_ID) {
        Err(need) => return Err(need),
        Ok(None) => return Ok(None),
        Ok(Some(unique_id)) => unique_id,
    };
    let name = match read_name(mem, addr, player::NAME) {
        Err(need) => return Err(need),
        Ok(name) => name,
    };
    let packed: u32 = match mem::read_word(mem, addr, player::COLOR) {
        Err(need) => return Err(need),
        Ok(None) => return Ok(None),
        Ok(Some(packed)) => packed,
    };
    let frame = match read_frame(mem, addr, player::BOUNDING_RECT) {
        Err(need) => return Err(need),
        Ok(frame) => frame,
    };
    match is_local(mem, addr) {
        Err(need) => Err(need),
        Ok(is_local) => Ok(
            Some(
                PlayerView {
                    addr,
                    unique_id,
                    name,
                    color: rect::unpack_color(packed),
                    position,
                    rect: frame,
                    is_local,
                },
            ),
        ),
    }
}

/// The address, if a player of the class stands there.
pub open spec fn player_address(image: Image, class: usize, addr: usize) -> Fetch<Option<usize>> {
    match player_at(image, class, addr as int) {
        Err(need) => Err(need),
        Ok(is) => Ok(
            if is {
                Some(addr)
            } else {
                None
            },
        ),
    }
}

/// Which of the addresses are players.
pub open spec fn checks(image: Image, class: usize, addresses: Seq<usize>) -> Seq<
    Fetch<Option<usize>>,
> {
    addresses.map_values(|addr: usize| player_address(image, class, addr))
}

/// The addresses at which players of the class stand, in ascending order, each
/// once.
pub open spec fn players_among(image: Image, class: usize, addresses: Seq<usize>) -> Fetch<
    Seq<usize>,
> {
    match gather::gathered(checks(image, class, addresses)) {
        Err(need) => Err(need),
        Ok(found) => Ok(list::ascending(gather::present(found))),
    }
}

/// Local players first, otherwise in the given order.
pub open spec fn locals_first(players: Seq<PlayerFacts>) -> Seq<PlayerFacts> {
    players.filter(|p: PlayerFacts| p.is_local) + players.filter(|p: PlayerFacts| !p.is_local)
}

/// What is read of each of the addresses.
pub open spec fn readings(image: Image, addresses: Seq<usize>) -> Seq<
    Fetch<Option<PlayerFacts>>,
> {
    addresses.map_values(|addr: usize| facts_at(image, addr))
}

/// The players among the addresses, local ones first.
pub open spec fn collected(image: Image, class: usize, addresses: Seq<usize>) -> Fetch<
    Seq<PlayerFacts>,
> {
    match players_among(image, class, addresses) {
        Err(need) => Err(need),
        Ok(unique) => match gather::gathered(readings(image, unique)) {
            Err(need) => Err(need),
            Ok(found) => Ok(locals_first(gather::present(found))),
        },
    }
}

fn keep_players(mem: &Memory, class: usize, addresses: &[usize]) -> (r: Fetch<Vec<usize>>)
    ensures
        list::addresses_view(r) == players_among(mem@, class, addresses@),
{
    let ghost fetches = checks(mem@, class, addresses@);
    let ghost mut found: Seq<Option<usize>> = seq![];
    let mut kept: Vec<usize> = Vec::new();
    assert(fetches.take(0) =~= seq![]);
    for i in 0..addresses.len()
        invariant
            fetches == checks(mem@, class, addresses@),
            gather::gathered(fetches.take(i as int)) == Ok::<Seq<Option<usize>>, mem::Need>(found),
            kept@ == gather::present(found),
    {
        proof {
            gather::lemma_gathered_step(fetches, i as int);
        }
        match is_player(mem, class, addresses[i]) {
            Err(need) => {
                proof {
                    gather::lemma_gathered_stops(fetches, i + 1);
                }
                return Err(need);
            },
            Ok(is) => {
                let ghost item = if is {
                    Some(addresses@[i as int])
                } else {
                    None
                };
                proof {
                    assert(found.push(item).drop_last() =~= found);
                    found = found.push(item);
                }
                if is {
                    kept.push(addresses[i]);
                }
            },
        }
    }
    assert(fetches.take(addresses@.len() as int) =~= fetches);
    Ok(list::sort_unique(&kept))
}

/// Players that may have to wait for a need, in spec code.
pub open spec fn players_view(r: Fetch<Vec<PlayerView>>) -> Fetch<Seq<PlayerFacts>> {
    match r {
        Err(need) => Err(need),
        Ok(players) => Ok(facts(players@)),
    }
}

/// Appends a player to a list.
fn append_player(players: &mut Vec<PlayerView>, player: PlayerView)
    ensures
        facts(final(players)@) == facts(old(players)@).push(player@),
{
    players.push(player);
    assert(facts(players@) =~= facts(old(players)@).push(player@));
}

/// How one more reading changes the local players and the others.
proof fn lemma_sorting_step(found: Seq<Option<PlayerFacts>>, item: Option<PlayerFacts>)
    ensures
        ({
            let before = gather::present(found);
            let after = gather::present(found.push(item));
            let near = |p: PlayerFacts| p.is_local;
            let far = |p: PlayerFacts| !p.is_local;
            match item {
                None => after == before,
                Some(p) => if p.is_local {
                    after.filter(near) == before.filter(near).push(p) && after.filter(far)
                        == before.filter(far)
                } else {
                    after.filter(near) == before.filter(near) && after.filter(far)
                        == before.filter(far).push(p)
                },
            }
        }),
{
    reveal(Seq::filter);
    let before = gather::present(found);
    assert(found.push(item).drop_last() =~= found);
    if let Some(p) = item {
        assert(before.push(p).drop_last() =~= before);
    }
}

/// Picks the players out of a list of addresses. Other objects are dropped, a
/// repeated address counts once, and the local player comes first.
fn collect_players(mem: &Memory, class: usize, addresses: &[usize]) -> (r: Fetch<Vec<PlayerView>>)
    ensures
        players_view(r) == collected(mem@, class, addresses@),
{
    let unique = match keep_players(mem, class, addresses) {
        Err(need) => return Err(need),
        Ok(unique) => unique,
    };
    match read_all(mem, &unique) {
        Err(need) => Err(need),
        Ok((mut locals, mut others)) => {
            let ghost first = locals@;
            let ghost rest = others@;
            locals.append(&mut others);
            assert(facts(locals@) =~= facts(first) + facts(rest));
            Ok(locals)
        },
    }
}

/// Reads players, and separates the local ones from the others.
fn read_all(mem: &Memory, addresses: &Vec<usize>) -> (r: Fetch<(Vec<PlayerView>, Vec<PlayerView>)>)
    ensures
        match gather::gathered(readings(mem@, addresses@)) {
            Err(need) => r matches Err(n) && n == need,
            Ok(found) => {
                &&& r matches Ok((locals, others))
                &&& facts(locals@) == gather::present(found).filter(|p: PlayerFacts| p.is_local)
                &&& facts(others@) == gather::present(found).filter(|p: PlayerFacts| !p.is_local)
            },
        },
{
    let ghost fetches = readings(mem@, addresses@);
    let ghost mut found: Seq<Option<PlayerFacts>> = seq![];
    let mut locals: Vec<PlayerView> = Vec::new();
    let mut others: Vec<PlayerView> = Vec::new();
    let ghost near = |p: PlayerFacts| p.is_local;
    let ghost far = |p: PlayerFacts| !p.is_local;
    proof {
        assert(fetches.take(0) =~= seq![]);
        reveal(Seq::filter);
        assert(facts(locals@) =~= gather::present(found).filter(near));
        assert(facts(others@) =~= gather::present(found).filter(far));
    }
    for i in 0..addresses.len()
        invariant
            fetches == readings(mem@, addresses@),
            near == (|p: PlayerFacts| p.is_local),
            far == (|p: PlayerFacts| !p.is_local),
            gather::gathered(fetches.take(i as int)) == Ok::<
                Seq<Option<PlayerFacts>>,
                mem::Need,
            >(found),
            facts(locals@) == gather::present(found).filter(near),
            facts(others@) == gather::present(found).filter(far),
    {
        proof {
            gather::lemma_gathered_step(fetches, i as int);
            assert(fetches[i as int] == facts_at(mem@, addresses@[i as int]));
        }
        match read_player(mem, addresses[i]) {
            Err(need) => {
                proof {
                    gather::lemma_gathered_stops(fetches, i + 1);
                }
                return Err(need);
            },
            Ok(None) => {
                proof {
                    lemma_sorting_step(found, None);
                    found = found.push(None);
                }
            },
            Ok(Some(player)) => {
                proof {
                    lemma_sorting_step(found, Some(player@));
                    found = found.push(Some(player@));
                }
                if player.is_local {
                    append_player(&mut locals, player);
                } else {
                    append_player(&mut others, player);
                }
            },
        }
    }
    assert(fetches.take(addresses@.len() as int) =~= fetches);
    Ok((locals, others))
}

/// The screen of the player at `addr`; 0 if it cannot be read.
///
/// Only the pointer has to be readable: without a network the screen is of
/// another class and may be shorter.
pub open spec fn screen_of(image: Image, addr: int) -> Fetch<usize> {
    match image.ptr(addr + player::GAMEPLAY_SCREEN) {
        Err(need) => Err(need),
        Ok(None) => Ok(0),
        Ok(Some(at)) => match image.access(at as int, PTR_SIZE as int, false) {
            Err(need) => Err(need),
            Ok(readable) => Ok(
                if readable {
                    at
                } else {
                    0
                },
            ),
        },
    }
}

fn read_screen(mem: &Memory, addr: usize) -> (r: Fetch<usize>)
    ensures
        r == screen_of(mem@, addr as int),
{
    match mem::read_link(mem, addr, player::GAMEPLAY_SCREEN) {
        Err(need) => Err(need),
        Ok(None) => Ok(0),
        Ok(Some(at)) => match mem::check(mem, at, PTR_SIZE, false) {
            Err(need) => Err(need),
            Ok(true) => Ok(at),
            Ok(false) => Ok(0),
        },
    }
}

/// The players that the lists of a screen name.
pub open spec fn screen_players(image: Image, class: usize, at: usize) -> Fetch<
    Seq<PlayerFacts>,
> {
    if at == 0 {
        Ok(seq![])
    } else {
        match lists_of(image, at as int) {
            Err(need) => Err(need),
            Ok(names) => collected(image, class, names),
        }
    }
}

fn players_from_screen(mem: &Memory, class: usize, at: usize) -> (r: Fetch<Vec<PlayerView>>)
    ensures
        players_view(r) == screen_players(mem@, class, at),
{
    if at == 0 {
        let none: Vec<PlayerView> = Vec::new();
        assert(facts(none@) =~= seq![]);
        return Ok(none);
    }
    match player_lists(mem, at) {
        Err(need) => Err(need),
        Ok(names) => collect_players(mem, class, names.as_slice()),
    }
}

/// The class that a frame works with: the known one, else the one that an
/// object of the frame proves, else 0.
pub open spec fn class_of(image: Image, tracker: Tracker, objects: Seq<usize>) -> Fetch<usize> {
    if tracker.player_class != 0 {
        Ok(tracker.player_class)
    } else {
        match gather::first_found(proofs(image, objects)) {
            Err(need) => Err(need),
            Ok(None) => Ok(0),
            Ok(Some(class)) => Ok(class),
        }
    }
}

/// The players of a frame: those that the lists of the screen name, and where
/// there are none, those among the objects of the frame.
pub open spec fn frame_players(
    image: Image,
    class: usize,
    at: usize,
    objects: Seq<usize>,
) -> Fetch<Seq<PlayerFacts>> {
    match screen_players(image, class, at) {
        Err(need) => Err(need),
        Ok(players) => if players.len() > 0 {
            Ok(players)
        } else {
            collected(image, class, objects)
        },
    }
}

/// What a frame makes of the objects that moved: what is remembered afterwards,
/// and the world. Without our character the world is empty.
pub open spec fn world_of(image: Image, tracker: Tracker, objects: Seq<usize>) -> Fetch<
    (Tracker, WorldFacts),
> {
    match class_of(image, tracker, objects) {
        Err(need) => Err(need),
        Ok(class) => match local_of(
            image,
            Tracker { player_class: class, ..tracker },
            objects,
        ) {
            Err(need) => Err(need),
            Ok(None) => Ok(
                (
                    Tracker { player_class: class, last_local: 0 },
                    WorldFacts { screen: 0, players: seq![] },
                ),
            ),
            Ok(Some(local)) => match screen_of(image, local as int) {
                Err(need) => Err(need),
                Ok(at) => match frame_players(image, class, at, objects) {
                    Err(need) => Err(need),
                    Ok(players) => Ok(
                        (
                            Tracker { player_class: class, last_local: local },
                            WorldFacts { screen: at, players },
                        ),
                    ),
                },
            },
        },
    }
}

fn read_players(mem: &Memory, class: usize, at: usize, objects: &[usize]) -> (r: Fetch<
    Vec<PlayerView>,
>)
    ensures
        players_view(r) == frame_players(mem@, class, at, objects@),
{
    match players_from_screen(mem, class, at) {
        Err(need) => Err(need),
        Ok(players) => if players.len() > 0 {
            Ok(players)
        } else {
            collect_players(mem, class, objects)
        },
    }
}

/// Builds the snapshot of the world from the objects that moved in the frame.
///
/// As long as something is missing, nothing is remembered.
pub fn build_world(mem: &mut Memory, tracker: &mut Tracker, objects: &[usize]) -> (r: Fetch<World>)
    ensures
        match world_of(old(mem)@, *old(tracker), objects@) {
            Err(need) => r == Err::<World, mem::Need>(need) && *final(tracker) == *old(tracker),
            Ok((next, facts)) => (r matches Ok(world) && world@ == facts) && *final(tracker)
                == next,
        },
        mem::ended(*old(mem), *final(mem), r),
{
    let r = peek_world(mem, tracker, objects);
    mem.end(&r);
    r
}

/// Builds the snapshot of the world as a part of a call.
pub(crate) fn peek_world(mem: &Memory, tracker: &mut Tracker, objects: &[usize]) -> (r: Fetch<World>)
    ensures
        match world_of(mem@, *old(tracker), objects@) {
            Err(need) => r == Err::<World, mem::Need>(need) && *final(tracker) == *old(tracker),
            Ok((next, facts)) => (r matches Ok(world) && world@ == facts) && *final(tracker)
                == next,
        },
{
    let class: usize = match player_class(tracker) {
        Some(class) => class,
        None => match bootstrap(mem, objects) {
            Err(need) => return Err(need),
            Ok(Some(class)) => class,
            Ok(None) => 0,
        },
    };
    let known = Tracker { player_class: class, last_local: tracker.last_local };
    match find_local(mem, &known, objects) {
        Err(need) => Err(need),
        Ok(None) => {
            *tracker = Tracker { player_class: class, last_local: 0 };
            Ok(World::default())
        },
        Ok(Some(local)) => {
            let at: usize = match read_screen(mem, local) {
                Err(need) => return Err(need),
                Ok(at) => at,
            };
            match read_players(mem, class, at, objects) {
                Err(need) => Err(need),
                Ok(players) => {
                    *tracker = Tracker { player_class: class, last_local: local };
                    Ok(World { screen: at, players })
                },
            }
        },
    }
}

/// Whether the session is a network session, as `m_Online` of the screen says.
pub fn is_online(mem: &mut Memory, screen_addr: usize) -> (r: Fetch<Option<bool>>)
    ensures
        r == (if screen_addr == 0 {
            Ok(None)
        } else {
            field::flag_at(old(mem)@, screen_addr + screen::IS_ONLINE)
        }),
        screen_addr != 0 ==> r == field::flag_at(old(mem)@, screen_addr + 0xD1),
        mem::ended(*old(mem), *final(mem), r),
{
    let r = if screen_addr == 0 {
        Ok(None)
    } else {
        field::read_flag(mem, screen_addr, screen::IS_ONLINE)
    };
    mem.end(&r);
    r
}

} // verus!
