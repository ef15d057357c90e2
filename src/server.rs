//! The authoritative registry of connected clients and rooms.
//!
//! Every operation returns the messages it sends, as `(recipient, message)`
//! pairs, in the order they are to be delivered; the transport around the
//! registry does the delivery.
use vstd::prelude::*;
use vstd::string::*;

use crate::interop::{ClientId, ClientMessage, RoomInfo, ServerMessage};
use crate::model::{DispatcherState, GameRole, Player, SolverState};

verus! {

/// Length of a room code.
pub const CODE_LEN: usize = 4;

/// Number of random codes tried before room creation gives up.
pub const CODE_ATTEMPTS: usize = 10;

/// Length of a reconnection token.
pub const TOKEN_LEN: usize = 16;

/// Largest number of players in a room.
pub const ROOM_CAPACITY: usize = 2;

/// A message with its recipient.
pub type Outgoing = (ClientId, ServerMessage);

/// The kinds of failure reported to a client.
#[derive(Debug, Clone, Copy, PartialEq, Eq, Structural)]
pub enum ServerError {
    RoomFull,
    RoomNotFound,
    AlreadyInProgress,
    ProtocolViolation,
    CodesExhausted,
}

/// The text sent to a client for each kind of failure.
pub open spec fn error_text(e: ServerError) -> Seq<char> {
    match e {
        ServerError::RoomFull => "room already full"@,
        ServerError::RoomNotFound => "non-existent room code"@,
        ServerError::AlreadyInProgress => "cannot join an ongoing game"@,
        ServerError::ProtocolViolation => "unexpected message"@,
        ServerError::CodesExhausted => "could not create a room"@,
    }
}

pub fn error_message(e: ServerError) -> (r: String)
    ensures
        r@ == error_text(e),
{
    let s = match e {
        ServerError::RoomFull => "room already full",
        ServerError::RoomNotFound => "non-existent room code",
        ServerError::AlreadyInProgress => "cannot join an ongoing game",
        ServerError::ProtocolViolation => "unexpected message",
        ServerError::CodesExhausted => "could not create a room",
    };
    proof {
        reveal_strlit("room already full");
        reveal_strlit("non-existent room code");
        reveal_strlit("cannot join an ongoing game");
        reveal_strlit("unexpected message");
        reveal_strlit("could not create a room");
    }
    String::from_str(s)
}

/// Whether `out` is exactly one error of kind `e` sent to `id`.
pub open spec fn is_error_to(out: Seq<Outgoing>, id: ClientId, e: ServerError) -> bool {
    &&& out.len() == 1
    &&& out[0].0 == id
    &&& out[0].1 matches ServerMessage::Error(m) && m@ == error_text(e)
}

/// A connected client.
pub struct Client {
    pub id: ClientId,
    pub token: String,
    pub room: Option<String>,
}

/// The shared puzzle progress of a room whose game has started.
#[derive(Debug, Clone, Copy)]
pub struct RoomGameState {
    pub dispatcher: DispatcherState,
    pub solver: SolverState,
}

impl RoomGameState {
    pub fn new() -> (r: Self)
        ensures
            r.dispatcher == DispatcherState::initial(),
            r.solver == SolverState::initial(),
    {
        RoomGameState { dispatcher: DispatcherState::new(), solver: SolverState::new() }
    }
}

/// The phase of a room.
pub enum RoomState {
    /// Players pick roles; each entry is a client and its latest choice.
    RoleSelection { roles: Vec<(ClientId, GameRole)> },
    Game(RoomGameState),
}

/// A room: its code, its player slots (client and reconnection token) and its phase.
pub struct Room {
    pub code: String,
    pub players: Vec<(ClientId, String)>,
    pub state: RoomState,
}

/// Whether no two entries of `roles` belong to the same client.
pub open spec fn roles_unique(roles: Seq<(ClientId, GameRole)>) -> bool {
    forall|i: int, j: int|
        0 <= i < roles.len() && 0 <= j < roles.len() && i != j ==> roles[i].0 != roles[j].0
}

/// `new` is `old` with the choice of `id` set to `role`: the entry of `id`
/// is replaced where there is one, else appended.
pub open spec fn role_upserted(
    old: Seq<(ClientId, GameRole)>,
    new: Seq<(ClientId, GameRole)>,
    id: ClientId,
    role: GameRole,
) -> bool {
    &&& forall|i: int| 0 <= i < old.len() && (#[trigger] old[i]).0 == id ==> new == old.update(i, (id, role))
    &&& (forall|i: int| 0 <= i < old.len() ==> old[i].0 != id) ==> new == old.push((id, role))
}

impl Room {
    pub open spec fn wf(&self) -> bool {
        &&& self.players@.len() <= ROOM_CAPACITY
        &&& self.state matches RoomState::RoleSelection { roles } ==> roles_unique(roles@)
    }

    pub fn new(code: String) -> (r: Self)
        ensures
            r.code == code,
            r.players@.len() == 0,
            r.state matches RoomState::RoleSelection { roles } && roles@.len() == 0,
            r.wf(),
    {
        Room { code, players: Vec::new(), state: RoomState::RoleSelection { roles: Vec::new() } }
    }

    pub fn info(&self) -> (r: RoomInfo)
        ensures
            r.code@ == self.code@,
            r.players == self.players@.len(),
    {
        RoomInfo { code: self.code.clone(), players: self.players.len() }
    }
}

/// Whether `s` is a room code: four letters from `A` to `Z`.
pub open spec fn is_room_code(s: Seq<char>) -> bool {
    &&& s.len() == CODE_LEN
    &&& forall|i: int| 0 <= i < s.len() ==> 'A' <= #[trigger] s[i] <= 'Z'
}

pub fn check_room_code(s: &String) -> (r: bool)
    ensures
        r == is_room_code(s@),
{
    let t = s.as_str();
    let n = t.unicode_len();
    if n != CODE_LEN {
        return false;
    }
    let mut i: usize = 0;
    while i < n
        invariant
            n == t@.len(),
            t@ == s@,
            i <= n,
            n == CODE_LEN,
            forall|k: int| 0 <= k < i ==> 'A' <= #[trigger] s@[k] <= 'Z',
        decreases n - i,
    {
        let c = t.get_char(i);
        if !('A' <= c && c <= 'Z') {
            return false;
        }
        i = i + 1;
    }
    true
}

/// Whether a client with this id is connected.
pub open spec fn client_connected(clients: Seq<Client>, id: ClientId) -> bool {
    exists|i: int| 0 <= i < clients.len() && clients[i].id == id
}

/// Whether some player slot of `room` belongs to a connected client.
pub open spec fn room_connected(clients: Seq<Client>, room: Room) -> bool {
    exists|p: int| 0 <= p < room.players@.len() && client_connected(clients, room.players@[p].0)
}

/// The latest role chosen by `id`.
pub open spec fn role_of(roles: Seq<(ClientId, GameRole)>, id: ClientId) -> Option<GameRole>
    decreases roles.len(),
{
    if roles.len() == 0 {
        None
    } else if roles.last().0 == id {
        Some(roles.last().1)
    } else {
        role_of(roles.drop_last(), id)
    }
}

/// The connected players of a room other than `sender`, in slot order.
pub open spec fn recipients(
    clients: Seq<Client>,
    players: Seq<(ClientId, String)>,
    sender: ClientId,
) -> Seq<ClientId>
    decreases players.len(),
{
    if players.len() == 0 {
        Seq::empty()
    } else {
        let rest = recipients(clients, players.drop_last(), sender);
        let p = players.last().0;
        if p != sender && client_connected(clients, p) {
            rest.push(p)
        } else {
            rest
        }
    }
}

/// The `StartGame` messages to the connected players of a room that have a role,
/// in slot order.
pub open spec fn start_messages(
    clients: Seq<Client>,
    players: Seq<(ClientId, String)>,
    roles: Seq<(ClientId, GameRole)>,
) -> Seq<Outgoing>
    decreases players.len(),
{
    if players.len() == 0 {
        Seq::empty()
    } else {
        let rest = start_messages(clients, players.drop_last(), roles);
        let p = players.last().0;
        match role_of(roles, p) {
            Some(r) => if client_connected(clients, p) {
                rest.push((p, ServerMessage::StartGame(r)))
            } else {
                rest
            },
            None => rest,
        }
    }
}

/// The roles of a full room once everyone has chosen: where both chose the same
/// role, the first slot takes `Solver` if `coin` holds, else `Dispatcher`, and the
/// second slot the other role.
pub open spec fn settle_roles(roles: Seq<(ClientId, GameRole)>, coin: bool) -> Seq<
    (ClientId, GameRole),
> {
    if roles[0].1 == roles[1].1 {
        if coin {
            seq![(roles[0].0, GameRole::Solver), (roles[1].0, GameRole::Dispatcher)]
        } else {
            seq![(roles[0].0, GameRole::Dispatcher), (roles[1].0, GameRole::Solver)]
        }
    } else {
        roles
    }
}

fn is_connected(clients: &Vec<Client>, id: ClientId) -> (r: bool)
    ensures
        r == client_connected(clients@, id),
{
    let mut i: usize = 0;
    while i < clients.len()
        invariant
            i <= clients@.len(),
            forall|k: int| 0 <= k < i ==> clients@[k].id != id,
        decreases clients@.len() - i,
    {
        if clients[i].id == id {
            return true;
        }
        i = i + 1;
    }
    false
}

fn lookup_role(roles: &Vec<(ClientId, GameRole)>, id: ClientId) -> (r: Option<GameRole>)
    ensures
        r == role_of(roles@, id),
{
    let mut i: usize = roles.len();
    assert(roles@.take(i as int) == roles@);
    while i > 0
        invariant
            i <= roles@.len(),
            role_of(roles@, id) == role_of(roles@.take(i as int), id),
        decreases i,
    {
        assert(roles@.take(i as int).drop_last() == roles@.take(i - 1));
        if roles[i - 1].0 == id {
            return Some(roles[i - 1].1);
        }
        i = i - 1;
    }
    assert(roles@.take(0) == Seq::<(ClientId, GameRole)>::empty());
    None
}

fn connected_recipients(
    clients: &Vec<Client>,
    players: &Vec<(ClientId, String)>,
    sender: ClientId,
) -> (r: Vec<ClientId>)
    ensures
        r@ == recipients(clients@, players@, sender),
{
    let mut out: Vec<ClientId> = Vec::new();
    let mut i: usize = 0;
    while i < players.len()
        invariant
            i <= players@.len(),
            out@ == recipients(clients@, players@.take(i as int), sender),
        decreases players@.len() - i,
    {
        assert(players@.take(i + 1).drop_last() == players@.take(i as int));
        let p = players[i].0;
        if p != sender && is_connected(clients, p) {
            out.push(p);
        }
        i = i + 1;
    }
    assert(players@.take(players@.len() as int) == players@);
    out
}

fn start_game_messages(
    clients: &Vec<Client>,
    players: &Vec<(ClientId, String)>,
    roles: &Vec<(ClientId, GameRole)>,
) -> (r: Vec<Outgoing>)
    ensures
        r@ == start_messages(clients@, players@, roles@),
{
    let mut out: Vec<Outgoing> = Vec::new();
    let mut i: usize = 0;
    while i < players.len()
        invariant
            i <= players@.len(),
            out@ == start_messages(clients@, players@.take(i as int), roles@),
        decreases players@.len() - i,
    {
        assert(players@.take(i + 1).drop_last() == players@.take(i as int));
        let p = players[i].0;
        match lookup_role(roles, p) {
            Some(role) => {
                if is_connected(clients, p) {
                    out.push((p, ServerMessage::StartGame(role)));
                }
            },
            None => {},
        }
        i = i + 1;
    }
    assert(players@.take(players@.len() as int) == players@);
    out
}

/// Whether `c` is an ASCII letter or digit.
pub open spec fn is_alphanumeric(c: char) -> bool {
    ('A' <= c <= 'Z') || ('a' <= c <= 'z') || ('0' <= c <= '9')
}

/// Relies on `rand::distributions::Alphanumeric` through `DistString::sample_string`
/// with the thread-local generator: `len` characters, each an ASCII letter or digit.
#[verifier::external_body]
fn random_alphanumeric(len: usize) -> (r: String)
    ensures
        r@.len() == len,
        forall|i: int| 0 <= i < r@.len() ==> is_alphanumeric(#[trigger] r@[i]),
{
    rand::distributions::DistString::sample_string(
        &rand::distributions::Alphanumeric,
        &mut rand::thread_rng(),
        len,
    )
}

/// Relies on `rand::distributions::Uniform::new_inclusive` over `char`, sampled `len`
/// times with the thread-local generator: each character lies in `lo..=hi`.
#[verifier::external_body]
fn random_chars(lo: char, hi: char, len: usize) -> (r: String)
    requires
        lo <= hi,
    ensures
        r@.len() == len,
        forall|i: int| 0 <= i < r@.len() ==> lo <= #[trigger] r@[i] <= hi,
{
    rand::distributions::Distribution::sample_iter(
        rand::distributions::Uniform::new_inclusive(lo, hi),
        rand::thread_rng(),
    ).take(len).collect()
}

/// Relies on `rand::random::<bool>`: a fair coin from the thread-local generator.
#[verifier::external_body]
fn random_bool() -> (r: bool) {
    rand::random::<bool>()
}

/// Whether `p` is the first slot of `players` holding `token`.
pub open spec fn first_slot_with(players: Seq<(ClientId, String)>, token: Seq<char>, p: int) -> bool {
    &&& 0 <= p < players.len()
    &&& players[p].1@ == token
    &&& forall|q: int| 0 <= q < p ==> players[q].1@ != token
}

fn find_slot(players: &Vec<(ClientId, String)>, token: &String) -> (r: Option<usize>)
    ensures
        match r {
            Some(p) => first_slot_with(players@, token@, p as int),
            None => forall|q: int| 0 <= q < players@.len() ==> players@[q].1@ != token@,
        },
{
    let mut i: usize = 0;
    while i < players.len()
        invariant
            i <= players@.len(),
            forall|q: int| 0 <= q < i ==> players@[q].1@ != token@,
        decreases players@.len() - i,
    {
        if players[i].1 == *token {
            return Some(i);
        }
        i = i + 1;
    }
    None
}

/// `new` is `old` without the entry of `id`, if it had one.
pub open spec fn role_removed(
    old: Seq<(ClientId, GameRole)>,
    new: Seq<(ClientId, GameRole)>,
    id: ClientId,
) -> bool {
    &&& forall|i: int| 0 <= i < old.len() && old[i].0 == id ==> new == old.remove(i)
    &&& (forall|i: int| 0 <= i < old.len() ==> old[i].0 != id) ==> new == old
}

fn remove_role(roles: &mut Vec<(ClientId, GameRole)>, id: ClientId)
    requires
        roles_unique(old(roles)@),
    ensures
        role_removed(old(roles)@, final(roles)@, id),
        roles_unique(final(roles)@),
{
    let mut i: usize = 0;
    while i < roles.len()
        invariant
            i <= roles@.len(),
            roles@ == old(roles)@,
            roles_unique(roles@),
            forall|k: int| 0 <= k < i ==> roles@[k].0 != id,
        decreases roles@.len() - i,
    {
        if roles[i].0 == id {
            roles.remove(i);
            return;
        }
        i = i + 1;
    }
}

/// Whether `p` is the first slot of `players` held by client `id`.
pub open spec fn first_slot_of(players: Seq<(ClientId, String)>, id: ClientId, p: int) -> bool {
    &&& 0 <= p < players.len()
    &&& players[p].0 == id
    &&& forall|q: int| 0 <= q < p ==> players[q].0 != id
}

fn find_slot_of(players: &Vec<(ClientId, String)>, id: ClientId) -> (r: Option<usize>)
    ensures
        match r {
            Some(p) => first_slot_of(players@, id, p as int),
            None => forall|q: int| 0 <= q < players@.len() ==> players@[q].0 != id,
        },
{
    let mut i: usize = 0;
    while i < players.len()
        invariant
            i <= players@.len(),
            forall|q: int| 0 <= q < i ==> players@[q].0 != id,
        decreases players@.len() - i,
    {
        if players[i].0 == id {
            return Some(i);
        }
        i = i + 1;
    }
    None
}

/// Whether room `r` is in role selection and `p` is the first of its slots that
/// client `c`, whose room it is, holds.
pub open spec fn holds_slot(rooms: Seq<Room>, c: Client, r: int, p: int) -> bool {
    &&& 0 <= r < rooms.len()
    &&& c.room is Some
    &&& rooms[r].code@ == c.room->0@
    &&& rooms[r].state is RoleSelection
    &&& first_slot_of(rooms[r].players@, c.id, p)
}

/// How the rooms change when client `c` leaves: a room in role selection gives
/// up the client's slot (and the client's role), and
/// is discarded once no slot is left; a room whose game started keeps the slot
/// for a reconnection.
pub open spec fn slot_released(old: Seq<Room>, new: Seq<Room>, c: Client) -> bool {
    &&& (forall|r: int, p: int| !holds_slot(old, c, r, p)) ==> new == old
    &&& forall|r: int, p: int|
        #[trigger] holds_slot(old, c, r, p) ==> {
            if old[r].players@.len() == 1 {
                new == old.remove(r)
            } else {
                &&& new.len() == old.len()
                &&& forall|k: int| 0 <= k < old.len() && k != r ==> new[k] == old[k]
                &&& new[r].code == old[r].code
                &&& new[r].players@ == old[r].players@.remove(p)
                &&& new[r].state matches RoomState::RoleSelection { roles: new_roles }
                    && old[r].state matches RoomState::RoleSelection { roles: old_roles }
                    && role_removed(old_roles@, new_roles@, c.id)
            }
        }
}

/// The registry of clients and rooms.
pub struct ServerState {
    /// Lets a room of one player start the game alone.
    pub test: bool,
    pub next_id: ClientId,
    pub clients: Vec<Client>,
    pub rooms: Vec<Room>,
}

impl ServerState {
    pub open spec fn wf(&self) -> bool {
        &&& 1 <= self.next_id
        &&& forall|i: int|
            0 <= i < self.clients@.len() ==> 1 <= #[trigger] self.clients@[i].id < self.next_id
        &&& forall|i: int, j: int|
            0 <= i < self.clients@.len() && 0 <= j < self.clients@.len() && i != j
                ==> self.clients@[i].id != self.clients@[j].id
        &&& forall|i: int, j: int|
            0 <= i < self.rooms@.len() && 0 <= j < self.rooms@.len() && i != j
                ==> self.rooms@[i].code@ != self.rooms@[j].code@
        &&& forall|i: int| 0 <= i < self.rooms@.len() ==> #[trigger] self.rooms@[i].wf()
    }

    pub open spec fn has_client_spec(&self, id: ClientId) -> bool {
        exists|i: int| 0 <= i < self.clients@.len() && self.clients@[i].id == id
    }

    pub fn new(test: bool) -> (r: Self)
        ensures
            r.wf(),
            r.test == test,
            r.next_id == 1,
            r.clients@.len() == 0,
            r.rooms@.len() == 0,
    {
        ServerState { test, next_id: 1, clients: Vec::new(), rooms: Vec::new() }
    }

    pub fn has_client(&self, id: ClientId) -> (r: bool)
        ensures
            r == self.has_client_spec(id),
    {
        match self.find_client(id) {
            Some(_) => true,
            None => false,
        }
    }

    fn find_client(&self, id: ClientId) -> (r: Option<usize>)
        ensures
            match r {
                Some(i) => i < self.clients@.len() && self.clients@[i as int].id == id,
                None => forall|i: int| 0 <= i < self.clients@.len() ==> self.clients@[i].id != id,
            },
    {
        let mut i: usize = 0;
        while i < self.clients.len()
            invariant
                i <= self.clients@.len(),
                forall|k: int| 0 <= k < i ==> self.clients@[k].id != id,
            decreases self.clients@.len() - i,
        {
            if self.clients[i].id == id {
                return Some(i);
            }
            i = i + 1;
        }
        None
    }

    fn find_room(&self, code: &String) -> (r: Option<usize>)
        ensures
            match r {
                Some(i) => i < self.rooms@.len() && self.rooms@[i as int].code@ == code@,
                None => forall|i: int| 0 <= i < self.rooms@.len() ==> self.rooms@[i].code@ != code@,
            },
    {
        let mut i: usize = 0;
        while i < self.rooms.len()
            invariant
                i <= self.rooms@.len(),
                forall|k: int| 0 <= k < i ==> self.rooms@[k].code@ != code@,
            decreases self.rooms@.len() - i,
        {
            if self.rooms[i].code == *code {
                return Some(i);
            }
            i = i + 1;
        }
        None
    }
}

impl ServerState {
    /// Registers a client under a fresh id with the given reconnection token,
    /// and greets it with a `Ping` and its token.
    pub fn client_connect_with_token(&mut self, token: String) -> (r: (ClientId, Vec<Outgoing>))
        requires
            old(self).wf(),
            old(self).next_id < i64::MAX,
        ensures
            final(self).wf(),
            r.0 == old(self).next_id,
            final(self).next_id == old(self).next_id + 1,
            final(self).test == old(self).test,
            final(self).clients@ == old(self).clients@.push(Client { id: r.0, token, room: None }),
            final(self).rooms@ == old(self).rooms@,
            r.1@.len() == 2,
            r.1@[0] == (r.0, ServerMessage::Ping),
            r.1@[1].0 == r.0,
            r.1@[1].1 matches ServerMessage::YourToken(t) && t@ == token@,
    {
        let my_id = self.next_id;
        self.next_id = self.next_id + 1;
        let mut out: Vec<Outgoing> = Vec::new();
        out.push((my_id, ServerMessage::Ping));
        out.push((my_id, ServerMessage::YourToken(token.clone())));
        self.clients.push(Client { id: my_id, token, room: None });
        (my_id, out)
    }

    /// Registers a client under a fresh id with a freshly drawn token.
    pub fn client_connect(&mut self) -> (r: (ClientId, Vec<Outgoing>))
        requires
            old(self).wf(),
            old(self).next_id < i64::MAX,
        ensures
            final(self).wf(),
            r.0 == old(self).next_id,
            final(self).next_id == old(self).next_id + 1,
            final(self).test == old(self).test,
            final(self).clients@.len() == old(self).clients@.len() + 1,
            final(self).clients@.drop_last() == old(self).clients@,
            final(self).clients@.last().id == r.0,
            final(self).clients@.last().room is None,
            final(self).clients@.last().token@.len() == TOKEN_LEN,
            forall|i: int|
                0 <= i < TOKEN_LEN ==> is_alphanumeric(
                    #[trigger] final(self).clients@.last().token@[i],
                ),
            final(self).rooms@ == old(self).rooms@,
            r.1@.len() == 2,
            r.1@[0] == (r.0, ServerMessage::Ping),
            r.1@[1].0 == r.0,
            r.1@[1].1 matches ServerMessage::YourToken(t) && t@ == final(self).clients@.last().token@,
    {
        let token = random_alphanumeric(TOKEN_LEN);
        let r = self.client_connect_with_token(token);
        assert(self.clients@.drop_last() == old(self).clients@);
        r
    }

    /// Forgets a client; see `slot_released` for what happens to its room.
    pub fn client_disconnect(&mut self, client_id: ClientId)
        requires
            old(self).wf(),
        ensures
            final(self).wf(),
            final(self).test == old(self).test,
            final(self).next_id == old(self).next_id,
            (forall|i: int| 0 <= i < old(self).clients@.len() ==> old(self).clients@[i].id != client_id)
                ==> final(self).clients@ == old(self).clients@ && final(self).rooms@ == old(self).rooms@,
            forall|i: int|
                0 <= i < old(self).clients@.len() && old(self).clients@[i].id == client_id ==> {
                    &&& final(self).clients@ == old(self).clients@.remove(i)
                    &&& slot_released(old(self).rooms@, final(self).rooms@, old(self).clients@[i])
                },
    {
        let ci = match self.find_client(client_id) {
            Some(ci) => ci,
            None => return ,
        };
        let client = self.clients.remove(ci);
        assert(client == old(self).clients@[ci as int]);
        assert(forall|k: int|
            0 <= k < self.clients@.len() ==> #[trigger] self.clients@[k] == old(self).clients@[if k
                < ci {
                k
            } else {
                k + 1
            }]);
        let ghost c0 = client;
        let code = match &client.room {
            Some(code) => code,
            None => {
                assert(forall|r: int, p: int| !holds_slot(self.rooms@, c0, r, p));
                return ;
            },
        };
        let ri = match self.find_room(code) {
            Some(ri) => ri,
            None => {
                assert(forall|r: int, p: int| !holds_slot(self.rooms@, c0, r, p));
                return ;
            },
        };
        let selecting = match &self.rooms[ri].state {
            RoomState::RoleSelection { .. } => true,
            RoomState::Game(_) => false,
        };
        if !selecting {
            assert(forall|r: int, p: int| !holds_slot(self.rooms@, c0, r, p));
            return ;
        }
        let pi = match find_slot_of(&self.rooms[ri].players, client_id) {
            Some(pi) => pi,
            None => {
                assert(forall|r: int, p: int| !holds_slot(self.rooms@, c0, r, p));
                return ;
            },
        };
        assert(holds_slot(self.rooms@, c0, ri as int, pi as int));
        assert(self.rooms@[ri as int].wf());
        if self.rooms[ri].players.len() == 1 {
            self.rooms.remove(ri);
        } else {
            let room = &mut self.rooms[ri];
            room.players.remove(pi);
            match &mut room.state {
                RoomState::RoleSelection { roles } => remove_role(roles, client_id),
                RoomState::Game(_) => {},
            }
        }
    }
}

fn has_connected_player(clients: &Vec<Client>, room: &Room) -> (r: bool)
    ensures
        r == room_connected(clients@, *room),
{
    let mut i: usize = 0;
    while i < room.players.len()
        invariant
            i <= room.players@.len(),
            forall|k: int| 0 <= k < i ==> !client_connected(clients@, #[trigger] room.players@[k].0),
        decreases room.players@.len() - i,
    {
        if is_connected(clients, room.players[i].0) {
            return true;
        }
        i = i + 1;
    }
    false
}

impl ServerState {
    /// The periodic janitor pass: discards every room none of whose players is
    /// connected.
    pub fn tick(&mut self)
        requires
            old(self).wf(),
        ensures
            final(self).wf(),
            final(self).test == old(self).test,
            final(self).next_id == old(self).next_id,
            final(self).clients@ == old(self).clients@,
            final(self).rooms@ == old(self).rooms@.filter(
                |r: Room| room_connected(old(self).clients@, r),
            ),
    {
        let ghost orig = self.rooms@;
        let ghost pred = |r: Room| room_connected(old(self).clients@, r);
        let ghost mut j: int = 0;
        let mut i: usize = 0;
        assert(orig.take(0) == Seq::<Room>::empty());
        assert(orig.skip(0) == orig);
        proof {
            reveal(Seq::filter);
        }
        while i < self.rooms.len()
            invariant
                self.wf(),
                self.test == old(self).test,
                self.next_id == old(self).next_id,
                self.clients@ == old(self).clients@,
                0 <= j <= orig.len(),
                orig == old(self).rooms@,
                pred == (|r: Room| room_connected(old(self).clients@, r)),
                i == orig.take(j).filter(pred).len(),
                self.rooms@ == orig.take(j).filter(pred) + orig.skip(j),
            decreases self.rooms@.len() - i,
        {
            proof {
                assert(orig.take(j + 1).drop_last() == orig.take(j));
                assert(orig.take(j + 1).last() == orig[j]);
                assert(orig.skip(j) == seq![orig[j]] + orig.skip(j + 1));
            }
            let ghost f = orig.take(j).filter(pred);
            assert(self.rooms@[i as int] == orig[j]);
            let keep = has_connected_player(&self.clients, &self.rooms[i]);
            assert(pred(orig[j]) == keep);
            assert(orig.take(j + 1).len() > 0);
            proof {
                reveal(Seq::filter);
            }
            assert(orig.take(j + 1).filter(pred) == (if pred(orig[j]) {
                f.push(orig[j])
            } else {
                f
            }));
            if keep {
                assert(orig.take(j + 1).filter(pred) == f.push(orig[j]));
                assert(self.rooms@ =~= f.push(orig[j]) + orig.skip(j + 1));
                i = i + 1;
            } else {
                assert(orig.take(j + 1).filter(pred) == f);
                let ghost before = self.rooms@;
                self.rooms.remove(i);
                assert(forall|k: int|
                    0 <= k < self.rooms@.len() ==> #[trigger] self.rooms@[k] == before[if k < i {
                        k
                    } else {
                        k + 1
                    }]);
                assert(self.rooms@ =~= f + orig.skip(j + 1));
            }
            proof {
                j = j + 1;
            }
            assert(self.rooms@ == orig.take(j).filter(pred) + orig.skip(j));
        }
        assert(orig.skip(j) == Seq::<Room>::empty());
        assert(orig.take(j) == orig);
    }
}

/// What `str::to_uppercase` makes of a string.
pub uninterp spec fn uppercase_of(s: Seq<char>) -> Seq<char>;

/// Whether every character of `s` is ASCII.
pub open spec fn all_ascii(s: Seq<char>) -> bool {
    forall|i: int| 0 <= i < s.len() ==> (s[i] as u32) < 128
}

/// The ASCII upper case of a character: `a` to `z` become `A` to `Z`, any other
/// character stays.
pub open spec fn ascii_upper(c: char) -> char {
    if 'a' <= c <= 'z' {
        ((c as u32) - 32) as char
    } else {
        c
    }
}

/// Relies on `str::to_uppercase`: the result depends on the characters alone,
/// and on ASCII text it maps `a` to `z` onto `A` to `Z` and keeps every other
/// character.
#[verifier::external_body]
fn to_uppercase(s: &str) -> (r: String)
    ensures
        r@ == uppercase_of(s@),
        all_ascii(s@) ==> r@.len() == s@.len() && forall|i: int|
            0 <= i < s@.len() ==> r@[i] == ascii_upper(#[trigger] s@[i]),
{
    s.to_uppercase()
}

fn upsert_role(roles: &mut Vec<(ClientId, GameRole)>, id: ClientId, role: GameRole)
    requires
        roles_unique(old(roles)@),
    ensures
        role_upserted(old(roles)@, final(roles)@, id, role),
        roles_unique(final(roles)@),
{
    let mut i: usize = 0;
    while i < roles.len()
        invariant
            i <= roles@.len(),
            roles@ == old(roles)@,
            roles_unique(roles@),
            forall|k: int| 0 <= k < i ==> roles@[k].0 != id,
        decreases roles@.len() - i,
    {
        if roles[i].0 == id {
            let entry = &mut roles[i];
            entry.1 = role;
            return ;
        }
        i = i + 1;
    }
    roles.push((id, role));
}

fn settle(roles: &Vec<(ClientId, GameRole)>, coin: bool) -> (r: Vec<(ClientId, GameRole)>)
    requires
        roles@.len() == 2,
    ensures
        r@ == settle_roles(roles@, coin),
{
    let mut r: Vec<(ClientId, GameRole)> = Vec::new();
    if roles[0].1 == roles[1].1 {
        if coin {
            r.push((roles[0].0, GameRole::Solver));
            r.push((roles[1].0, GameRole::Dispatcher));
        } else {
            r.push((roles[0].0, GameRole::Dispatcher));
            r.push((roles[1].0, GameRole::Solver));
        }
    } else {
        r.push(roles[0]);
        r.push(roles[1]);
        assert(r@ =~= roles@);
    }
    proof {
        if roles@[0].1 == roles@[1].1 {
            if coin {
                assert(r@ =~= seq![(roles@[0].0, GameRole::Solver), (roles@[1].0, GameRole::Dispatcher)]);
            } else {
                assert(r@ =~= seq![(roles@[0].0, GameRole::Dispatcher), (roles@[1].0, GameRole::Solver)]);
            }
        }
    }
    r
}

fn error_to(id: ClientId, e: ServerError) -> (r: Vec<Outgoing>)
    ensures
        is_error_to(r@, id, e),
{
    let mut out: Vec<Outgoing> = Vec::new();
    out.push((id, ServerMessage::Error(error_message(e))));
    out
}

/// Whether candidate `k` can become the code of a new room: it is a room code
/// and no active room has it.
pub open spec fn code_usable(rooms: Seq<Room>, cands: Seq<String>, k: int) -> bool {
    &&& 0 <= k < cands.len()
    &&& is_room_code(cands[k]@)
    &&& forall|r: int| 0 <= r < rooms.len() ==> rooms[r].code@ != cands[k]@
}

/// What `CreateRoom` from `id` does when the random codes drawn are `cands`: the
/// first usable candidate becomes the code of a new room in role selection whose
/// only slot is the client's.
pub open spec fn create_room_post(
    old: ServerState,
    new: ServerState,
    id: ClientId,
    cands: Seq<String>,
    out: Seq<Outgoing>,
) -> bool {
    forall|ci: int|
        0 <= ci < old.clients@.len() && #[trigger] old.clients@[ci].id == id ==> {
            let c = old.clients@[ci];
            if c.room is Some {
                is_error_to(out, id, ServerError::ProtocolViolation) && new == old
            } else if forall|k: int| !code_usable(old.rooms@, cands, k) {
                is_error_to(out, id, ServerError::CodesExhausted) && new == old
            } else {
                forall|k: int|
                    #[trigger] code_usable(old.rooms@, cands, k) && (forall|j: int|
                        0 <= j < k ==> !code_usable(old.rooms@, cands, j)) ==> {
                        &&& new.test == old.test
                        &&& new.next_id == old.next_id
                        &&& new.rooms@.len() == old.rooms@.len() + 1
                        &&& new.rooms@.drop_last() == old.rooms@
                        &&& new.rooms@.last().code == cands[k]
                        &&& new.rooms@.last().players@ == seq![(id, c.token)]
                        &&& new.rooms@.last().state matches RoomState::RoleSelection { roles }
                            && roles@.len() == 0
                        &&& new.clients@ == old.clients@.update(
                            ci,
                            Client { id, token: c.token, room: Some(cands[k]) },
                        )
                        &&& out.len() == 1
                        &&& out[0].0 == id
                        &&& out[0].1 matches ServerMessage::RoomJoined(info) && info.code@
                            == cands[k]@ && info.players == 1
                    }
            }
        }
}

impl ServerState {
    /// `CreateRoom` from `client_id`, with `candidates` as the codes to try in turn.
    pub fn create_room_with(&mut self, client_id: ClientId, candidates: &Vec<String>) -> (r: Vec<
        Outgoing,
    >)
        requires
            old(self).wf(),
            old(self).has_client_spec(client_id),
        ensures
            final(self).wf(),
            create_room_post(*old(self), *final(self), client_id, candidates@, r@),
    {
        let ci = match self.find_client(client_id) {
            Some(ci) => ci,
            None => {
                return Vec::new();
            },
        };
        if self.clients[ci].room.is_some() {
            return error_to(client_id, ServerError::ProtocolViolation);
        }
        let mut k: usize = 0;
        while k < candidates.len()
            invariant
                *self == *old(self),
                self.wf(),
                k <= candidates@.len(),
                ci < self.clients@.len(),
                self.clients@[ci as int].id == client_id,
                self.clients@[ci as int].room is None,
                forall|j: int| 0 <= j < k ==> !code_usable(self.rooms@, candidates@, j),
            decreases candidates@.len() - k,
        {
            let code = &candidates[k];
            if check_room_code(code) && self.find_room(code).is_none() {
                assert(code_usable(self.rooms@, candidates@, k as int));
                let token = self.clients[ci].token.clone();
                let mut room = Room::new(code.clone());
                room.players.push((client_id, token.clone()));
                let mut out: Vec<Outgoing> = Vec::new();
                out.push((client_id, ServerMessage::RoomJoined(room.info())));
                self.rooms.push(room);
                let cl = &mut self.clients[ci];
                cl.room = Some(code.clone());
                proof {
                    assert(self.rooms@.last().players@ =~= seq![(client_id, old(self).clients@[ci as int].token)]);
                    assert(forall|cj: int|
                        0 <= cj < old(self).clients@.len() && old(self).clients@[cj].id == client_id
                            ==> cj == ci);
                    let c = old(self).clients@[ci as int];
                    assert forall|kk: int|
                        #[trigger] code_usable(old(self).rooms@, candidates@, kk) && (forall|j: int|
                            0 <= j < kk ==> !code_usable(old(self).rooms@, candidates@, j)) implies {
                        &&& self.test == old(self).test
                        &&& self.next_id == old(self).next_id
                        &&& self.rooms@.len() == old(self).rooms@.len() + 1
                        &&& self.rooms@.drop_last() == old(self).rooms@
                        &&& self.rooms@.last().code == candidates@[kk]
                        &&& self.rooms@.last().players@ == seq![(client_id, c.token)]
                        &&& self.rooms@.last().state matches RoomState::RoleSelection { roles }
                            && roles@.len() == 0
                        &&& self.clients@ == old(self).clients@.update(
                            ci as int,
                            Client { id: client_id, token: c.token, room: Some(candidates@[kk]) },
                        )
                        &&& out@.len() == 1
                        &&& out@[0].0 == client_id
                        &&& out@[0].1 matches ServerMessage::RoomJoined(info) && info.code@
                            == candidates@[kk]@ && info.players == 1
                    } by {
                        if kk < k {
                            assert(!code_usable(old(self).rooms@, candidates@, kk));
                        }
                        if kk > k {
                            assert(!code_usable(old(self).rooms@, candidates@, k as int));
                        }
                    }
                }
                return out;
            }
            k = k + 1;
        }
        error_to(client_id, ServerError::CodesExhausted)
    }
}

/// The registry after client `ci` took a slot in room `r`, whose slots become
/// `players`; the client now belongs to the room with code `code`.
pub open spec fn seated(
    old: ServerState,
    new: ServerState,
    ci: int,
    r: int,
    players: Seq<(ClientId, String)>,
    code: Seq<char>,
) -> bool {
    &&& new.test == old.test
    &&& new.next_id == old.next_id
    &&& new.rooms@.len() == old.rooms@.len()
    &&& forall|k: int| 0 <= k < old.rooms@.len() && k != r ==> new.rooms@[k] == old.rooms@[k]
    &&& new.rooms@[r].code == old.rooms@[r].code
    &&& new.rooms@[r].players@ == players
    &&& new.rooms@[r].state == old.rooms@[r].state
    &&& new.clients@.len() == old.clients@.len()
    &&& forall|k: int| 0 <= k < old.clients@.len() && k != ci ==> new.clients@[k] == old.clients@[k]
    &&& new.clients@[ci].id == old.clients@[ci].id
    &&& new.clients@[ci].token == old.clients@[ci].token
    &&& new.clients@[ci].room matches Some(s) && s@ == code
}

/// Whether `m` is a `RoomJoined` for the room `code` with `n` players.
pub open spec fn is_room_joined(m: ServerMessage, code: Seq<char>, n: int) -> bool {
    m matches ServerMessage::RoomJoined(info) && info.code@ == code && info.players == n
}

/// What `JoinRoom` with the (already upper-cased) `code` from `id` does: a room
/// in role selection with a free slot takes the client; a room whose game started
/// takes the client back into the first slot holding its token, and sends it the
/// room's puzzle progress; anything else is an error with no change.
pub open spec fn join_room_post(
    old: ServerState,
    new: ServerState,
    id: ClientId,
    code: Seq<char>,
    out: Seq<Outgoing>,
) -> bool {
    forall|ci: int|
        0 <= ci < old.clients@.len() && #[trigger] old.clients@[ci].id == id ==> {
            let c = old.clients@[ci];
            &&& (forall|r: int| 0 <= r < old.rooms@.len() ==> old.rooms@[r].code@ != code) ==> (
            is_error_to(out, id, ServerError::RoomNotFound) && new == old)
            &&& forall|r: int|
                0 <= r < old.rooms@.len() && #[trigger] old.rooms@[r].code@ == code ==> {
                    let room = old.rooms@[r];
                    match room.state {
                        RoomState::RoleSelection { .. } => if room.players@.len() < ROOM_CAPACITY {
                            &&& seated(old, new, ci, r, room.players@.push((id, c.token)), code)
                            &&& out.len() == 1
                            &&& out[0].0 == id
                            &&& is_room_joined(out[0].1, code, room.players@.len() + 1int)
                        } else {
                            is_error_to(out, id, ServerError::RoomFull) && new == old
                        },
                        RoomState::Game(st) => if exists|p: int|
                            first_slot_with(room.players@, c.token@, p) {
                            forall|p: int|
                                #[trigger] first_slot_with(room.players@, c.token@, p) ==> {
                                    &&& seated(
                                        old,
                                        new,
                                        ci,
                                        r,
                                        room.players@.update(p, (id, room.players@[p].1)),
                                        code,
                                    )
                                    &&& out.len() == 3
                                    &&& out[0].0 == id
                                    &&& is_room_joined(out[0].1, code, room.players@.len() as int)
                                    &&& out[1] == (id, ServerMessage::SyncSolverState(st.solver))
                                    &&& out[2] == (
                                        id,
                                        ServerMessage::SyncDispatcherState(st.dispatcher),
                                    )
                                }
                        } else {
                            is_error_to(out, id, ServerError::AlreadyInProgress) && new == old
                        },
                    }
                }
        }
}

impl ServerState {
    /// `JoinRoom` from `client_id` for a code already in upper case.
    pub fn join_room_upper(&mut self, client_id: ClientId, code: &String) -> (r: Vec<Outgoing>)
        requires
            old(self).wf(),
            old(self).has_client_spec(client_id),
        ensures
            final(self).wf(),
            join_room_post(*old(self), *final(self), client_id, code@, r@),
    {
        let ci = match self.find_client(client_id) {
            Some(ci) => ci,
            None => {
                return Vec::new();
            },
        };
        proof {
            assert(forall|cj: int|
                0 <= cj < old(self).clients@.len() && old(self).clients@[cj].id == client_id ==> cj
                    == ci);
        }
        let ri = match self.find_room(code) {
            Some(ri) => ri,
            None => {
                return error_to(client_id, ServerError::RoomNotFound);
            },
        };
        proof {
            assert(forall|rj: int|
                0 <= rj < old(self).rooms@.len() && old(self).rooms@[rj].code@ == code@ ==> rj
                    == ri);
            assert(self.rooms@[ri as int].wf());
        }
        let token = self.clients[ci].token.clone();
        let game = match &self.rooms[ri].state {
            RoomState::RoleSelection { .. } => None,
            RoomState::Game(st) => Some(*st),
        };
        match game {
            None => {
                if self.rooms[ri].players.len() < ROOM_CAPACITY {
                    let room = &mut self.rooms[ri];
                    room.players.push((client_id, token));
                    let mut out: Vec<Outgoing> = Vec::new();
                    out.push((client_id, ServerMessage::RoomJoined(room.info())));
                    let cl = &mut self.clients[ci];
                    cl.room = Some(code.clone());
                    out
                } else {
                    error_to(client_id, ServerError::RoomFull)
                }
            },
            Some(st) => {
                match find_slot(&self.rooms[ri].players, &token) {
                    Some(p) => {
                        let room = &mut self.rooms[ri];
                        let slot = &mut room.players[p];
                        slot.0 = client_id;
                        let mut out: Vec<Outgoing> = Vec::new();
                        out.push((client_id, ServerMessage::RoomJoined(room.info())));
                        out.push((client_id, ServerMessage::SyncSolverState(st.solver)));
                        out.push((client_id, ServerMessage::SyncDispatcherState(st.dispatcher)));
                        let cl = &mut self.clients[ci];
                        cl.room = Some(code.clone());
                        proof {
                            assert(forall|q: int|
                                #[trigger] first_slot_with(old(self).rooms@[ri as int].players@, token@, q) ==> q == p);
                        }
                        out
                    },
                    None => error_to(client_id, ServerError::AlreadyInProgress),
                }
            },
        }
    }
}

/// Whether the client `c` belongs to room `r`.
pub open spec fn in_room(rooms: Seq<Room>, c: Client, r: int) -> bool {
    &&& 0 <= r < rooms.len()
    &&& c.room is Some
    &&& rooms[r].code@ == c.room->0@
}

/// Whether `g` is the progress of a game that just started.
pub open spec fn fresh_game(g: RoomGameState) -> bool {
    g.dispatcher == DispatcherState::initial() && g.solver == SolverState::initial()
}

/// What `SelectRole(role)` from `id` does, when the coin tossed to settle equal
/// choices shows `coin`: the client's choice is recorded, last call winning;
/// once every slot of a two-player room has chosen, the game starts with one
/// player in each role.
pub open spec fn select_role_post(
    old: ServerState,
    new: ServerState,
    id: ClientId,
    role: GameRole,
    coin: bool,
    out: Seq<Outgoing>,
) -> bool {
    forall|ci: int|
        0 <= ci < old.clients@.len() && #[trigger] old.clients@[ci].id == id ==> {
            let c = old.clients@[ci];
            &&& (forall|r: int| !in_room(old.rooms@, c, r)) ==> (is_error_to(
                out,
                id,
                ServerError::ProtocolViolation,
            ) && new == old)
            &&& forall|r: int| #[trigger]
                in_room(old.rooms@, c, r) ==> {
                    let room = old.rooms@[r];
                    match room.state {
                        RoomState::Game(_) => is_error_to(out, id, ServerError::ProtocolViolation)
                            && new == old,
                        RoomState::RoleSelection { roles } => forall|chosen: Seq<(ClientId, GameRole)>|
                            #[trigger] role_upserted(roles@, chosen, id, role) ==> {
                                let n = room.players@.len();
                                &&& new.test == old.test
                                &&& new.next_id == old.next_id
                                &&& new.clients@ == old.clients@
                                &&& new.rooms@.len() == old.rooms@.len()
                                &&& forall|k: int|
                                    0 <= k < old.rooms@.len() && k != r ==> new.rooms@[k]
                                        == old.rooms@[k]
                                &&& new.rooms@[r].code == room.code
                                &&& new.rooms@[r].players == room.players
                                &&& if chosen.len() == n && n == 2 {
                                    &&& new.rooms@[r].state matches RoomState::Game(g) && fresh_game(g)
                                    &&& out == start_messages(
                                        old.clients@,
                                        room.players@,
                                        settle_roles(chosen, coin),
                                    )
                                } else if old.test && chosen.len() == n && n == 1
                                    && client_connected(old.clients@, room.players@[0].0) {
                                    &&& new.rooms@[r].state matches RoomState::Game(g) && fresh_game(g)
                                    &&& out == seq![
                                        (room.players@[0].0, ServerMessage::StartGame(chosen[0].1)),
                                    ]
                                } else {
                                    &&& new.rooms@[r].state matches RoomState::RoleSelection {
                                        roles: new_roles,
                                    } && new_roles@ == chosen
                                    &&& out.len() == 0
                                }
                            },
                    }
                }
        }
}

impl ServerState {
    /// `SelectRole(role)` from `client_id`, with `coin` settling equal choices.
    pub fn select_role_with(&mut self, client_id: ClientId, role: GameRole, coin: bool) -> (r: Vec<
        Outgoing,
    >)
        requires
            old(self).wf(),
            old(self).has_client_spec(client_id),
        ensures
            final(self).wf(),
            select_role_post(*old(self), *final(self), client_id, role, coin, r@),
    {
        let ci = match self.find_client(client_id) {
            Some(ci) => ci,
            None => {
                return Vec::new();
            },
        };
        proof {
            assert(forall|cj: int|
                0 <= cj < old(self).clients@.len() && old(self).clients@[cj].id == client_id ==> cj
                    == ci);
        }
        let ri = match &self.clients[ci].room {
            None => {
                return error_to(client_id, ServerError::ProtocolViolation);
            },
            Some(code) => match self.find_room(code) {
                Some(ri) => ri,
                None => {
                    return error_to(client_id, ServerError::ProtocolViolation);
                },
            },
        };
        proof {
            let c = old(self).clients@[ci as int];
            assert(forall|rj: int| in_room(old(self).rooms@, c, rj) ==> rj == ri);
            assert(self.rooms@[ri as int].wf());
        }
        let selecting = match &self.rooms[ri].state {
            RoomState::RoleSelection { .. } => true,
            RoomState::Game(_) => false,
        };
        if !selecting {
            return error_to(client_id, ServerError::ProtocolViolation);
        }
        let ghost chosen: Seq<(ClientId, GameRole)>;
        let n = self.rooms[ri].players.len();
        let count: usize;
        {
            let room = &mut self.rooms[ri];
            match &mut room.state {
                RoomState::RoleSelection { roles } => {
                    upsert_role(roles, client_id, role);
                    proof {
                        chosen = roles@;
                    }
                    count = roles.len();
                },
                RoomState::Game(_) => {
                    proof {
                        chosen = Seq::empty();
                    }
                    count = 0;
                },
            }
        }
        assert(self.rooms@[ri as int].wf());
        let mut out: Vec<Outgoing> = Vec::new();
        if count == n && n == 2 {
            let settled = match &self.rooms[ri].state {
                RoomState::RoleSelection { roles } => settle(roles, coin),
                RoomState::Game(_) => Vec::new(),
            };
            out = start_game_messages(&self.clients, &self.rooms[ri].players, &settled);
            let room = &mut self.rooms[ri];
            room.state = RoomState::Game(RoomGameState::new());
        } else if self.test && count == n && n == 1 {
            let first = self.rooms[ri].players[0].0;
            if is_connected(&self.clients, first) {
                let chosen_role = match &self.rooms[ri].state {
                    RoomState::RoleSelection { roles } => roles[0].1,
                    RoomState::Game(_) => role,
                };
                out.push((first, ServerMessage::StartGame(chosen_role)));
                let room = &mut self.rooms[ri];
                room.state = RoomState::Game(RoomGameState::new());
            }
        }
        proof {
            let room0 = old(self).rooms@[ri as int];
            assert forall|ch: Seq<(ClientId, GameRole)>|
                #[trigger] role_upserted(room0.state->roles@, ch, client_id, role) implies ch == chosen by {
                lemma_upsert_determined(room0.state->roles@, ch, chosen, client_id, role);
            }
            assert(in_room(old(self).rooms@, old(self).clients@[ci as int], ri as int));
        }
        out
    }
}

proof fn lemma_upsert_determined(
    roles: Seq<(ClientId, GameRole)>,
    a: Seq<(ClientId, GameRole)>,
    b: Seq<(ClientId, GameRole)>,
    id: ClientId,
    role: GameRole,
)
    requires
        role_upserted(roles, a, id, role),
        role_upserted(roles, b, id, role),
    ensures
        a == b,
{
    if exists|i: int| 0 <= i < roles.len() && roles[i].0 == id {
        let i = choose|i: int| 0 <= i < roles.len() && roles[i].0 == id;
        assert(a == roles.update(i, (id, role)));
        assert(b == roles.update(i, (id, role)));
    }
}

/// Choosing a role twice is the same as choosing the second one only: the last
/// call wins.
pub proof fn lemma_last_role_choice_wins(
    roles: Seq<(ClientId, GameRole)>,
    once: Seq<(ClientId, GameRole)>,
    twice: Seq<(ClientId, GameRole)>,
    direct: Seq<(ClientId, GameRole)>,
    id: ClientId,
    first: GameRole,
    second: GameRole,
)
    requires
        roles_unique(roles),
        role_upserted(roles, once, id, first),
        role_upserted(once, twice, id, second),
        role_upserted(roles, direct, id, second),
    ensures
        twice == direct,
{
    if exists|i: int| 0 <= i < roles.len() && roles[i].0 == id {
        let i = choose|i: int| 0 <= i < roles.len() && roles[i].0 == id;
        assert(once == roles.update(i, (id, first)));
        assert(once[i].0 == id);
        assert(twice == once.update(i, (id, second)));
        assert(direct == roles.update(i, (id, second)));
        assert(twice =~= direct);
    } else {
        assert(once[roles.len() as int].0 == id);
        assert(twice =~= direct);
    }
}

/// Once a room's game has started, choosing a role changes nothing: the game
/// starts only once.
pub proof fn lemma_game_starts_once(
    old: ServerState,
    new: ServerState,
    id: ClientId,
    role: GameRole,
    coin: bool,
    out: Seq<Outgoing>,
    ci: int,
    r: int,
)
    requires
        old.wf(),
        0 <= ci < old.clients@.len(),
        old.clients@[ci].id == id,
        in_room(old.rooms@, old.clients@[ci], r),
        old.rooms@[r].state is Game,
        select_role_post(old, new, id, role, coin, out),
    ensures
        new == old,
        is_error_to(out, id, ServerError::ProtocolViolation),
{
}

/// In a two-player room where only the other player has chosen, choosing a role
/// starts the game, and each player learns its role.
pub proof fn lemma_game_starts_when_all_chose(
    old: ServerState,
    new: ServerState,
    id: ClientId,
    role: GameRole,
    coin: bool,
    out: Seq<Outgoing>,
    ci: int,
    r: int,
)
    requires
        old.wf(),
        0 <= ci < old.clients@.len(),
        old.clients@[ci].id == id,
        in_room(old.rooms@, old.clients@[ci], r),
        old.rooms@[r].players@.len() == 2,
        old.rooms@[r].state matches RoomState::RoleSelection { roles } && roles@.len() == 1
            && roles@[0].0 != id,
        select_role_post(old, new, id, role, coin, out),
    ensures
        new.rooms@[r].state matches RoomState::Game(g) && fresh_game(g),
        out == start_messages(
            old.clients@,
            old.rooms@[r].players@,
            settle_roles(old.rooms@[r].state->roles@.push((id, role)), coin),
        ),
{
    let roles = old.rooms@[r].state->roles@;
    assert(role_upserted(roles, roles.push((id, role)), id, role));
}

/// When a two-player room starts its game, its players hold different roles.
pub proof fn lemma_settled_roles_differ(roles: Seq<(ClientId, GameRole)>, coin: bool)
    requires
        roles.len() == 2,
    ensures
        settle_roles(roles, coin).len() == 2,
        settle_roles(roles, coin)[0].0 == roles[0].0,
        settle_roles(roles, coin)[1].0 == roles[1].0,
        settle_roles(roles, coin)[0].1 != settle_roles(roles, coin)[1].1,
{
}

/// A piece of game state that one peer hands to the other through the server.
#[derive(Debug, Clone, Copy)]
pub enum Relayed {
    Dispatcher(DispatcherState),
    Solver(SolverState),
    Player(Player),
}

pub open spec fn relayed_message(r: Relayed) -> ServerMessage {
    match r {
        Relayed::Dispatcher(d) => ServerMessage::SyncDispatcherState(d),
        Relayed::Solver(s) => ServerMessage::SyncSolverState(s),
        Relayed::Player(p) => ServerMessage::SyncSolverPlayer(p),
    }
}

/// The room's progress after a relay: a peer's half of the shared truth is
/// overwritten, a live player snapshot is not stored.
pub open spec fn stored_after(st: RoomGameState, r: Relayed) -> RoomGameState {
    match r {
        Relayed::Dispatcher(d) => RoomGameState { dispatcher: d, solver: st.solver },
        Relayed::Solver(s) => RoomGameState { dispatcher: st.dispatcher, solver: s },
        Relayed::Player(_) => st,
    }
}

fn relay_to(clients: &Vec<Client>, players: &Vec<(ClientId, String)>, sender: ClientId, r: Relayed) -> (out: Vec<Outgoing>)
    ensures
        out@ == recipients(clients@, players@, sender).map_values(
            |p: ClientId| (p, relayed_message(r)),
        ),
{
    let targets = connected_recipients(clients, players, sender);
    let mut out: Vec<Outgoing> = Vec::new();
    let mut i: usize = 0;
    while i < targets.len()
        invariant
            i <= targets@.len(),
            out@ == targets@.take(i as int).map_values(|p: ClientId| (p, relayed_message(r))),
        decreases targets@.len() - i,
    {
        let m = match r {
            Relayed::Dispatcher(d) => ServerMessage::SyncDispatcherState(d),
            Relayed::Solver(s) => ServerMessage::SyncSolverState(s),
            Relayed::Player(p) => ServerMessage::SyncSolverPlayer(p),
        };
        out.push((targets[i], m));
        assert(targets@.take(i + 1) == targets@.take(i as int).push(targets@[i as int]));
        assert(out@ =~= targets@.take(i + 1).map_values(|p: ClientId| (p, relayed_message(r))));
        i = i + 1;
    }
    assert(targets@.take(targets@.len() as int) == targets@);
    out
}

/// What relaying `r` from `id` does: in a room whose game started, the room keeps
/// `r` as its latest progress and forwards it, unchanged, to the other connected
/// players (never back to the sender); anywhere else it is an error.
pub open spec fn sync_post(
    old: ServerState,
    new: ServerState,
    id: ClientId,
    r: Relayed,
    out: Seq<Outgoing>,
) -> bool {
    forall|ci: int|
        0 <= ci < old.clients@.len() && #[trigger] old.clients@[ci].id == id ==> {
            let c = old.clients@[ci];
            &&& (forall|k: int| !(in_room(old.rooms@, c, k) && old.rooms@[k].state is Game)) ==> (
            is_error_to(out, id, ServerError::ProtocolViolation) && new == old)
            &&& forall|k: int| #[trigger]
                in_room(old.rooms@, c, k) && old.rooms@[k].state is Game ==> {
                    let room = old.rooms@[k];
                    &&& new.test == old.test
                    &&& new.next_id == old.next_id
                    &&& new.clients@ == old.clients@
                    &&& new.rooms@.len() == old.rooms@.len()
                    &&& forall|j: int|
                        0 <= j < old.rooms@.len() && j != k ==> new.rooms@[j] == old.rooms@[j]
                    &&& new.rooms@[k].code == room.code
                    &&& new.rooms@[k].players == room.players
                    &&& new.rooms@[k].state matches RoomState::Game(g) && g == stored_after(
                        room.state->Game_0,
                        r,
                    )
                    &&& out == recipients(old.clients@, room.players@, id).map_values(
                        |p: ClientId| (p, relayed_message(r)),
                    )
                }
        }
}

impl ServerState {
    fn sync(&mut self, client_id: ClientId, r: Relayed) -> (out: Vec<Outgoing>)
        requires
            old(self).wf(),
            old(self).has_client_spec(client_id),
        ensures
            final(self).wf(),
            sync_post(*old(self), *final(self), client_id, r, out@),
    {
        let ci = match self.find_client(client_id) {
            Some(ci) => ci,
            None => {
                return Vec::new();
            },
        };
        proof {
            assert(forall|cj: int|
                0 <= cj < old(self).clients@.len() && old(self).clients@[cj].id == client_id ==> cj
                    == ci);
        }
        let ri = match &self.clients[ci].room {
            None => {
                return error_to(client_id, ServerError::ProtocolViolation);
            },
            Some(code) => match self.find_room(code) {
                Some(ri) => ri,
                None => {
                    return error_to(client_id, ServerError::ProtocolViolation);
                },
            },
        };
        proof {
            let c = old(self).clients@[ci as int];
            assert(forall|rj: int| in_room(old(self).rooms@, c, rj) ==> rj == ri);
            assert(in_room(old(self).rooms@, c, ri as int));
            assert(self.rooms@[ri as int].wf());
        }
        let st = match &self.rooms[ri].state {
            RoomState::RoleSelection { .. } => {
                return error_to(client_id, ServerError::ProtocolViolation);
            },
            RoomState::Game(st) => *st,
        };
        let out = relay_to(&self.clients, &self.rooms[ri].players, client_id, r);
        let updated = match r {
            Relayed::Dispatcher(d) => RoomGameState { dispatcher: d, solver: st.solver },
            Relayed::Solver(s) => RoomGameState { dispatcher: st.dispatcher, solver: s },
            Relayed::Player(_) => st,
        };
        let room = &mut self.rooms[ri];
        room.state = RoomState::Game(updated);
        out
    }
}

/// What `Login(token)` from `id` does: the client takes `token` as its
/// reconnection token and is told so.
pub open spec fn login_post(
    old: ServerState,
    new: ServerState,
    id: ClientId,
    token: String,
    out: Seq<Outgoing>,
) -> bool {
    forall|ci: int|
        0 <= ci < old.clients@.len() && #[trigger] old.clients@[ci].id == id ==> {
            &&& new.test == old.test
            &&& new.next_id == old.next_id
            &&& new.rooms@ == old.rooms@
            &&& new.clients@ == old.clients@.update(
                ci,
                Client { id, token, room: old.clients@[ci].room },
            )
            &&& out.len() == 1
            &&& out[0].0 == id
            &&& out[0].1 matches ServerMessage::YourToken(t) && t@ == token@
        }
}

/// What a message from client `id` does. Where the server draws random values
/// (room codes, the coin that settles equal role choices) the outcome is the one
/// for some drawn value.
pub open spec fn message_post(
    old: ServerState,
    new: ServerState,
    id: ClientId,
    message: ClientMessage,
    out: Seq<Outgoing>,
) -> bool {
    match message {
        ClientMessage::Pong => new == old && out == seq![(id, ServerMessage::Ping)],
        ClientMessage::Login(token) => login_post(old, new, id, token, out),
        ClientMessage::CreateRoom => exists|cands: Seq<String>|
            {
                &&& cands.len() == CODE_ATTEMPTS
                &&& forall|k: int| 0 <= k < cands.len() ==> is_room_code(#[trigger] cands[k]@)
                &&& create_room_post(old, new, id, cands, out)
            },
        ClientMessage::JoinRoom(code) => join_room_post(old, new, id, uppercase_of(code@), out),
        ClientMessage::SelectRole(role) => exists|coin: bool|
            select_role_post(old, new, id, role, coin, out),
        ClientMessage::SyncDispatcherState(d) => sync_post(old, new, id, Relayed::Dispatcher(d), out),
        ClientMessage::SyncSolverState(st) => sync_post(old, new, id, Relayed::Solver(st), out),
        ClientMessage::SyncSolverPlayer(p) => sync_post(old, new, id, Relayed::Player(p), out),
    }
}

impl ServerState {
    /// Handles one message from a connected client and returns what to send.
    pub fn handle_message(&mut self, client_id: ClientId, message: ClientMessage) -> (out: Vec<
        Outgoing,
    >)
        requires
            old(self).wf(),
            old(self).has_client_spec(client_id),
        ensures
            final(self).wf(),
            message_post(*old(self), *final(self), client_id, message, out@),
    {
        match message {
            ClientMessage::Pong => {
                let mut out: Vec<Outgoing> = Vec::new();
                out.push((client_id, ServerMessage::Ping));
                assert(out@ =~= seq![(client_id, ServerMessage::Ping)]);
                out
            },
            ClientMessage::Login(token) => {
                let ci = match self.find_client(client_id) {
                    Some(ci) => ci,
                    None => {
                        return Vec::new();
                    },
                };
                proof {
                    assert(forall|cj: int|
                        0 <= cj < old(self).clients@.len() && old(self).clients@[cj].id == client_id
                            ==> cj == ci);
                }
                let mut out: Vec<Outgoing> = Vec::new();
                out.push((client_id, ServerMessage::YourToken(token.clone())));
                let cl = &mut self.clients[ci];
                cl.token = token;
                out
            },
            ClientMessage::CreateRoom => {
                let mut cands: Vec<String> = Vec::new();
                let mut k: usize = 0;
                while k < CODE_ATTEMPTS
                    invariant
                        k <= CODE_ATTEMPTS,
                        cands@.len() == k,
                        forall|j: int| 0 <= j < cands@.len() ==> is_room_code(#[trigger] cands@[j]@),
                    decreases CODE_ATTEMPTS - k,
                {
                    let code = random_chars('A', 'Z', CODE_LEN);
                    cands.push(code);
                    k = k + 1;
                }
                let out = self.create_room_with(client_id, &cands);
                assert(cands@.len() == CODE_ATTEMPTS);
                out
            },
            ClientMessage::JoinRoom(code) => {
                let upper = to_uppercase(code.as_str());
                self.join_room_upper(client_id, &upper)
            },
            ClientMessage::SelectRole(role) => {
                let coin = random_bool();
                self.select_role_with(client_id, role, coin)
            },
            ClientMessage::SyncDispatcherState(d) => self.sync(client_id, Relayed::Dispatcher(d)),
            ClientMessage::SyncSolverState(st) => self.sync(client_id, Relayed::Solver(st)),
            ClientMessage::SyncSolverPlayer(p) => self.sync(client_id, Relayed::Player(p)),
        }
    }
}

/// A room created by `CreateRoom` has a code of four letters from `A` to `Z`
/// that no room active before had.
pub proof fn lemma_new_room_code_fresh(
    old: ServerState,
    new: ServerState,
    id: ClientId,
    cands: Seq<String>,
    out: Seq<Outgoing>,
)
    requires
        old.wf(),
        old.has_client_spec(id),
        create_room_post(old, new, id, cands, out),
        new.rooms@.len() == old.rooms@.len() + 1,
    ensures
        is_room_code(new.rooms@.last().code@),
        forall|r: int| 0 <= r < old.rooms@.len() ==> old.rooms@[r].code@ != new.rooms@.last().code@,
{
    let ci = choose|ci: int| 0 <= ci < old.clients@.len() && old.clients@[ci].id == id;
    assert(old.clients@[ci].id == id);
    let c = old.clients@[ci];
    assert(c.room is None);
    assert(exists|k: int| code_usable(old.rooms@, cands, k));
    let k0 = choose|k: int| code_usable(old.rooms@, cands, k);
    lemma_first_usable(old.rooms@, cands, k0);
    let k = choose|k: int|
        code_usable(old.rooms@, cands, k) && (forall|j: int| 0 <= j < k ==> !code_usable(old.rooms@, cands, j));
    assert(code_usable(old.rooms@, cands, k));
}

proof fn lemma_first_usable(rooms: Seq<Room>, cands: Seq<String>, k0: int)
    requires
        code_usable(rooms, cands, k0),
    ensures
        exists|k: int|
            code_usable(rooms, cands, k) && (forall|j: int| 0 <= j < k ==> !code_usable(rooms, cands, j)),
    decreases k0,
{
    if exists|j: int| 0 <= j < k0 && code_usable(rooms, cands, j) {
        let j = choose|j: int| 0 <= j < k0 && code_usable(rooms, cands, j);
        lemma_first_usable(rooms, cands, j);
    }
}

/// A client that reconnects to a game after its partner relayed the solver's
/// progress receives exactly that progress, together with the dispatcher's
/// progress the room held.
pub proof fn lemma_reconnect_sees_latest(
    s0: ServerState,
    s1: ServerState,
    s2: ServerState,
    sender: ClientId,
    joiner: ClientId,
    progress: SolverState,
    code: Seq<char>,
    out1: Seq<Outgoing>,
    out2: Seq<Outgoing>,
    k: int,
)
    requires
        s0.wf(),
        s1.wf(),
        exists|ca: int|
            0 <= ca < s0.clients@.len() && s0.clients@[ca].id == sender && #[trigger] in_room(
                s0.rooms@,
                s0.clients@[ca],
                k,
            ),
        s0.rooms@[k].state is Game,
        s0.rooms@[k].code@ == code,
        sync_post(s0, s1, sender, Relayed::Solver(progress), out1),
        exists|cb: int, p: int|
            0 <= cb < s1.clients@.len() && s1.clients@[cb].id == joiner && #[trigger] first_slot_with(
                s1.rooms@[k].players@,
                s1.clients@[cb].token@,
                p,
            ),
        join_room_post(s1, s2, joiner, code, out2),
    ensures
        out2.len() == 3,
        out2[1] == (joiner, ServerMessage::SyncSolverState(progress)),
        out2[2] == (
            joiner,
            ServerMessage::SyncDispatcherState(s0.rooms@[k].state->Game_0.dispatcher),
        ),
{
    let ca = choose|ca: int|
        0 <= ca < s0.clients@.len() && s0.clients@[ca].id == sender && #[trigger] in_room(
            s0.rooms@,
            s0.clients@[ca],
            k,
        );
    assert(s0.clients@[ca].id == sender);
    assert(in_room(s0.rooms@, s0.clients@[ca], k) && s0.rooms@[k].state is Game);
    let (cb, p) = choose|cb: int, p: int|
        0 <= cb < s1.clients@.len() && s1.clients@[cb].id == joiner && #[trigger] first_slot_with(
            s1.rooms@[k].players@,
            s1.clients@[cb].token@,
            p,
        );
    assert(s1.clients@[cb].id == joiner);
    assert(s1.rooms@[k].code@ == code);
}

} // verus!
