use vstd::prelude::*;

verus! {

/// The members of `channel` in the registry `rooms`: none where it has no room.
pub open spec fn members_of(
    rooms: Map<Seq<char>, Set<Seq<char>>>,
    channel: Seq<char>,
) -> Set<Seq<char>> {
    if rooms.dom().contains(channel) {
        rooms[channel]
    } else {
        Set::empty()
    }
}

/// The registry after `user` asks to join `channel`: the room is opened if it
/// was not there, and the name is added to its members.
pub open spec fn after_join(
    rooms: Map<Seq<char>, Set<Seq<char>>>,
    channel: Seq<char>,
    user: Seq<char>,
) -> Map<Seq<char>, Set<Seq<char>>> {
    rooms.insert(channel, members_of(rooms, channel).insert(user))
}

/// Whether a request of `user` to join `channel` is granted: the name must
/// not be taken in that room, and must not be empty.
pub open spec fn admits(
    rooms: Map<Seq<char>, Set<Seq<char>>>,
    channel: Seq<char>,
    user: Seq<char>,
) -> bool {
    !members_of(rooms, channel).contains(user) && user.len() > 0
}

/// The registry after `user` leaves `channel`: the name is dropped from the
/// members, and a room left with nobody in it is closed.
pub open spec fn after_leave(
    rooms: Map<Seq<char>, Set<Seq<char>>>,
    channel: Seq<char>,
    user: Seq<char>,
) -> Map<Seq<char>, Set<Seq<char>>> {
    let rest = members_of(rooms, channel).remove(user);
    if rest == Set::<Seq<char>>::empty() {
        rooms.remove(channel)
    } else {
        rooms.insert(channel, rest)
    }
}

/// The names in `users`, as a set.
pub open spec fn name_set(users: Seq<String>) -> Set<Seq<char>> {
    Set::new(|u: Seq<char>| exists|j: int| 0 <= j < users.len() && users[j]@ == u)
}

/// No name stands twice in `users`.
pub open spec fn distinct_names(users: Seq<String>) -> bool {
    forall|j: int, k: int| 0 <= j < users.len() && 0 <= k < users.len() && j != k ==> users[j]@ != users[k]@
}

/// One chat room: its name and the names of the users in it.
pub struct ChatRoom {
    name: String,
    users: Vec<String>,
}

/// The chat rooms that are open, each with the users in it. Its view maps the
/// name of each open room to the set of its members.
pub struct ChatRooms {
    rooms: Vec<ChatRoom>,
    members: Ghost<Map<Seq<char>, Set<Seq<char>>>>,
}

impl View for ChatRooms {
    type V = Map<Seq<char>, Set<Seq<char>>>;

    closed spec fn view(&self) -> Map<Seq<char>, Set<Seq<char>>> {
        self.members@
    }
}

impl ChatRooms {
    /// The rooms are told apart by name, no room holds a name twice, no room
    /// is empty, and the view holds exactly the rooms with their members.
    pub closed spec fn wf(&self) -> bool {
        rooms_wf(self.rooms@, self.members@)
    }

    /// No room open.
    pub fn new() -> (rooms: ChatRooms)
        ensures
            rooms.wf(),
            rooms@ == Map::<Seq<char>, Set<Seq<char>>>::empty(),
    {
        ChatRooms { rooms: Vec::new(), members: Ghost(Map::empty()) }
    }

    /// A request of `username` to join `channel`. The room is opened if it was
    /// not, and the name is added to its members whether or not the request is
    /// granted; it is granted where the name was not taken and is not empty.
    pub fn join(&mut self, channel: String, username: String) -> (admitted: bool)
        requires
            old(self).wf(),
        ensures
            final(self).wf(),
            final(self)@ == after_join(old(self)@, channel@, username@),
            admitted == admits(old(self)@, channel@, username@),
            admitted == (!(old(self)@.dom().contains(channel@) && old(self)@[channel@].contains(username@))
                && username@.len() > 0),
            final(self)@.dom() == old(self)@.dom().insert(channel@),
            final(self)@[channel@].contains(username@),
            forall|u: Seq<char>| #[trigger] final(self)@[channel@].contains(u) <==> (u == username@
                || (old(self)@.dom().contains(channel@) && old(self)@[channel@].contains(u))),
    {
        let named = !username.as_str().is_empty();
        match self.find_room(&channel) {
            Some(i) => {
                match find_user(&self.rooms[i].users, &username) {
                    Some(_) => {
                        proof {
                            assert(self@[channel@].insert(username@) =~= self@[channel@]);
                            assert(after_join(self@, channel@, username@) =~= self@);
                        }
                        false
                    },
                    None => {
                        let ghost old_rooms = self.rooms@;
                        let ghost old_members = self@;
                        let mut room = self.rooms.remove(i);
                        room.users.push(username);
                        self.rooms.insert(i, room);
                        proof {
                            let new_room = self.rooms@[i as int];
                            assert(self.rooms@ =~= old_rooms.update(i as int, new_room));
                            assert(name_set(new_room.users@) =~= name_set(old_rooms[i as int].users@).insert(username@)) by {
                                assert forall|u: Seq<char>| name_set(old_rooms[i as int].users@).insert(username@).contains(u)
                                    implies name_set(new_room.users@).contains(u) by {
                                    if u == username@ {
                                        assert(new_room.users@[new_room.users@.len() - 1]@ == u);
                                    } else {
                                        let j = choose|j: int| 0 <= j < old_rooms[i as int].users@.len() && old_rooms[i as int].users@[j]@ == u;
                                        assert(new_room.users@[j]@ == u);
                                    }
                                }
                            }
                            self.members@ = old_members.insert(channel@, name_set(new_room.users@));
                            assert(self.members@ =~= after_join(old_members, channel@, username@));
                            lemma_distinct_push(old_rooms[i as int].users@, new_room.users@.last());
                            lemma_wf_after_update(old_rooms, old_members, i as int, new_room);
                        }
                        named
                    },
                }
            },
            None => {
                let ghost old_rooms = self.rooms@;
                let ghost old_members = self@;
                let mut users: Vec<String> = Vec::new();
                users.push(username);
                self.rooms.push(ChatRoom { name: channel, users });
                proof {
                    let new_room = self.rooms@[old_rooms.len() as int];
                    assert(name_set(new_room.users@) =~= Set::<Seq<char>>::empty().insert(username@)) by {
                        assert(new_room.users@[0]@ == username@);
                    }
                    self.members@ = old_members.insert(channel@, name_set(new_room.users@));
                    assert(self.members@ =~= after_join(old_members, channel@, username@));
                    lemma_wf_after_push(old_rooms, old_members, new_room);
                }
                named
            },
        }
    }

    /// `username` leaves `channel`, which must be open. The name is dropped
    /// from the members, and the room is closed where nobody is left in it;
    /// the result tells whether it was closed.
    pub fn leave(&mut self, channel: &String, username: &String) -> (closed: bool)
        requires
            old(self).wf(),
            old(self)@.dom().contains(channel@),
        ensures
            final(self).wf(),
            final(self)@ == after_leave(old(self)@, channel@, username@),
            closed == !final(self)@.dom().contains(channel@),
            closed <==> (forall|u: Seq<char>| old(self)@[channel@].contains(u) ==> u == username@),
            !closed ==> forall|u: Seq<char>| #[trigger] final(self)@[channel@].contains(u) <==> (u != username@
                && old(self)@[channel@].contains(u)),
            final(self)@.dom() == if closed { old(self)@.dom().remove(channel@) } else { old(self)@.dom() },
    {
        let ghost old_rooms = self.rooms@;
        let ghost old_members = self@;
        proof {
            lemma_leave_drops_the_name(old_members, channel@, username@);
        }
        let i = self.find_room(channel).unwrap();
        let mut room = self.rooms.remove(i);
        let ghost old_users = room.users@;
        match find_user(&room.users, username) {
            Some(j) => {
                room.users.remove(j);
                proof {
                    lemma_remove_name(old_users, j as int);
                }
            },
            None => {
                proof {
                    assert(name_set(old_users).remove(username@) =~= name_set(old_users));
                }
            },
        }
        proof {
            assert(name_set(room.users@) == members_of(old_members, channel@).remove(username@));
            lemma_name_set_empty(room.users@);
        }
        if room.users.len() == 0 {
            proof {
                assert(self.rooms@ =~= old_rooms.remove(i as int));
                lemma_wf_after_remove(old_rooms, old_members, i as int);
                self.members@ = old_members.remove(channel@);
            }
            true
        } else {
            self.rooms.insert(i, room);
            proof {
                let new_room = self.rooms@[i as int];
                assert(self.rooms@ =~= old_rooms.update(i as int, new_room));
                lemma_wf_after_update(old_rooms, old_members, i as int, new_room);
                self.members@ = old_members.insert(channel@, name_set(new_room.users@));
            }
            false
        }
    }

    /// The names of the open rooms, each once, in no particular order.
    pub fn room_names(&self) -> (names: Vec<String>)
        requires
            self.wf(),
        ensures
            distinct_names(names@),
            name_set(names@) == self@.dom(),
    {
        let mut names: Vec<String> = Vec::new();
        let mut i: usize = 0;
        while i < self.rooms.len()
            invariant
                self.wf(),
                i <= self.rooms@.len(),
                names@.len() == i,
                forall|k: int| 0 <= k < i ==> #[trigger] names@[k]@ == self.rooms@[k].name@,
            decreases self.rooms@.len() - i,
        {
            names.push(self.rooms[i].name.clone());
            i = i + 1;
        }
        proof {
            assert forall|a: int, b: int| 0 <= a < names@.len() && 0 <= b < names@.len() && a != b
                implies names@[a]@ != names@[b]@ by {
                assert(self.rooms@[a].name@ != self.rooms@[b].name@);
            }
            assert forall|c: Seq<char>| name_set(names@).contains(c) <==> self@.dom().contains(c) by {
                if name_set(names@).contains(c) {
                    let k = choose|k: int| 0 <= k < names@.len() && names@[k]@ == c;
                    assert(self.rooms@[k].name@ == c);
                }
                if self@.dom().contains(c) {
                    let k = choose|k: int| 0 <= k < self.rooms@.len() && #[trigger] self.rooms@[k].name@ == c;
                    assert(names@[k]@ == c);
                }
            }
            assert(name_set(names@) =~= self@.dom());
        }
        names
    }

    /// The position of the room called `channel`, if it is open.
    fn find_room(&self, channel: &String) -> (found: Option<usize>)
        requires
            self.wf(),
        ensures
            found matches Some(i) ==> i < self.rooms@.len() && self.rooms@[i as int].name@ == channel@,
            found is None <==> !self@.dom().contains(channel@),
    {
        let mut i: usize = 0;
        while i < self.rooms.len()
            invariant
                self.wf(),
                i <= self.rooms@.len(),
                forall|k: int| 0 <= k < i ==> self.rooms@[k].name@ != channel@,
            decreases self.rooms@.len() - i,
        {
            if self.rooms[i].name == *channel {
                return Some(i);
            }
            i = i + 1;
        }
        proof {
            if self@.dom().contains(channel@) {
                let k = choose|k: int| 0 <= k < self.rooms@.len() && #[trigger] self.rooms@[k].name@ == channel@;
                assert(self.rooms@[k].name@ == channel@);
            }
        }
        None
    }
}

/// The position of `user` among `users`, if it stands there.
fn find_user(users: &Vec<String>, user: &String) -> (found: Option<usize>)
    ensures
        found matches Some(j) ==> j < users@.len() && users@[j as int]@ == user@,
        found is None <==> !name_set(users@).contains(user@),
{
    let mut j: usize = 0;
    while j < users.len()
        invariant
            j <= users@.len(),
            forall|k: int| 0 <= k < j ==> users@[k]@ != user@,
        decreases users@.len() - j,
    {
        if users[j] == *user {
            return Some(j);
        }
        j = j + 1;
    }
    None
}

/// The rooms are told apart by name, no room holds a name twice, no room is
/// empty, and `members` holds exactly the rooms with their members.
pub closed spec fn rooms_wf(rooms: Seq<ChatRoom>, members: Map<Seq<char>, Set<Seq<char>>>) -> bool {
    &&& forall|i: int, j: int|
        0 <= i < rooms.len() && 0 <= j < rooms.len() && i != j
            ==> #[trigger] rooms[i].name@ != #[trigger] rooms[j].name@
    &&& forall|i: int|
        #![trigger rooms[i]]
        0 <= i < rooms.len() ==> {
            &&& distinct_names(rooms[i].users@)
            &&& rooms[i].users@.len() > 0
            &&& members.dom().contains(rooms[i].name@)
            &&& members[rooms[i].name@] == name_set(rooms[i].users@)
        }
    &&& forall|c: Seq<char>|
        #[trigger] members.dom().contains(c) ==> exists|i: int|
            0 <= i < rooms.len() && #[trigger] rooms[i].name@ == c
}

proof fn lemma_distinct_push(users: Seq<String>, user: String)
    requires
        distinct_names(users),
        !name_set(users).contains(user@),
    ensures
        distinct_names(users.push(user)),
{
    let pushed = users.push(user);
    assert forall|j: int, k: int| 0 <= j < pushed.len() && 0 <= k < pushed.len() && j != k
        implies pushed[j]@ != pushed[k]@ by {
        if j == users.len() {
            assert(users[k]@ == pushed[k]@);
        } else if k == users.len() {
            assert(users[j]@ == pushed[j]@);
        }
    }
}

proof fn lemma_wf_after_update(
    rooms: Seq<ChatRoom>,
    members: Map<Seq<char>, Set<Seq<char>>>,
    i: int,
    room: ChatRoom,
)
    requires
        rooms_wf(rooms, members),
        0 <= i < rooms.len(),
        room.name@ == rooms[i].name@,
        distinct_names(room.users@),
        room.users@.len() > 0,
    ensures
        rooms_wf(rooms.update(i, room), members.insert(room.name@, name_set(room.users@))),
{
    let new_rooms = rooms.update(i, room);
    let new_members = members.insert(room.name@, name_set(room.users@));
    assert forall|c: Seq<char>| #[trigger] new_members.dom().contains(c) implies exists|k: int|
        0 <= k < new_rooms.len() && #[trigger] new_rooms[k].name@ == c by {
        if c == room.name@ {
            assert(new_rooms[i].name@ == c);
        } else {
            let k = choose|k: int| 0 <= k < rooms.len() && #[trigger] rooms[k].name@ == c;
            assert(new_rooms[k].name@ == c);
        }
    }
    assert forall|k: int| #![trigger new_rooms[k]] 0 <= k < new_rooms.len() implies {
        &&& distinct_names(new_rooms[k].users@)
        &&& new_rooms[k].users@.len() > 0
        &&& new_members.dom().contains(new_rooms[k].name@)
        &&& new_members[new_rooms[k].name@] == name_set(new_rooms[k].users@)
    } by {
        if k != i {
            assert(rooms[k] == new_rooms[k]);
            assert(rooms[k].name@ != rooms[i].name@);
        }
    }
    assert forall|j: int, k: int|
        0 <= j < new_rooms.len() && 0 <= k < new_rooms.len() && j != k
            implies #[trigger] new_rooms[j].name@ != #[trigger] new_rooms[k].name@ by {
        assert(rooms[j].name@ != rooms[k].name@);
    }
}

proof fn lemma_wf_after_push(
    rooms: Seq<ChatRoom>,
    members: Map<Seq<char>, Set<Seq<char>>>,
    room: ChatRoom,
)
    requires
        rooms_wf(rooms, members),
        !members.dom().contains(room.name@),
        distinct_names(room.users@),
        room.users@.len() > 0,
    ensures
        rooms_wf(rooms.push(room), members.insert(room.name@, name_set(room.users@))),
{
    let new_rooms = rooms.push(room);
    let new_members = members.insert(room.name@, name_set(room.users@));
    let n = rooms.len() as int;
    assert forall|c: Seq<char>| #[trigger] new_members.dom().contains(c) implies exists|k: int|
        0 <= k < new_rooms.len() && #[trigger] new_rooms[k].name@ == c by {
        if c == room.name@ {
            assert(new_rooms[n].name@ == c);
        } else {
            let k = choose|k: int| 0 <= k < rooms.len() && #[trigger] rooms[k].name@ == c;
            assert(new_rooms[k].name@ == c);
        }
    }
    assert forall|k: int| #![trigger new_rooms[k]] 0 <= k < new_rooms.len() implies {
        &&& distinct_names(new_rooms[k].users@)
        &&& new_rooms[k].users@.len() > 0
        &&& new_members.dom().contains(new_rooms[k].name@)
        &&& new_members[new_rooms[k].name@] == name_set(new_rooms[k].users@)
    } by {
        if k != n {
            assert(rooms[k] == new_rooms[k]);
        }
    }
    assert forall|j: int, k: int|
        0 <= j < new_rooms.len() && 0 <= k < new_rooms.len() && j != k
            implies #[trigger] new_rooms[j].name@ != #[trigger] new_rooms[k].name@ by {
        if j == n {
            assert(rooms[k] == new_rooms[k]);
        } else if k == n {
            assert(rooms[j] == new_rooms[j]);
        } else {
            assert(rooms[j].name@ != rooms[k].name@);
        }
    }
}

/// Dropping the user at `j` drops that name, and only it, from the set of names.
proof fn lemma_remove_name(users: Seq<String>, j: int)
    requires
        distinct_names(users),
        0 <= j < users.len(),
    ensures
        distinct_names(users.remove(j)),
        name_set(users.remove(j)) == name_set(users).remove(users[j]@),
{
    let rest = users.remove(j);
    assert forall|a: int, b: int| 0 <= a < rest.len() && 0 <= b < rest.len() && a != b
        implies rest[a]@ != rest[b]@ by {
        let a0 = if a < j { a } else { a + 1 };
        let b0 = if b < j { b } else { b + 1 };
        assert(rest[a] == users[a0]);
        assert(rest[b] == users[b0]);
    }
    assert forall|u: Seq<char>| name_set(users).remove(users[j]@).contains(u)
        implies name_set(rest).contains(u) by {
        let k = choose|k: int| 0 <= k < users.len() && users[k]@ == u;
        if k < j {
            assert(rest[k]@ == u);
        } else {
            assert(k != j);
            assert(rest[k - 1]@ == u);
        }
    }
    assert forall|u: Seq<char>| name_set(rest).contains(u)
        implies name_set(users).remove(users[j]@).contains(u) by {
        let k = choose|k: int| 0 <= k < rest.len() && rest[k]@ == u;
        let k0 = if k < j { k } else { k + 1 };
        assert(users[k0]@ == u);
        assert(k0 != j);
    }
    assert(name_set(rest) =~= name_set(users).remove(users[j]@));
}

/// The set of names is empty exactly where there are no users.
proof fn lemma_name_set_empty(users: Seq<String>)
    ensures
        (name_set(users) == Set::<Seq<char>>::empty()) <==> users.len() == 0,
{
    if users.len() == 0 {
        assert(name_set(users) =~= Set::<Seq<char>>::empty());
    } else {
        assert(name_set(users).contains(users[0]@));
    }
}

proof fn lemma_wf_after_remove(
    rooms: Seq<ChatRoom>,
    members: Map<Seq<char>, Set<Seq<char>>>,
    i: int,
)
    requires
        rooms_wf(rooms, members),
        0 <= i < rooms.len(),
    ensures
        rooms_wf(rooms.remove(i), members.remove(rooms[i].name@)),
{
    let new_rooms = rooms.remove(i);
    let new_members = members.remove(rooms[i].name@);
    assert forall|c: Seq<char>| #[trigger] new_members.dom().contains(c) implies exists|k: int|
        0 <= k < new_rooms.len() && #[trigger] new_rooms[k].name@ == c by {
        let k = choose|k: int| 0 <= k < rooms.len() && #[trigger] rooms[k].name@ == c;
        assert(k != i);
        if k < i {
            assert(new_rooms[k].name@ == c);
        } else {
            assert(new_rooms[k - 1].name@ == c);
        }
    }
    assert forall|k: int| #![trigger new_rooms[k]] 0 <= k < new_rooms.len() implies {
        &&& distinct_names(new_rooms[k].users@)
        &&& new_rooms[k].users@.len() > 0
        &&& new_members.dom().contains(new_rooms[k].name@)
        &&& new_members[new_rooms[k].name@] == name_set(new_rooms[k].users@)
    } by {
        let k0 = if k < i { k } else { k + 1 };
        assert(new_rooms[k] == rooms[k0]);
        assert(rooms[k0].name@ != rooms[i].name@);
    }
    assert forall|a: int, b: int|
        0 <= a < new_rooms.len() && 0 <= b < new_rooms.len() && a != b
            implies #[trigger] new_rooms[a].name@ != #[trigger] new_rooms[b].name@ by {
        let a0 = if a < i { a } else { a + 1 };
        let b0 = if b < i { b } else { b + 1 };
        assert(new_rooms[a] == rooms[a0]);
        assert(new_rooms[b] == rooms[b0]);
        assert(rooms[a0].name@ != rooms[b0].name@);
    }
}

/// Every open room has at least one member.
pub proof fn lemma_open_rooms_are_occupied(rooms: ChatRooms, channel: Seq<char>)
    requires
        rooms.wf(),
        rooms@.dom().contains(channel),
    ensures
        rooms@[channel] != Set::<Seq<char>>::empty(),
{
    let i = choose|i: int| 0 <= i < rooms.rooms@.len() && #[trigger] rooms.rooms@[i].name@ == channel;
    assert(rooms.rooms@[i].name@ == channel);
    lemma_name_set_empty(rooms.rooms@[i].users@);
}

/// A user who joins a room whose members do not include that name, and then
/// leaves it, leaves the registry as it was: a room opened by the join is
/// closed again.
pub proof fn lemma_join_then_leave_restores(rooms: ChatRooms, channel: Seq<char>, user: Seq<char>)
    requires
        rooms.wf(),
        !members_of(rooms@, channel).contains(user),
    ensures
        after_leave(after_join(rooms@, channel, user), channel, user) == rooms@,
{
    let joined = after_join(rooms@, channel, user);
    assert(members_of(joined, channel).remove(user) =~= members_of(rooms@, channel));
    if rooms@.dom().contains(channel) {
        lemma_open_rooms_are_occupied(rooms, channel);
        assert(after_leave(joined, channel, user) =~= rooms@);
    } else {
        assert(members_of(rooms@, channel) =~= Set::<Seq<char>>::empty());
        assert(after_leave(joined, channel, user) =~= rooms@);
    }
}

/// Asking to join under a name that is already taken in the room changes
/// nothing, and is refused.
pub proof fn lemma_taken_name_changes_nothing(
    rooms: Map<Seq<char>, Set<Seq<char>>>,
    channel: Seq<char>,
    user: Seq<char>,
)
    requires
        members_of(rooms, channel).contains(user),
    ensures
        after_join(rooms, channel, user) == rooms,
        !admits(rooms, channel, user),
{
    assert(members_of(rooms, channel).insert(user) =~= rooms[channel]);
    assert(after_join(rooms, channel, user) =~= rooms);
}

/// Joining or leaving one room leaves every other room as it was.
pub proof fn lemma_other_rooms_untouched(
    rooms: Map<Seq<char>, Set<Seq<char>>>,
    channel: Seq<char>,
    other: Seq<char>,
    user: Seq<char>,
)
    requires
        channel != other,
    ensures
        after_join(rooms, channel, user).dom().contains(other) == rooms.dom().contains(other),
        after_leave(rooms, channel, user).dom().contains(other) == rooms.dom().contains(other),
        members_of(after_join(rooms, channel, user), other) == members_of(rooms, other),
        members_of(after_leave(rooms, channel, user), other) == members_of(rooms, other),
{
}

/// A request is granted exactly when the name is not empty and no member of
/// the room goes by it: a free name is always admitted, however many are in
/// the room.
pub proof fn lemma_admitted_iff_name_free(
    rooms: Map<Seq<char>, Set<Seq<char>>>,
    channel: Seq<char>,
    user: Seq<char>,
)
    ensures
        admits(rooms, channel, user) <==> (!(rooms.dom().contains(channel) && rooms[channel].contains(user))
            && user.len() > 0),
        !(rooms.dom().contains(channel) && rooms[channel].contains(user)) && user.len() > 0 ==> admits(rooms, channel, user),
{
}

/// After a join the room is open and its members are those it had, and the
/// new name.
pub proof fn lemma_join_adds_the_name(
    rooms: Map<Seq<char>, Set<Seq<char>>>,
    channel: Seq<char>,
    user: Seq<char>,
)
    ensures
        after_join(rooms, channel, user).dom() == rooms.dom().insert(channel),
        forall|u: Seq<char>| #[trigger] after_join(rooms, channel, user)[channel].contains(u) <==> (u == user
            || (rooms.dom().contains(channel) && rooms[channel].contains(u))),
{
    assert(after_join(rooms, channel, user).dom() =~= rooms.dom().insert(channel));
}

/// After a leave the name is no member of the room, every other member
/// stays, and the room is closed exactly when that name was its only member.
pub proof fn lemma_leave_drops_the_name(
    rooms: Map<Seq<char>, Set<Seq<char>>>,
    channel: Seq<char>,
    user: Seq<char>,
)
    requires
        rooms.dom().contains(channel),
    ensures
        !after_leave(rooms, channel, user).dom().contains(channel)
            <==> (forall|u: Seq<char>| rooms[channel].contains(u) ==> u == user),
        after_leave(rooms, channel, user).dom().contains(channel) ==> forall|u: Seq<char>|
            #[trigger] after_leave(rooms, channel, user)[channel].contains(u) <==> (u != user
                && rooms[channel].contains(u)),
{
    let rest = rooms[channel].remove(user);
    if forall|u: Seq<char>| rooms[channel].contains(u) ==> u == user {
        assert(rest =~= Set::<Seq<char>>::empty());
    } else {
        let w = choose|u: Seq<char>| !(rooms[channel].contains(u) ==> u == user);
        assert(rest.contains(w));
    }
}

} // verus!
