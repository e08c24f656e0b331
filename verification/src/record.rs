//! One record of an archive: a date, an actor, coordinates and a colour, as
//! text, and the event it stands for.

use vstd::prelude::*;
use vstd::hash_map::StringHashMap;
use crate::date::{date_to_timestamp, timestamp_of};
use crate::error::MalformedEvent;
use crate::event::{PlacementEvent, UNSET};
use crate::text::{chars_of, parse_hex_u32, parse_i32, signed_decimal, unsigned_hex};

verus! {

/// The places in the text at which `c` stands, in ascending order.
pub open spec fn positions(text: Seq<char>, c: char) -> Seq<int>
    decreases text.len(),
{
    if text.len() == 0 {
        Seq::empty()
    } else if text.last() == c {
        positions(text.drop_last(), c).push(text.len() - 1)
    } else {
        positions(text.drop_last(), c)
    }
}

/// Finds the places at which `c` stands.
pub fn find_all(chars: &Vec<char>, c: char) -> (found: Vec<usize>)
    ensures
        found@.len() == positions(chars@, c).len(),
        forall|i: int| 0 <= i < found@.len() ==> found@[i] == positions(chars@, c)[i],
        forall|i: int| 0 <= i < found@.len() ==> found@[i] < chars@.len(),
        forall|i: int, j: int| 0 <= i < j < found@.len() ==> found@[i] < found@[j],
{
    let mut found: Vec<usize> = Vec::new();
    let mut at: usize = 0;
    while at < chars.len()
        invariant
            at <= chars@.len(),
            found@.len() == positions(chars@.take(at as int), c).len(),
            forall|i: int|
                0 <= i < found@.len() ==> found@[i] == positions(chars@.take(at as int), c)[i],
            forall|i: int| 0 <= i < found@.len() ==> found@[i] < at,
            forall|i: int, j: int| 0 <= i < j < found@.len() ==> found@[i] < found@[j],
        decreases chars@.len() - at,
    {
        proof {
            assert(chars@.take(at as int + 1).drop_last() =~= chars@.take(at as int));
        }
        if chars[at] == c {
            found.push(at);
        }
        at = at + 1;
    }
    proof {
        assert(chars@.take(at as int) =~= chars@);
    }
    found
}

/// The four coordinates that a text writes, in one of three layouts.
///
/// * `x,y` is a point. Both auxiliary coordinates are unset.
/// * A text with two commas is a circle, written with three labels such as
///   `{X: 424, Y: 336, R: 3}`. Each number starts two places after a colon.
///   The first two end at a comma, the third before the last character. The
///   second auxiliary coordinate is unset.
/// * `x1,y1,x2,y2` is a rectangle.
pub open spec fn coords_of(text: Seq<char>) -> Option<(i32, i32, i32, i32)> {
    let commas = positions(text, ',');
    let colons = positions(text, ':');
    let n = text.len() as int;
    if commas.len() == 1 {
        match (
            signed_decimal(text.subrange(0, commas[0])),
            signed_decimal(text.subrange(commas[0] + 1, n)),
        ) {
            (Some(x), Some(y)) => Some((x, y, UNSET, UNSET)),
            _ => None,
        }
    } else if commas.len() == 2 {
        if colons.len() >= 3 && colons[0] + 2 <= commas[0] && colons[1] + 2 <= commas[1]
            && colons[2] + 2 <= n - 1 {
            match (
                signed_decimal(text.subrange(colons[0] + 2, commas[0])),
                signed_decimal(text.subrange(colons[1] + 2, commas[1])),
                signed_decimal(text.subrange(colons[2] + 2, n - 1)),
            ) {
                (Some(x), Some(y), Some(r)) => Some((x, y, r, UNSET)),
                _ => None,
            }
        } else {
            None
        }
    } else if commas.len() == 3 {
        match (
            signed_decimal(text.subrange(0, commas[0])),
            signed_decimal(text.subrange(commas[0] + 1, commas[1])),
            signed_decimal(text.subrange(commas[1] + 1, commas[2])),
            signed_decimal(text.subrange(commas[2] + 1, n)),
        ) {
            (Some(a), Some(b), Some(c), Some(d)) => Some((a, b, c, d)),
            _ => None,
        }
    } else {
        None
    }
}

/// Reads the coordinates of a record.
pub fn read_coords(text: &str) -> (r: Result<(i32, i32, i32, i32), MalformedEvent>)
    ensures
        r is Ok <==> coords_of(text@) is Some,
        r is Ok ==> Some(r->Ok_0) == coords_of(text@),
        r is Err ==> r->Err_0 == MalformedEvent::BadCoordinates,
{
    let chars = chars_of(text);
    let n = chars.len();
    let commas = find_all(&chars, ',');
    if commas.len() == 1 {
        let first = parse_i32(&chars, 0, commas[0]);
        let second = parse_i32(&chars, commas[0] + 1, n);
        match (first, second) {
            (Some(x), Some(y)) => Ok((x, y, UNSET, UNSET)),
            _ => Err(MalformedEvent::BadCoordinates),
        }
    } else if commas.len() == 2 {
        let colons = find_all(&chars, ':');
        if colons.len() < 3 {
            return Err(MalformedEvent::BadCoordinates);
        }
        let last = n - 1;
        if colons[0] >= commas[0] || commas[0] - colons[0] < 2 {
            return Err(MalformedEvent::BadCoordinates);
        }
        if colons[1] >= commas[1] || commas[1] - colons[1] < 2 {
            return Err(MalformedEvent::BadCoordinates);
        }
        if colons[2] >= last || last - colons[2] < 2 {
            return Err(MalformedEvent::BadCoordinates);
        }
        let first = parse_i32(&chars, colons[0] + 2, commas[0]);
        let second = parse_i32(&chars, colons[1] + 2, commas[1]);
        let third = parse_i32(&chars, colons[2] + 2, last);
        match (first, second, third) {
            (Some(x), Some(y), Some(r)) => Ok((x, y, r, UNSET)),
            _ => Err(MalformedEvent::BadCoordinates),
        }
    } else if commas.len() == 3 {
        let first = parse_i32(&chars, 0, commas[0]);
        let second = parse_i32(&chars, commas[0] + 1, commas[1]);
        let third = parse_i32(&chars, commas[1] + 1, commas[2]);
        let fourth = parse_i32(&chars, commas[2] + 1, n);
        match (first, second, third, fourth) {
            (Some(a), Some(b), Some(c), Some(d)) => Ok((a, b, c, d)),
            _ => Err(MalformedEvent::BadCoordinates),
        }
    } else {
        Err(MalformedEvent::BadCoordinates)
    }
}

/// The colour that a text writes: one leading character of one byte, which
/// is passed over, then a hexadecimal number.
pub open spec fn color_of(text: Seq<char>) -> Option<u32> {
    if text.len() >= 1 && (text[0] as u32) < 0x80 {
        unsigned_hex(text.drop_first())
    } else {
        None
    }
}

/// Reads the colour of a record, as in `#FF4500`.
pub fn read_color(text: &str) -> (r: Result<u32, MalformedEvent>)
    ensures
        r is Ok <==> color_of(text@) is Some,
        r is Ok ==> Some(r->Ok_0) == color_of(text@),
        r is Err ==> r->Err_0 == MalformedEvent::BadColor,
{
    let chars = chars_of(text);
    if chars.len() < 1 || chars[0] as u32 >= 0x80 {
        return Err(MalformedEvent::BadColor);
    }
    match parse_hex_u32(&chars, 1, chars.len()) {
        Some(color) => Ok(color),
        None => Err(MalformedEvent::BadColor),
    }
}

/// The actors seen so far as contracts see them: the identifier of each
/// name, and the last identifier that was handed out.
pub struct Actors {
    pub ids: Map<Seq<char>, i64>,
    pub count: int,
}

impl Actors {
    /// The identifiers are `1` to `count`, and no two names share one.
    pub open spec fn wf(self) -> bool {
        &&& 0 <= self.count <= i64::MAX
        &&& forall|name: Seq<char>|
            self.ids.contains_key(name) ==> 1 <= #[trigger] self.ids[name] <= self.count
        &&& forall|a: Seq<char>, b: Seq<char>|
            self.ids.contains_key(a) && self.ids.contains_key(b) && #[trigger] self.ids[a]
                == #[trigger] self.ids[b] ==> a == b
    }

    /// The identifier of `name`: the one it has, or the next free one. `None`
    /// when the name is new and no identifier is left.
    pub open spec fn id_for(self, name: Seq<char>) -> Option<i64> {
        if self.ids.contains_key(name) {
            Some(self.ids[name])
        } else if self.count < i64::MAX {
            Some((self.count + 1) as i64)
        } else {
            None
        }
    }

    /// The actors after `name` was looked up: a new name is added with the
    /// next identifier, if one is left.
    pub open spec fn after(self, name: Seq<char>) -> Actors {
        if !self.ids.contains_key(name) && self.count < i64::MAX {
            Actors { ids: self.ids.insert(name, (self.count + 1) as i64), count: self.count + 1 }
        } else {
            self
        }
    }
}

/// Gives each actor name an identifier: the first name seen gets 1, the
/// next new one 2, and so on.
pub struct ActorTable {
    ids: StringHashMap<i64>,
    count: i64,
}

impl View for ActorTable {
    type V = Actors;

    closed spec fn view(&self) -> Actors {
        Actors { ids: self.ids@, count: self.count as int }
    }
}

impl ActorTable {
    /// A table without names.
    pub fn new() -> (table: ActorTable)
        ensures
            table@.wf(),
            table@.ids == Map::<Seq<char>, i64>::empty(),
            table@.count == 0,
    {
        ActorTable { ids: StringHashMap::new(), count: 0 }
    }

    /// A table without names, with room for `capacity` of them.
    pub fn with_capacity(capacity: usize) -> (table: ActorTable)
        ensures
            table@.wf(),
            table@.ids == Map::<Seq<char>, i64>::empty(),
            table@.count == 0,
    {
        ActorTable { ids: StringHashMap::with_capacity(capacity), count: 0 }
    }

    /// A table without names that hands out the identifiers after `last`,
    /// as when an earlier run has used those up to it. A negative `last`
    /// counts as zero.
    pub fn starting_after(last: i64) -> (table: ActorTable)
        ensures
            table@.wf(),
            table@.ids == Map::<Seq<char>, i64>::empty(),
            table@.count == if last < 0 {
                0
            } else {
                last as int
            },
    {
        ActorTable {
            ids: StringHashMap::new(),
            count: if last < 0 {
                0
            } else {
                last
            },
        }
    }

    /// The last identifier that was handed out, or the one the table was
    /// told to start after.
    pub fn count(&self) -> (n: i64)
        ensures
            n == self@.count,
    {
        self.count
    }

    /// The identifier of `name`. A name not seen before is added.
    pub fn intern(&mut self, name: &str) -> (r: Result<i64, MalformedEvent>)
        requires
            old(self)@.wf(),
        ensures
            final(self)@.wf(),
            final(self)@ == old(self)@.after(name@),
            r is Ok <==> old(self)@.id_for(name@) is Some,
            r is Ok ==> Some(r->Ok_0) == old(self)@.id_for(name@),
            r is Err ==> r->Err_0 == MalformedEvent::TooManyActors,
    {
        match self.ids.get(name) {
            Some(id) => {
                return Ok(*id);
            },
            None => {},
        }
        if self.count == i64::MAX {
            return Err(MalformedEvent::TooManyActors);
        }
        let id = self.count + 1;
        self.count = id;
        self.ids.insert(name.to_owned(), id);
        Ok(id)
    }
}

/// The text of each field.
pub open spec fn texts(fields: Seq<String>) -> Seq<Seq<char>> {
    Seq::new(fields.len(), |i: int| fields[i]@)
}

/// The event that the fields of a record stand for. The fields are read in
/// order and the first fault is reported.
pub open spec fn record_of(fields: Seq<Seq<char>>, actors: Actors) -> Result<
    PlacementEvent,
    MalformedEvent,
> {
    if fields.len() < 1 {
        Err(MalformedEvent::MissingField)
    } else {
        match timestamp_of(fields[0]) {
            Err(e) => Err(e),
            Ok(timestamp) => if fields.len() < 2 {
                Err(MalformedEvent::MissingField)
            } else {
                match actors.id_for(fields[1]) {
                    None => Err(MalformedEvent::TooManyActors),
                    Some(actor_id) => if fields.len() < 3 {
                        Err(MalformedEvent::MissingField)
                    } else {
                        match coords_of(fields[2]) {
                            None => Err(MalformedEvent::BadCoordinates),
                            Some(c) => if fields.len() < 4 {
                                Err(MalformedEvent::MissingField)
                            } else {
                                match color_of(fields[3]) {
                                    None => Err(MalformedEvent::BadColor),
                                    Some(color) => Ok(
                                        PlacementEvent {
                                            timestamp,
                                            actor_id,
                                            x: c.0,
                                            y: c.1,
                                            aux1: c.2,
                                            aux2: c.3,
                                            color,
                                        },
                                    ),
                                }
                            },
                        }
                    },
                }
            },
        }
    }
}

/// The actors after a record was read: the actor is looked up once the date
/// was understood, whatever the later fields hold.
pub open spec fn actors_after_record(fields: Seq<Seq<char>>, actors: Actors) -> Actors {
    if fields.len() >= 2 && timestamp_of(fields[0]) is Ok {
        actors.after(fields[1])
    } else {
        actors
    }
}

/// Reads one record: date, actor, coordinates, colour. Fields after the
/// fourth are ignored.
pub fn read_record(fields: &Vec<String>, actors: &mut ActorTable) -> (r: Result<
    PlacementEvent,
    MalformedEvent,
>)
    requires
        old(actors)@.wf(),
    ensures
        final(actors)@.wf(),
        final(actors)@ == actors_after_record(texts(fields@), old(actors)@),
        r == record_of(texts(fields@), old(actors)@),
{
    if fields.len() < 1 {
        return Err(MalformedEvent::MissingField);
    }
    let timestamp = match date_to_timestamp(fields[0].as_str()) {
        Ok(t) => t,
        Err(e) => {
            return Err(e);
        },
    };
    if fields.len() < 2 {
        return Err(MalformedEvent::MissingField);
    }
    let actor_id = match actors.intern(fields[1].as_str()) {
        Ok(id) => id,
        Err(e) => {
            return Err(e);
        },
    };
    if fields.len() < 3 {
        return Err(MalformedEvent::MissingField);
    }
    let coords = match read_coords(fields[2].as_str()) {
        Ok(c) => c,
        Err(e) => {
            return Err(e);
        },
    };
    if fields.len() < 4 {
        return Err(MalformedEvent::MissingField);
    }
    let color = match read_color(fields[3].as_str()) {
        Ok(c) => c,
        Err(e) => {
            return Err(e);
        },
    };
    Ok(
        PlacementEvent {
            timestamp,
            actor_id,
            x: coords.0,
            y: coords.1,
            aux1: coords.2,
            aux2: coords.3,
            color,
        },
    )
}

} // verus!
