use vstd::prelude::*;

verus! {

/// A node identifier: a longitude and a latitude, each a signed 32-bit
/// integer, packed into the low and the high half of a `u64`.
#[derive(Debug, PartialEq, Eq, Structural, Copy, Clone, Hash)]
pub struct Id(pub u64);

impl Id {
    /// The longitude held in the low half.
    pub open spec fn long(self) -> i32 {
        self.0 as u32 as i32
    }

    /// The latitude held in the high half.
    pub open spec fn lat(self) -> i32 {
        (self.0 >> 32u64) as u32 as i32
    }

    /// The id of the point at longitude `long` and latitude `lat`.
    pub fn new(long: i32, lat: i32) -> (r: Id)
        ensures
            r.long() == long,
            r.lat() == lat,
            r.0 == long as u32 + lat as u32 * 0x1_0000_0000,
    {
        let lo: u64 = long as u32 as u64;
        let hi: u64 = lat as u32 as u64;
        assert((lo | (hi << 32u64)) as u32 as i32 == long && ((lo | (hi << 32u64)) >> 32u64) as u32 as i32 == lat) by (bit_vector)
            requires
                lo == long as u32 as u64,
                hi == lat as u32 as u64,
        ;
        assert(lo | (hi << 32u64) == lo + hi * 0x1_0000_0000) by (bit_vector)
            requires
                lo <= 0xffff_ffff,
                hi <= 0xffff_ffff,
        ;
        Id(lo | (hi << 32u64))
    }

    /// The latitude this id encodes.
    pub fn get_lat(&self) -> (r: i32)
        ensures
            r == self.lat(),
    {
        (self.0 >> 32u64) as u32 as i32
    }

    /// The longitude this id encodes.
    pub fn get_long(&self) -> (r: i32)
        ensures
            r == self.long(),
    {
        self.0 as u32 as i32
    }
}

/// The three directions in which a node keeps a neighbour.
#[derive(Debug, PartialEq, Eq, Structural, Copy, Clone)]
pub enum Axe {
    Top,
    Left,
    Right,
}

/// Why a display name could not be read back into an `Id`.
#[derive(Debug, PartialEq, Eq, Structural, Copy, Clone)]
pub enum DecodeError {
    /// A character outside the 64-letter alphabet.
    InvalidLetter,
    /// More digits than a 64-bit value holds.
    TooLong,
}

/// The most digits a display name may have: 64 bits in digits of 6 bits.
pub const MAX_NAME_LEN: usize = 11;

/// The absolute value of an integer.
pub open spec fn abs(v: int) -> int {
    if v < 0 { -v } else { v }
}

/// Manhattan distance between the coordinates of two ids.
pub open spec fn dist(a: Id, b: Id) -> int {
    abs(a.long() - b.long()) + abs(a.lat() - b.lat())
}

/// The sector in which `to` lies, seen from `from`.
pub open spec fn sector(from: Id, to: Id) -> Axe {
    let x = to.long() - from.long();
    let y = to.lat() - from.lat();
    if x == 0 {
        if y >= 0 { Axe::Top } else { Axe::Right }
    } else if y > 0 && (4 * abs(x)) / 7 < abs(y) {
        Axe::Top
    } else if x > 0 {
        Axe::Right
    } else {
        Axe::Left
    }
}

/// The letter for a digit below 64: `a-z`, `A-Z`, `0-9`, `-`, `_`.
pub open spec fn letter(d: int) -> char {
    if d < 26 {
        (97 + d) as char
    } else if d < 52 {
        (65 + d - 26) as char
    } else if d < 62 {
        (48 + d - 52) as char
    } else if d == 62 {
        '-'
    } else {
        '_'
    }
}

/// Whether a character belongs to the alphabet.
pub open spec fn is_letter(c: char) -> bool {
    ('a' <= c && c <= 'z') || ('A' <= c && c <= 'Z') || ('0' <= c && c <= '9') || c == '-' || c
        == '_'
}

/// The digit that a letter of the alphabet stands for.
pub open spec fn digit(c: char) -> int {
    if 'a' <= c && c <= 'z' {
        c as int - 97
    } else if 'A' <= c && c <= 'Z' {
        c as int - 65 + 26
    } else if '0' <= c && c <= '9' {
        c as int - 48 + 52
    } else if c == '-' {
        62
    } else {
        63
    }
}

/// The display name of a value: its base-64 digits, least significant first,
/// with no trailing zero digit.
pub open spec fn name_of(v: nat) -> Seq<char>
    decreases v,
{
    if v == 0 {
        Seq::empty()
    } else {
        seq![letter((v % 64) as int)] + name_of(v / 64)
    }
}

/// The value that a sequence of letters spells, least significant first.
pub open spec fn name_value(s: Seq<char>) -> nat
    decreases s.len(),
{
    if s.len() == 0 {
        0
    } else {
        (digit(s[0]) + 64 * name_value(s.drop_first())) as nat
    }
}

/// Whether every character of `s` belongs to the alphabet.
pub open spec fn all_letters(s: Seq<char>) -> bool {
    forall|i: int| 0 <= i < s.len() ==> #[trigger] is_letter(s[i])
}

/// What reading a display name gives.
pub open spec fn parse_name(s: Seq<char>) -> Result<Id, DecodeError> {
    if s.len() > MAX_NAME_LEN {
        Err(DecodeError::TooLong)
    } else if !all_letters(s) {
        Err(DecodeError::InvalidLetter)
    } else if name_value(s) > u64::MAX {
        Err(DecodeError::TooLong)
    } else {
        Ok(Id(name_value(s) as u64))
    }
}

/// 64 to the power `k`.
pub open spec fn pow64(k: nat) -> nat
    decreases k,
{
    if k == 0 { 1 } else { 64 * pow64((k - 1) as nat) }
}

proof fn lemma_letter_digit(d: int)
    requires
        0 <= d < 64,
    ensures
        is_letter(letter(d)),
        digit(letter(d)) == d,
{
}

proof fn lemma_digit_range(c: char)
    requires
        is_letter(c),
    ensures
        0 <= digit(c) < 64,
{
}

proof fn lemma_name_of_letters(v: nat)
    ensures
        all_letters(name_of(v)),
        name_value(name_of(v)) == v,
    decreases v,
{
    if v != 0 {
        lemma_name_of_letters(v / 64);
        lemma_letter_digit((v % 64) as int);
        let s = name_of(v);
        assert(s.drop_first() =~= name_of(v / 64));
        assert forall|i: int| 0 <= i < s.len() implies #[trigger] is_letter(s[i]) by {
            if i > 0 {
                assert(s[i] == name_of(v / 64)[i - 1]);
            }
        }
    }
}

proof fn lemma_name_of_len(v: nat, k: nat)
    requires
        v < pow64(k),
    ensures
        name_of(v).len() <= k,
    decreases k,
{
    if v != 0 {
        assert(k > 0);
        assert(v / 64 < pow64((k - 1) as nat));
        lemma_name_of_len(v / 64, (k - 1) as nat);
    }
}

/// A display name is read back into the id it was made from.
pub proof fn lemma_name_round_trip(id: Id)
    ensures
        parse_name(name_of(id.0 as nat)) == Ok::<Id, DecodeError>(id),
{
    lemma_name_of_letters(id.0 as nat);
    reveal_with_fuel(pow64, 12);
    assert(pow64(11) == 73786976294838206464nat);
    lemma_name_of_len(id.0 as nat, 11);
}

/// Packing coordinates and reading them back gives the same coordinates, and
/// two ids with the same coordinates are the same id.
pub proof fn lemma_coordinates(a: Id, b: Id)
    ensures
        a.long() == b.long() && a.lat() == b.lat() ==> a == b,
{
    let (x, y) = (a.0, b.0);
    assert((x as u32 as i32 == y as u32 as i32 && (x >> 32u64) as u32 as i32 == (y >> 32u64) as u32
        as i32) ==> x == y) by (bit_vector);
}

/// Distance is symmetric and an id is at distance zero from itself; it is zero
/// only between equal ids.
pub proof fn lemma_distance(a: Id, b: Id)
    ensures
        dist(a, b) == dist(b, a),
        dist(a, a) == 0,
        dist(a, b) >= 0,
        dist(a, b) == 0 ==> a == b,
{
    lemma_coordinates(a, b);
}

/// Each ordered pair of ids lies in exactly one sector.
pub proof fn lemma_sector_exclusive(a: Id, b: Id)
    ensures
        (sector(a, b) == Axe::Top) as int + (sector(a, b) == Axe::Left) as int + (sector(a, b)
            == Axe::Right) as int == 1,
{
}

fn letter_of(d: u64) -> (c: char)
    requires
        d < 64,
    ensures
        c == letter(d as int),
{
    if d < 26 {
        (97u8 + d as u8) as char
    } else if d < 52 {
        (65u8 + (d - 26) as u8) as char
    } else if d < 62 {
        (48u8 + (d - 52) as u8) as char
    } else if d == 62 {
        '-'
    } else {
        '_'
    }
}

fn digit_of(c: char) -> (r: Option<u64>)
    ensures
        r.is_some() == is_letter(c),
        r.is_some() ==> r.unwrap() == digit(c),
{
    if 'a' <= c && c <= 'z' {
        Some((c as u32 - 97) as u64)
    } else if 'A' <= c && c <= 'Z' {
        Some((c as u32 - 65 + 26) as u64)
    } else if '0' <= c && c <= '9' {
        Some((c as u32 - 48 + 52) as u64)
    } else if c == '-' {
        Some(62)
    } else if c == '_' {
        Some(63)
    } else {
        None
    }
}

/// Relies on String::push: appends one character at the end.
#[verifier::external_body]
fn push_char(s: &mut String, c: char)
    ensures
        final(s)@ == old(s)@.push(c),
{
    s.push(c)
}

impl Id {
    /// The display name: base-64 digits of the value, least significant
    /// first; the zero id has the empty name.
    pub fn to_name(&self) -> (r: String)
        ensures
            r@ == name_of(self.0 as nat),
    {
        let mut num: u64 = self.0;
        let mut result = String::new();
        while num != 0
            invariant
                result@ + name_of(num as nat) == name_of(self.0 as nat),
            decreases num,
        {
            let d = num % 64;
            proof {
                assert(name_of(num as nat) == seq![letter(d as int)] + name_of((num / 64) as nat));
                assert(result@.push(letter(d as int)) + name_of((num / 64) as nat) =~= result@
                    + name_of(num as nat));
            }
            push_char(&mut result, letter_of(d));
            num = num / 64;
        }
        assert(result@ =~= result@ + name_of(0));
        result
    }

    /// Reads a display name back into an id; fails on a character outside
    /// the alphabet or on more digits than 64 bits hold.
    pub fn from_name(name: &str) -> (r: Result<Id, DecodeError>)
        ensures
            r == parse_name(name@),
    {
        let n = name.unicode_len();
        if n > MAX_NAME_LEN {
            return Err(DecodeError::TooLong);
        }
        let mut res: u64 = 0;
        let mut big = false;
        let mut i: usize = n;
        while i > 0
            invariant
                n == name@.len(),
                n <= MAX_NAME_LEN,
                i <= n,
                all_letters(name@.subrange(i as int, n as int)),
                big ==> name_value(name@.subrange(i as int, n as int)) > u64::MAX,
                !big ==> res == name_value(name@.subrange(i as int, n as int)),
            decreases i,
        {
            let c = name.get_char(i - 1);
            let d = match digit_of(c) {
                Some(d) => d,
                None => {
                    assert(!is_letter(name@[i - 1]));
                    return Err(DecodeError::InvalidLetter);
                },
            };
            let ghost tail = name@.subrange(i as int, n as int);
            let ghost next = name@.subrange(i - 1, n as int);
            proof {
                assert(next.drop_first() =~= tail);
                assert(next[0] == c);
                assert forall|j: int| 0 <= j < next.len() implies #[trigger] is_letter(next[j]) by {
                    if j > 0 {
                        assert(next[j] == tail[j - 1]);
                    }
                }
                lemma_digit_range(c);
            }
            if !big {
                if res > (u64::MAX - d) / 64 {
                    assert(res * 64 + d > u64::MAX) by (nonlinear_arith)
                        requires
                            res > (u64::MAX - d) / 64,
                            d < 64,
                    ;
                    big = true;
                } else {
                    assert(res * 64 + d <= u64::MAX) by (nonlinear_arith)
                        requires
                            res <= (u64::MAX - d) / 64,
                            d < 64,
                    ;
                    res = res * 64 + d;
                }
            }
            i = i - 1;
        }
        assert(name@.subrange(0, n as int) =~= name@);
        if big {
            Err(DecodeError::TooLong)
        } else {
            Ok(Id(res))
        }
    }

    /// The Manhattan distance between the coordinates of two ids.
    pub fn distance(&self, id2: &Self) -> (r: u64)
        ensures
            r == dist(*self, *id2),
    {
        let lat = self.get_lat() as i64 - id2.get_lat() as i64;
        let long = self.get_long() as i64 - id2.get_long() as i64;
        let lat_abs = if lat < 0 { -lat } else { lat };
        let long_abs = if long < 0 { -long } else { long };
        (lat_abs + long_abs) as u64
    }

    /// The sector in which `peer` lies, seen from this id.
    pub fn get_axe(&self, peer: Self) -> (r: Axe)
        ensures
            r == sector(*self, peer),
    {
        let x = peer.get_long() as i64 - self.get_long() as i64;
        let y = peer.get_lat() as i64 - self.get_lat() as i64;
        if x == 0 && y >= 0 {
            Axe::Top
        } else if x == 0 {
            Axe::Right
        } else if y > 0 {
            let x_abs = (if x < 0 { -x } else { x }) as u64;
            if (4 * x_abs) / 7 < y as u64 {
                Axe::Top
            } else if x > 0 {
                Axe::Right
            } else {
                Axe::Left
            }
        } else if x > 0 {
            Axe::Right
        } else {
            Axe::Left
        }
    }
}

} // verus!
