use crate::hex::{parse_hex, parse_hex_range};
use crate::protocol::ResponsePacket;
use crate::text::{chars_of, string_of_range};
use vstd::prelude::*;

verus! {

broadcast use vstd::string::group_string_axioms;

/// Separates the fields of a packed status parameter.
pub const STATUS_FIELD_SEPARATOR: char = '|';

/// The color reported when a status carries none.
pub const DEFAULT_STATUS_COLOR: &'static str = "#000000";

/// The state of a controller, as its status response reports it.
#[derive(Clone, Debug, PartialEq, Eq)]
pub struct DeviceStatus {
    pub hw_debug: bool,
    pub effect_id: u8,
    /// Brightness on the wire scale, 0 to 255.
    pub brightness: u8,
    /// The color as the controller wrote it.
    pub color: String,
    pub fire_pallet_id: u8,
}

/// The first position at or after `j` that holds a field separator, or the length.
pub open spec fn next_separator(s: Seq<char>, j: int) -> int
    decreases s.len() - j,
{
    if j < 0 || j >= s.len() {
        s.len() as int
    } else if s[j] == STATUS_FIELD_SEPARATOR {
        j
    } else {
        next_separator(s, j + 1)
    }
}

/// The fields of `s` from position `j` on, split at each separator.
pub open spec fn fields_from(s: Seq<char>, j: int) -> Seq<Seq<char>>
    decreases s.len() - j,
{
    let e = next_separator(s, j);
    if 0 <= j <= e < s.len() {
        seq![s.subrange(j, e)] + fields_from(s, e + 1)
    } else {
        seq![s.subrange(j, s.len() as int)]
    }
}

/// A byte field: its hexadecimal value, zero if it is missing or not a byte.
pub open spec fn byte_field(fields: Seq<Seq<char>>, k: int) -> u8 {
    if k < fields.len() {
        match parse_hex(fields[k], 255) {
            Some(n) => n as u8,
            None => 0,
        }
    } else {
        0
    }
}

/// The status that a packed status parameter describes. Its fields are, in
/// order: debugging flag, effect code, brightness, color, fire pallet code; the
/// numbers are hexadecimal, and a missing or malformed number counts as zero.
pub open spec fn status_of(packed: Seq<char>) -> (bool, u8, u8, Seq<char>, u8) {
    let fields = fields_from(packed, 0);
    (
        byte_field(fields, 0) != 0,
        byte_field(fields, 1),
        byte_field(fields, 2),
        if 3 < fields.len() {
            fields[3]
        } else {
            DEFAULT_STATUS_COLOR@
        },
        byte_field(fields, 4),
    )
}

impl DeviceStatus {
    pub open spec fn spec_tuple(&self) -> (bool, u8, u8, Seq<char>, u8) {
        (self.hw_debug, self.effect_id, self.brightness, self.color@, self.fire_pallet_id)
    }
}

proof fn lemma_next_separator(s: Seq<char>, j: int)
    requires
        0 <= j <= s.len(),
    ensures
        j <= next_separator(s, j) <= s.len(),
        next_separator(s, j) < s.len() ==> s[next_separator(s, j)] == STATUS_FIELD_SEPARATOR,
    decreases s.len() - j,
{
    if j < s.len() && s[j] != STATUS_FIELD_SEPARATOR {
        lemma_next_separator(s, j + 1);
    }
}

fn byte_value(v: &Vec<char>, lo: usize, hi: usize) -> (r: u8)
    requires
        lo <= hi <= v@.len(),
    ensures
        r == match parse_hex(v@.subrange(lo as int, hi as int), 255) {
            Some(n) => n as u8,
            None => 0u8,
        },
{
    match parse_hex_range(v, lo, hi, 255) {
        Some(n) => n as u8,
        None => 0,
    }
}

/// Reads the fields of a packed status parameter.
pub fn parse_status_fields(packed: &str) -> (r: DeviceStatus)
    ensures
        r.spec_tuple() == status_of(packed@),
{
    let v = chars_of(packed);
    let n = v.len();
    let ghost all = fields_from(v@, 0);
    let mut hw_debug = false;
    let mut effect_id: u8 = 0;
    let mut brightness: u8 = 0;
    let mut color: Option<String> = None;
    let mut fire_pallet_id: u8 = 0;
    let mut j: usize = 0;
    let mut k: usize = 0;
    let ghost mut done: Seq<Seq<char>> = Seq::empty();
    loop
        invariant_except_break
            all == done + fields_from(v@, j as int),
            done.len() == k,
            k <= j,
        invariant
            n == v@.len(),
            j <= n,
            all == fields_from(v@, 0),
            hw_debug == (byte_field(done, 0) != 0),
            effect_id == byte_field(done, 1),
            brightness == byte_field(done, 2),
            color matches Some(c) ==> 3 < done.len() && c@ == done[3],
            color is None ==> done.len() <= 3,
            fire_pallet_id == byte_field(done, 4),
        ensures
            all == done,
        decreases n - j,
    {
        proof {
            lemma_next_separator(v@, j as int);
        }
        let mut e = j;
        while e < n && v[e] != STATUS_FIELD_SEPARATOR
            invariant
                j <= e <= n,
                n == v@.len(),
                next_separator(v@, e as int) == next_separator(v@, j as int),
            decreases n - e,
        {
            e = e + 1;
        }
        assert(next_separator(v@, e as int) == e);
        let ghost field = v@.subrange(j as int, e as int);
        let ghost rest = fields_from(v@, j as int);
        assert(rest[0] == field);
        if k == 0 {
            hw_debug = byte_value(&v, j, e) != 0;
        } else if k == 1 {
            effect_id = byte_value(&v, j, e);
        } else if k == 2 {
            brightness = byte_value(&v, j, e);
        } else if k == 3 {
            color = Some(string_of_range(&v, j, e));
        } else if k == 4 {
            fire_pallet_id = byte_value(&v, j, e);
        }
        let ghost before = done;
        proof {
            done = done.push(field);
            assert forall|i: int| 0 <= i < before.len() implies done[i] == before[i] by {}
        }
        if e == n {
            proof {
                assert(rest =~= seq![field]);
                assert(all =~= done);
            }
            break;
        }
        proof {
            assert(rest =~= seq![field] + fields_from(v@, e + 1));
            assert(all =~= done + fields_from(v@, e + 1));
        }
        j = e + 1;
        k = k + 1;
    }
    let color = match color {
        Some(c) => c,
        None => {
            proof { reveal_strlit("#000000"); }
            let mut s = String::new();
            crate::text::push_str(&mut s, DEFAULT_STATUS_COLOR);
            s
        },
    };
    DeviceStatus { hw_debug, effect_id, brightness, color, fire_pallet_id }
}

/// The status that a status response reports in its second parameter; `None`
/// if it has no second parameter.
pub fn parse_device_status(packet: &ResponsePacket) -> (r: Option<DeviceStatus>)
    ensures
        packet@.parameters.len() < 2 ==> r is None,
        packet@.parameters.len() >= 2 ==> (r matches Some(s) && s.spec_tuple() == status_of(
            packet@.parameters[1],
        )),
{
    if packet.parameters.len() < 2 {
        None
    } else {
        Some(parse_status_fields(packet.parameters[1].as_str()))
    }
}

/// `s` without any `#` at its start.
pub open spec fn strip_hash_front(s: Seq<char>) -> Seq<char>
    decreases s.len(),
{
    if s.len() > 0 && s[0] == '#' {
        strip_hash_front(s.drop_first())
    } else {
        s
    }
}

/// `s` without any `#` at its end.
pub open spec fn strip_hash_back(s: Seq<char>) -> Seq<char>
    decreases s.len(),
{
    if s.len() > 0 && s.last() == '#' {
        strip_hash_back(s.drop_last())
    } else {
        s
    }
}

/// The packed color that a color parameter such as `#4F2D86` spells: any `#`
/// at either end is dropped and the rest read as a hexadecimal `u32`.
pub open spec fn color_param_value(s: Seq<char>) -> Option<nat> {
    parse_hex(strip_hash_back(strip_hash_front(s)), 0xffff_ffff)
}

/// Reads a color parameter such as `#4F2D86`.
pub fn parse_color_param(param: &str) -> (r: Option<u32>)
    ensures
        r matches Some(n) ==> color_param_value(param@) == Some(n as nat),
        r is None ==> color_param_value(param@) is None,
{
    let v = chars_of(param);
    let n = v.len();
    let mut lo: usize = 0;
    assert(v@.subrange(0, n as int) =~= v@);
    while lo < n && v[lo] == '#'
        invariant
            lo <= n == v@.len(),
            strip_hash_front(v@) == strip_hash_front(v@.subrange(lo as int, n as int)),
        decreases n - lo,
    {
        assert(v@.subrange(lo as int, n as int).drop_first() =~= v@.subrange(lo + 1, n as int));
        lo = lo + 1;
    }
    let ghost f = v@.subrange(lo as int, n as int);
    assert(strip_hash_front(f) == f);
    let mut hi: usize = n;
    while hi > lo && v[hi - 1] == '#'
        invariant
            lo <= hi <= n == v@.len(),
            f == v@.subrange(lo as int, n as int),
            strip_hash_back(f) == strip_hash_back(v@.subrange(lo as int, hi as int)),
        decreases hi,
    {
        assert(v@.subrange(lo as int, hi as int).drop_last() =~= v@.subrange(lo as int, hi - 1));
        hi = hi - 1;
    }
    assert(strip_hash_back(v@.subrange(lo as int, hi as int)) == v@.subrange(lo as int, hi as int));
    parse_hex_range(&v, lo, hi, 0xffff_ffff)
}

} // verus!
